//! Chapter selections: a comma-separated list of chapter numbers and
//! inclusive ranges, read into a list of ranges, each with its start not
//! above its end, sorted by their start.

use crate::error::Error;
use crate::text::{find_char, index_of, parse_number, parsed, split, to_chars, trim, trim_bounds};
use vstd::prelude::*;
use vstd::seq_lib::*;

verus! {

/// The selection grammar: tokens separated by commas, each token a run of
/// digits, optionally followed by `-` and optional digits, with optional
/// whitespace around the tokens and the commas.
pub const RANGE_PATTERN: &'static str = "^\\s*(\\d+(-\\d*)?\\s*,\\s*)*\\d+(-\\d*)?\\s*$";

/// Whether the regular expression `pattern` matches somewhere in `text`:
/// `None` where `pattern` is not a regular expression that the `regex`
/// crate compiles.
pub uninterp spec fn pattern_match(pattern: Seq<char>, text: Seq<char>) -> Option<bool>;

/// Compiles `pattern` with `regex::Regex::new` and asks `Regex::is_match`
/// whether it matches in `text`. Nothing is claimed of the outcome beyond its
/// being a function of the two texts.
#[verifier::external_body]
pub(crate) fn regex_is_match(pattern: &str, text: &str) -> (r: Option<bool>)
    ensures
        r == pattern_match(pattern@, text@),
{
    match regex::Regex::new(pattern) {
        Ok(re) => Some(re.is_match(text)),
        Err(_) => None,
    }
}

/// Whether `input` follows the selection grammar.
pub open spec fn valid_selection(input: Seq<char>) -> bool {
    pattern_match(RANGE_PATTERN@, input) == Some(true)
}

/// The number that `s` writes, or `default` where it writes none.
pub open spec fn number_or(s: Seq<char>, default: usize) -> usize {
    match parsed(s) {
        Some(n) => n,
        None => default,
    }
}

/// The inclusive range between two bounds, the smaller one first.
pub open spec fn range_between(a: usize, b: usize) -> (usize, usize) {
    if a <= b {
        (a, b)
    } else {
        (b, a)
    }
}

/// The range that one token of a selection stands for.
///
/// A token with a `-` is a range between two bounds: the number before the
/// first `-` (1 where that is no number) and the number between the first
/// and the second `-` (the largest `usize` where that is no number); bounds
/// written the wrong way round are exchanged. A token without `-` is a
/// single chapter if it is a number, and stands for nothing otherwise.
pub open spec fn token_range(token: Seq<char>) -> Option<(usize, usize)> {
    let t = trim(token);
    let p = index_of(t, '-');
    if 0 <= p < t.len() {
        let rest = t.skip(p + 1);
        Some(
            range_between(
                number_or(t.take(p), 1),
                number_or(rest.take(index_of(rest, '-')), usize::MAX),
            ),
        )
    } else {
        match parsed(t) {
            Some(n) => Some((n, n)),
            None => None,
        }
    }
}

/// The ranges of a list of tokens, in the order of the tokens.
pub open spec fn token_ranges(tokens: Seq<Seq<char>>) -> Seq<(usize, usize)>
    decreases tokens.len(),
{
    if tokens.len() == 0 {
        Seq::empty()
    } else {
        match token_range(tokens[0]) {
            Some(r) => seq![r] + token_ranges(tokens.drop_first()),
            None => token_ranges(tokens.drop_first()),
        }
    }
}

/// The ranges that a selection lists, in the order in which it lists them.
pub open spec fn listed_ranges(input: Seq<char>) -> Seq<(usize, usize)> {
    token_ranges(split(input, ','))
}

/// Ranges in ascending order of their start.
pub open spec fn sorted_by_start(ranges: Seq<(usize, usize)>) -> bool {
    forall|i: int, j: int| 0 <= i <= j < ranges.len() ==> ranges[i].0 <= ranges[j].0
}

/// Ranges that are normalized: no start lies above its end.
pub open spec fn normalized(ranges: Seq<(usize, usize)>) -> bool {
    forall|i: int| 0 <= i < ranges.len() ==> (#[trigger] ranges[i]).0 <= ranges[i].1
}

/// `ranges` holds the ranges that `input` lists, each as often as it is
/// listed, normalized and in ascending order of their start. Ranges with
/// equal starts may stand in either order; nothing is merged.
pub open spec fn is_selection_of(ranges: Seq<(usize, usize)>, input: Seq<char>) -> bool {
    &&& normalized(ranges)
    &&& sorted_by_start(ranges)
    &&& ranges.to_multiset() == listed_ranges(input).to_multiset()
}

/// Reads the token `v[lo..hi]`.
pub fn parse_token(v: &Vec<char>, lo: usize, hi: usize) -> (r: Option<(usize, usize)>)
    requires
        lo <= hi <= v.len(),
    ensures
        r == token_range(v@.subrange(lo as int, hi as int)),
        r is Some ==> r->Some_0.0 <= r->Some_0.1,
{
    let (a, b) = trim_bounds(v, lo, hi);
    let ghost t = v@.subrange(a as int, b as int);
    let p = find_char(v, a, b, '-');
    if p < b {
        let q = find_char(v, p + 1, b, '-');
        proof {
            assert(t.take(p - a) =~= v@.subrange(a as int, p as int));
            assert(t.skip(p - a + 1) =~= v@.subrange(p + 1, b as int));
            assert(t.skip(p - a + 1).take(q - p - 1) =~= v@.subrange(p + 1, q as int));
        }
        let start = match parse_number(v, a, p) {
            Some(n) => n,
            None => 1,
        };
        let end = match parse_number(v, p + 1, q) {
            Some(n) => n,
            None => usize::MAX,
        };
        if start <= end {
            Some((start, end))
        } else {
            Some((end, start))
        }
    } else {
        match parse_number(v, a, b) {
            Some(n) => Some((n, n)),
            None => None,
        }
    }
}

/// Puts `range` into the sorted `ranges`, behind every range whose start is
/// not larger.
pub fn insert_by_start(ranges: &mut Vec<(usize, usize)>, range: (usize, usize))
    requires
        sorted_by_start(old(ranges)@),
        normalized(old(ranges)@),
        range.0 <= range.1,
    ensures
        sorted_by_start(final(ranges)@),
        normalized(final(ranges)@),
        final(ranges)@.to_multiset() == old(ranges)@.to_multiset().insert(range),
{
    let mut p: usize = 0;
    while p < ranges.len() && ranges[p].0 <= range.0
        invariant
            p <= ranges.len(),
            *ranges == *old(ranges),
            forall|i: int| 0 <= i < p ==> ranges@[i].0 <= range.0,
        decreases ranges.len() - p,
    {
        p += 1;
    }
    proof {
        to_multiset_insert(ranges@, p as int, range);
    }
    ranges.insert(p, range);
}

/// The ranges that `input` lists, normalized and sorted by their start.
pub fn collect_ranges(input: &str) -> (ranges: Vec<(usize, usize)>)
    ensures
        is_selection_of(ranges@, input@),
{
    let v = to_chars(input);
    let mut ranges: Vec<(usize, usize)> = Vec::new();
    let ghost mut done: Seq<(usize, usize)> = Seq::empty();
    let mut lo: usize = 0;
    proof {
        assert(v@.skip(0) =~= v@);
        assert(done + listed_ranges(v@) =~= listed_ranges(v@));
    }
    loop
        invariant_except_break
            lo <= v.len(),
            v@ == input@,
            sorted_by_start(ranges@),
            normalized(ranges@),
            ranges@.to_multiset() == done.to_multiset(),
            done + listed_ranges(v@.skip(lo as int)) == listed_ranges(v@),
        ensures
            v@ == input@,
            sorted_by_start(ranges@),
            normalized(ranges@),
            ranges@.to_multiset() == listed_ranges(v@).to_multiset(),
        decreases v.len() - lo,
    {
        let hi = find_char(&v, lo, v.len(), ',');
        let token = parse_token(&v, lo, hi);
        let ghost rest = v@.skip(lo as int);
        let ghost before = done;
        proof {
            assert(rest =~= v@.subrange(lo as int, v.len() as int));
            assert(rest.take(hi - lo) =~= v@.subrange(lo as int, hi as int));
            match token {
                Some(r) => {
                    done = done.push(r);
                    to_multiset_build(before, r);
                },
                None => {},
            }
        }
        match token {
            Some(r) => {
                insert_by_start(&mut ranges, r);
            },
            None => {},
        }
        if hi == v.len() {
            proof {
                let tokens = split(rest, ',');
                assert(tokens =~= seq![rest]);
                assert(tokens.drop_first() =~= Seq::<Seq<char>>::empty());
                assert(token_ranges(tokens.drop_first()) =~= Seq::<(usize, usize)>::empty());
                assert(done =~= before + listed_ranges(rest));
            }
            break;
        }
        proof {
            let tokens = split(rest, ',');
            let tail = split(rest.skip(hi - lo + 1), ',');
            assert(tokens == seq![rest.take(hi - lo)] + tail);
            assert(tokens.drop_first() =~= tail);
            assert(rest.skip(hi - lo + 1) =~= v@.skip(hi + 1));
            assert(done + listed_ranges(v@.skip(hi + 1)) =~= before + listed_ranges(rest));
        }
        lo = hi + 1;
    }
    ranges
}

/// Reads a chapter selection.
///
/// The selection is accepted exactly when it follows the selection grammar;
/// any other text, the empty one included, is refused with
/// `Error::InvalidRangeSyntax`. An accepted selection gives the ranges it
/// lists, each with its start not above its end, sorted by their start and
/// not merged.
pub fn parse_ranges(input: &str) -> (r: Result<Vec<(usize, usize)>, Error>)
    ensures
        r is Ok <==> valid_selection(input@),
        r is Err ==> r == Err::<Vec<(usize, usize)>, Error>(Error::InvalidRangeSyntax),
        r is Ok ==> is_selection_of(r->Ok_0@, input@),
        r is Ok ==> forall|i: int|
            0 <= i < r->Ok_0@.len() ==> (#[trigger] r->Ok_0@[i]).0 <= r->Ok_0@[i].1,
{
    match regex_is_match(RANGE_PATTERN, input) {
        Some(true) => Ok(collect_ranges(input)),
        _ => Err(Error::InvalidRangeSyntax),
    }
}

/// Every token that stands for a range has that range in the selection, and
/// the selection is in ascending order of start.
pub proof fn lemma_selection_covers_tokens(input: Seq<char>, ranges: Seq<(usize, usize)>, i: int)
    requires
        is_selection_of(ranges, input),
        0 <= i < split(input, ',').len(),
        token_range(split(input, ',')[i]) is Some,
    ensures
        sorted_by_start(ranges),
        ranges.contains(token_range(split(input, ',')[i])->Some_0),
{
    let tokens = split(input, ',');
    lemma_token_ranges_contains(tokens, i);
    let r = token_range(tokens[i])->Some_0;
    to_multiset_contains(listed_ranges(input), r);
    to_multiset_contains(ranges, r);
}

/// The range of a token is among the ranges of the list that holds the token.
pub proof fn lemma_token_ranges_contains(tokens: Seq<Seq<char>>, i: int)
    requires
        0 <= i < tokens.len(),
        token_range(tokens[i]) is Some,
    ensures
        token_ranges(tokens).contains(token_range(tokens[i])->Some_0),
    decreases tokens.len(),
{
    let r = token_range(tokens[i])->Some_0;
    let rest = token_ranges(tokens.drop_first());
    if i == 0 {
        assert((seq![r] + rest)[0] == r);
    } else {
        lemma_token_ranges_contains(tokens.drop_first(), i - 1);
        let k = choose|k: int| 0 <= k < rest.len() && rest[k] == r;
        match token_range(tokens[0]) {
            Some(first) => {
                assert((seq![first] + rest)[k + 1] == r);
            },
            None => {},
        }
    }
}

} // verus!
