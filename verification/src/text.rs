//! Text primitives shared by the rest of the library: whitespace trimming,
//! splitting on a delimiter, and decimal numbers as text.
//!
//! Every string is modelled by its sequence of characters.

use vstd::prelude::*;
use vstd::string::*;

verus! {

/// Whether `c` has the Unicode `White_Space` property: the controls from tab
/// to carriage return, the space, next line, the no-break space, the ogham
/// space mark, the spaces from en quad to hair space, the line and the
/// paragraph separator, the narrow no-break space, the medium mathematical
/// space and the ideographic space.
pub open spec fn white_space(c: char) -> bool {
    let n = c as u32;
    ||| 0x09 <= n <= 0x0D
    ||| n == 0x20
    ||| n == 0x85
    ||| n == 0xA0
    ||| n == 0x1680
    ||| 0x2000 <= n <= 0x200A
    ||| n == 0x2028
    ||| n == 0x2029
    ||| n == 0x202F
    ||| n == 0x205F
    ||| n == 0x3000
}

/// Calls `char::is_whitespace`, which says whether a character has the
/// `White_Space` property of the Unicode Character Database.
#[verifier::external_body]
pub(crate) fn is_white_space(c: char) -> (r: bool)
    ensures
        r == white_space(c),
{
    c.is_whitespace()
}

/// `s` without its leading whitespace.
pub open spec fn trim_start(s: Seq<char>) -> Seq<char>
    decreases s.len(),
{
    if s.len() > 0 && white_space(s[0]) {
        trim_start(s.drop_first())
    } else {
        s
    }
}

/// `s` without its trailing whitespace.
pub open spec fn trim_end(s: Seq<char>) -> Seq<char>
    decreases s.len(),
{
    if s.len() > 0 && white_space(s.last()) {
        trim_end(s.drop_last())
    } else {
        s
    }
}

/// `s` without its leading and trailing whitespace.
pub open spec fn trim(s: Seq<char>) -> Seq<char> {
    trim_end(trim_start(s))
}

/// Skipping a run of whitespace at the front leaves what `trim_start` leaves.
pub proof fn lemma_trim_start_at(s: Seq<char>, a: int)
    requires
        0 <= a <= s.len(),
        forall|i: int| 0 <= i < a ==> white_space(s[i]),
        a == s.len() || !white_space(s[a]),
    ensures
        trim_start(s) == s.subrange(a, s.len() as int),
    decreases a,
{
    if a == 0 {
        assert(s.subrange(0, s.len() as int) =~= s);
    } else {
        let t = s.drop_first();
        assert forall|i: int| 0 <= i < a - 1 implies white_space(t[i]) by {
            assert(t[i] == s[i + 1]);
        }
        lemma_trim_start_at(t, a - 1);
        assert(t.subrange(a - 1, t.len() as int) =~= s.subrange(a, s.len() as int));
    }
}

/// Dropping a run of whitespace at the back leaves what `trim_end` leaves.
pub proof fn lemma_trim_end_at(s: Seq<char>, b: int)
    requires
        0 <= b <= s.len(),
        forall|i: int| b <= i < s.len() ==> white_space(s[i]),
        b == 0 || !white_space(s[b - 1]),
    ensures
        trim_end(s) == s.subrange(0, b),
    decreases s.len() - b,
{
    if b == s.len() {
        assert(s.subrange(0, b) =~= s);
    } else {
        let t = s.drop_last();
        lemma_trim_end_at(t, b);
        assert(t.subrange(0, b) =~= s.subrange(0, b));
    }
}

/// The texts of a list of strings.
pub open spec fn string_texts(strings: Seq<String>) -> Seq<Seq<char>> {
    strings.map_values(|s: String| s@)
}

/// The characters of a string, in order.
pub fn to_chars(s: &str) -> (v: Vec<char>)
    ensures
        v@ == s@,
{
    let mut v: Vec<char> = Vec::new();
    for c in it: s.chars()
        invariant
            v@ == s@.take(it.index() as int),
            it.seq() == s@,
    {
        v.push(c);
    }
    v
}

/// The bounds `(a, b)` of what trimming keeps of `v[lo..hi]`: the kept part
/// is `v[a..b]`.
pub fn trim_bounds(v: &Vec<char>, lo: usize, hi: usize) -> (r: (usize, usize))
    requires
        lo <= hi <= v.len(),
    ensures
        lo <= r.0 <= r.1 <= hi,
        v@.subrange(r.0 as int, r.1 as int) == trim(v@.subrange(lo as int, hi as int)),
{
    let mut a: usize = lo;
    while a < hi && is_white_space(v[a])
        invariant
            lo <= a <= hi <= v.len(),
            forall|i: int| lo <= i < a ==> white_space(v@[i]),
        decreases hi - a,
    {
        a += 1;
    }
    let mut b: usize = hi;
    while b > a && is_white_space(v[b - 1])
        invariant
            lo <= a <= b <= hi <= v.len(),
            forall|i: int| b <= i < hi ==> white_space(v@[i]),
        decreases b - a,
    {
        b -= 1;
    }
    proof {
        let s = v@.subrange(lo as int, hi as int);
        lemma_trim_start_at(s, a - lo);
        let t = s.subrange(a - lo, s.len() as int);
        assert(t =~= v@.subrange(a as int, hi as int));
        lemma_trim_end_at(t, b - a);
        assert(t.subrange(0, b - a) =~= v@.subrange(a as int, b as int));
    }
    (a, b)
}

/// A string slice without its leading and trailing whitespace.
pub fn trimmed<'a>(s: &'a str) -> (r: &'a str)
    ensures
        r@ == trim(s@),
{
    let v = to_chars(s);
    let (a, b) = trim_bounds(&v, 0, v.len());
    proof {
        assert(v@.subrange(0, v.len() as int) =~= v@);
    }
    s.substring_char(a, b)
}


/// The position of the first `d` in `s`, or the length of `s` where it holds
/// none.
pub open spec fn index_of(s: Seq<char>, d: char) -> int
    decreases s.len(),
{
    if s.len() == 0 || s[0] == d {
        0
    } else {
        1 + index_of(s.drop_first(), d)
    }
}

/// `index_of` is the least position that holds `d`.
pub proof fn lemma_index_of(s: Seq<char>, d: char)
    ensures
        0 <= index_of(s, d) <= s.len(),
        forall|i: int| 0 <= i < index_of(s, d) ==> s[i] != d,
        index_of(s, d) < s.len() ==> s[index_of(s, d)] == d,
    decreases s.len(),
{
    if s.len() == 0 || s[0] == d {
    } else {
        let t = s.drop_first();
        lemma_index_of(t, d);
        assert forall|i: int| 0 <= i < index_of(s, d) implies s[i] != d by {
            if i > 0 {
                assert(s[i] == t[i - 1]);
            }
        }
    }
}

/// A position before which no `d` stands, and which holds `d` or ends the
/// text, is `index_of`.
pub proof fn lemma_index_of_at(s: Seq<char>, d: char, k: int)
    requires
        0 <= k <= s.len(),
        forall|i: int| 0 <= i < k ==> s[i] != d,
        k == s.len() || s[k] == d,
    ensures
        index_of(s, d) == k,
{
    lemma_index_of(s, d);
}

/// The pieces of `s` between the occurrences of `d`. There is always at
/// least one piece, and `n` delimiters give `n + 1` pieces.
pub open spec fn split(s: Seq<char>, d: char) -> Seq<Seq<char>>
    decreases s.len(),
{
    let k = index_of(s, d);
    if 0 <= k < s.len() {
        seq![s.take(k)] + split(s.skip(k + 1), d)
    } else {
        seq![s]
    }
}

/// The first position in `v[lo..hi]` that holds `d`; `hi` where none does.
pub fn find_char(v: &Vec<char>, lo: usize, hi: usize, d: char) -> (k: usize)
    requires
        lo <= hi <= v.len(),
    ensures
        lo <= k <= hi,
        k - lo == index_of(v@.subrange(lo as int, hi as int), d),
{
    let mut k: usize = lo;
    while k < hi && v[k] != d
        invariant
            lo <= k <= hi <= v.len(),
            forall|i: int| lo <= i < k ==> v@[i] != d,
        decreases hi - k,
    {
        k += 1;
    }
    proof {
        lemma_index_of_at(v@.subrange(lo as int, hi as int), d, k - lo);
    }
    k
}

/// Whether `c` is one of the ten ASCII digits.
pub open spec fn is_digit(c: char) -> bool {
    '0' <= c <= '9'
}

/// The value of an ASCII digit.
pub open spec fn digit_value(c: char) -> nat
    recommends
        is_digit(c),
{
    (c as u32 - '0' as u32) as nat
}

/// The number that a run of ASCII digits writes in base ten.
pub open spec fn digits_value(s: Seq<char>) -> nat
    decreases s.len(),
{
    if s.len() == 0 {
        0
    } else {
        digits_value(s.drop_last()) * 10 + digit_value(s.last())
    }
}

/// Whether `s` is a non-empty run of ASCII digits.
pub open spec fn is_digits(s: Seq<char>) -> bool {
    s.len() > 0 && forall|i: int| 0 <= i < s.len() ==> is_digit(#[trigger] s[i])
}

/// The text of an unsigned number without its optional leading `+`.
pub open spec fn unsigned_digits(s: Seq<char>) -> Seq<char> {
    if s.len() > 0 && s[0] == '+' {
        s.drop_first()
    } else {
        s
    }
}

/// What reading `s` as a `usize` gives: an optional `+`, then one or more
/// ASCII digits, and nothing else; `None` for any other text and for a
/// number that does not fit.
pub open spec fn parsed(s: Seq<char>) -> Option<usize> {
    let digits = unsigned_digits(s);
    if is_digits(digits) && digits_value(digits) <= usize::MAX {
        Some(digits_value(digits) as usize)
    } else {
        None
    }
}

/// A longer run of digits writes a number that is no smaller.
pub proof fn lemma_digits_value_grows(s: Seq<char>, k: int)
    requires
        0 <= k <= s.len(),
    ensures
        digits_value(s.take(k)) <= digits_value(s),
    decreases s.len() - k,
{
    if k == s.len() {
        assert(s.take(k) =~= s);
    } else {
        lemma_digits_value_grows(s.drop_last(), k);
        assert(s.drop_last().take(k) =~= s.take(k));
    }
}

/// Reads `v[lo..hi]` as a run of digits that writes a number up to `limit`.
pub fn parse_digits(v: &Vec<char>, lo: usize, hi: usize, limit: u64) -> (r: Option<u64>)
    requires
        lo <= hi <= v.len(),
    ensures
        r == (if is_digits(v@.subrange(lo as int, hi as int)) && digits_value(
            v@.subrange(lo as int, hi as int),
        ) <= limit {
            Some(digits_value(v@.subrange(lo as int, hi as int)) as u64)
        } else {
            None
        }),
{
    let ghost digits = v@.subrange(lo as int, hi as int);
    if lo == hi {
        return None;
    }
    let mut acc: u64 = 0;
    let mut i: usize = lo;
    while i < hi
        invariant
            lo <= i <= hi <= v.len(),
            digits == v@.subrange(lo as int, hi as int),
            forall|j: int| 0 <= j < i - lo ==> is_digit(#[trigger] digits[j]),
            acc == digits_value(digits.take(i - lo)),
            acc <= limit,
        decreases hi - i,
    {
        let c = v[i];
        assert(c == digits[i - lo]);
        if !('0' <= c && c <= '9') {
            assert(!is_digit(digits[i - lo]));
            return None;
        }
        let d: u64 = (c as u32 - '0' as u32) as u64;
        proof {
            let upto = digits.take(i - lo + 1);
            assert(upto.drop_last() =~= digits.take(i - lo));
            assert(upto.last() == c);
            assert(digits_value(upto) == acc * 10 + d);
            lemma_digits_value_grows(digits, i - lo + 1);
        }
        let next = match acc.checked_mul(10) {
            Some(m) => m.checked_add(d),
            None => None,
        };
        match next {
            Some(n) => {
                if n > limit {
                    return None;
                }
                acc = n;
            },
            None => {
                return None;
            },
        }
        i += 1;
    }
    proof {
        assert(digits.take(hi - lo) =~= digits);
    }
    Some(acc)
}

/// Reads `v[lo..hi]` as a `usize`.
pub fn parse_number(v: &Vec<char>, lo: usize, hi: usize) -> (r: Option<usize>)
    requires
        lo <= hi <= v.len(),
    ensures
        r == parsed(v@.subrange(lo as int, hi as int)),
{
    let from: usize = if lo < hi && v[lo] == '+' {
        lo + 1
    } else {
        lo
    };
    assert(unsigned_digits(v@.subrange(lo as int, hi as int)) =~= v@.subrange(from as int, hi as int));
    match parse_digits(v, from, hi, usize::MAX as u64) {
        Some(n) => Some(n as usize),
        None => None,
    }
}

/// What reading `s` as an `i64` gives: an optional `+` or `-`, then one or
/// more ASCII digits, and nothing else; `None` for any other text and for a
/// number that does not fit.
pub open spec fn parsed_integer(s: Seq<char>) -> Option<i64> {
    if s.len() > 0 && s[0] == '-' {
        let digits = s.drop_first();
        if is_digits(digits) && digits_value(digits) <= 0x8000_0000_0000_0000 {
            Some((-digits_value(digits)) as i64)
        } else {
            None
        }
    } else {
        let digits = unsigned_digits(s);
        if is_digits(digits) && digits_value(digits) <= i64::MAX {
            Some(digits_value(digits) as i64)
        } else {
            None
        }
    }
}

/// Reads a string as an `i64`.
pub fn parse_integer(s: &str) -> (r: Option<i64>)
    ensures
        r == parsed_integer(s@),
{
    let v = to_chars(s);
    assert(v@.subrange(0, v.len() as int) =~= v@);
    if v.len() > 0 && v[0] == '-' {
        assert(v@.drop_first() =~= v@.subrange(1, v.len() as int));
        match parse_digits(&v, 1, v.len(), 0x8000_0000_0000_0000) {
            Some(n) => if n == 0x8000_0000_0000_0000 {
                Some(i64::MIN)
            } else {
                Some(-(n as i64))
            },
            None => None,
        }
    } else {
        let from: usize = if v.len() > 0 && v[0] == '+' {
            1
        } else {
            0
        };
        assert(unsigned_digits(v@) =~= v@.subrange(from as int, v.len() as int));
        match parse_digits(&v, from, v.len(), i64::MAX as u64) {
            Some(n) => Some(n as i64),
            None => None,
        }
    }
}

/// The character that writes the digit `d`.
pub open spec fn digit_char(d: nat) -> char
    recommends
        d < 10,
{
    if d == 0 {
        '0'
    } else if d == 1 {
        '1'
    } else if d == 2 {
        '2'
    } else if d == 3 {
        '3'
    } else if d == 4 {
        '4'
    } else if d == 5 {
        '5'
    } else if d == 6 {
        '6'
    } else if d == 7 {
        '7'
    } else if d == 8 {
        '8'
    } else {
        '9'
    }
}

/// `n` written in base ten, without sign or leading zeros.
pub open spec fn decimal(n: nat) -> Seq<char>
    decreases n,
{
    if n < 10 {
        seq![digit_char(n)]
    } else {
        decimal(n / 10).push(digit_char(n % 10))
    }
}

/// The one-character text of a digit.
fn digit_text(d: usize) -> (r: &'static str)
    requires
        d < 10,
    ensures
        r@ == seq![digit_char(d as nat)],
{
    proof {
        reveal_strlit("0");
        reveal_strlit("1");
        reveal_strlit("2");
        reveal_strlit("3");
        reveal_strlit("4");
        reveal_strlit("5");
        reveal_strlit("6");
        reveal_strlit("7");
        reveal_strlit("8");
        reveal_strlit("9");
    }
    let r = match d {
        0 => "0",
        1 => "1",
        2 => "2",
        3 => "3",
        4 => "4",
        5 => "5",
        6 => "6",
        7 => "7",
        8 => "8",
        _ => "9",
    };
    assert(r@ =~= seq![digit_char(d as nat)]);
    r
}

/// `n` as decimal text.
pub fn decimal_string(n: usize) -> (r: String)
    ensures
        r@ == decimal(n as nat),
    decreases n,
{
    if n < 10 {
        String::from_str(digit_text(n))
    } else {
        let mut s = decimal_string(n / 10);
        s.append(digit_text(n % 10));
        assert(s@ =~= decimal(n as nat));
        s
    }
}

/// Decimal text is a run of digits that writes the number it came from.
pub proof fn lemma_decimal_digits(n: nat)
    ensures
        is_digits(decimal(n)),
        digits_value(decimal(n)) == n,
    decreases n,
{
    if n < 10 {
        let s = decimal(n);
        assert(s.drop_last() =~= Seq::<char>::empty());
        assert(digits_value(s.drop_last()) == 0);
    } else {
        lemma_decimal_digits(n / 10);
        let s = decimal(n);
        assert(s.drop_last() =~= decimal(n / 10));
        assert(s.last() == digit_char(n % 10));
    }
}

/// Reading back the decimal text of a `usize` gives the number.
pub proof fn lemma_parse_decimal(n: usize)
    ensures
        parsed(decimal(n as nat)) == Some(n),
{
    lemma_decimal_digits(n as nat);
    let s = decimal(n as nat);
    assert(is_digit(s[0]));
}


/// Whether two strings hold the same characters.
pub fn same_text(a: &str, b: &str) -> (r: bool)
    ensures
        r == (a@ == b@),
{
    let x = to_chars(a);
    let y = to_chars(b);
    if x.len() != y.len() {
        return false;
    }
    let mut i: usize = 0;
    while i < x.len()
        invariant
            i <= x.len(),
            x.len() == y.len(),
            x@ == a@,
            y@ == b@,
            forall|j: int| 0 <= j < i ==> x@[j] == y@[j],
        decreases x.len() - i,
    {
        if x[i] != y[i] {
            return false;
        }
        i += 1;
    }
    assert(x@ =~= y@);
    true
}

} // verus!
