//! Small helpers around the program's surroundings: the name of an
//! executable on the platform at hand, and what an operator typed.

use crate::text::{to_chars, trim, trim_bounds};
use vstd::prelude::*;
use vstd::string::*;

verus! {

/// The file name of the executable called `base_name`: with the extension
/// `.exe` on Windows, as it is elsewhere.
pub fn get_executable_name(base_name: &str, windows: bool) -> (name: String)
    ensures
        name@ == (if windows {
            base_name@ + ".exe"@
        } else {
            base_name@
        }),
{
    let mut name = String::from_str(base_name);
    if windows {
        name.append(".exe");
    }
    name
}

/// `s` without the characters `c` at its front.
pub open spec fn strip_start(s: Seq<char>, c: char) -> Seq<char>
    decreases s.len(),
{
    if s.len() > 0 && s[0] == c {
        strip_start(s.drop_first(), c)
    } else {
        s
    }
}

/// `s` without the characters `c` at its back.
pub open spec fn strip_end(s: Seq<char>, c: char) -> Seq<char>
    decreases s.len(),
{
    if s.len() > 0 && s.last() == c {
        strip_end(s.drop_last(), c)
    } else {
        s
    }
}

/// What an operator meant by a line of input: the line without the
/// whitespace around it, and then without the double quotes around that.
pub open spec fn cleaned(line: Seq<char>) -> Seq<char> {
    strip_end(strip_start(trim(line), '"'), '"')
}

/// Skipping a run of `c` at the front leaves what `strip_start` leaves.
proof fn lemma_strip_start_at(s: Seq<char>, c: char, a: int)
    requires
        0 <= a <= s.len(),
        forall|i: int| 0 <= i < a ==> s[i] == c,
        a == s.len() || s[a] != c,
    ensures
        strip_start(s, c) == s.subrange(a, s.len() as int),
    decreases a,
{
    if a == 0 {
        assert(s.subrange(0, s.len() as int) =~= s);
    } else {
        let t = s.drop_first();
        assert forall|i: int| 0 <= i < a - 1 implies t[i] == c by {
            assert(t[i] == s[i + 1]);
        }
        lemma_strip_start_at(t, c, a - 1);
        assert(t.subrange(a - 1, t.len() as int) =~= s.subrange(a, s.len() as int));
    }
}

/// Dropping a run of `c` at the back leaves what `strip_end` leaves.
proof fn lemma_strip_end_at(s: Seq<char>, c: char, b: int)
    requires
        0 <= b <= s.len(),
        forall|i: int| b <= i < s.len() ==> s[i] == c,
        b == 0 || s[b - 1] != c,
    ensures
        strip_end(s, c) == s.subrange(0, b),
    decreases s.len() - b,
{
    if b == s.len() {
        assert(s.subrange(0, b) =~= s);
    } else {
        let t = s.drop_last();
        lemma_strip_end_at(t, c, b);
        assert(t.subrange(0, b) =~= s.subrange(0, b));
    }
}

/// Cleans a line that an operator typed.
pub fn clean_input(line: &str) -> (r: String)
    ensures
        r@ == cleaned(line@),
{
    let v = to_chars(line);
    let (lo, hi) = trim_bounds(&v, 0, v.len());
    assert(v@.subrange(0, v.len() as int) =~= v@);
    let mut a: usize = lo;
    while a < hi && v[a] == '"'
        invariant
            lo <= a <= hi <= v.len(),
            forall|i: int| lo <= i < a ==> v@[i] == '"',
        decreases hi - a,
    {
        a += 1;
    }
    let mut b: usize = hi;
    while b > a && v[b - 1] == '"'
        invariant
            lo <= a <= b <= hi <= v.len(),
            forall|i: int| b <= i < hi ==> v@[i] == '"',
        decreases b - a,
    {
        b -= 1;
    }
    proof {
        let s = v@.subrange(lo as int, hi as int);
        lemma_strip_start_at(s, '"', a - lo);
        let t = s.subrange(a - lo, s.len() as int);
        assert(t =~= v@.subrange(a as int, hi as int));
        lemma_strip_end_at(t, '"', b - a);
        assert(t.subrange(0, b - a) =~= v@.subrange(a as int, b as int));
    }
    String::from_str(line.substring_char(a, b))
}

} // verus!
