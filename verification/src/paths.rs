//! File locations as text: components separated by `/`.

use crate::error::Error;
use crate::text::to_chars;
use vstd::prelude::*;
use vstd::string::*;

verus! {

/// Where the last piece of `s` starts, the pieces being separated by `d`:
/// right behind the last `d`, or at 0 where `s` holds none.
pub open spec fn last_piece_start(s: Seq<char>, d: char) -> nat
    decreases s.len(),
{
    if s.len() == 0 {
        0
    } else if s.last() == d {
        s.len()
    } else {
        last_piece_start(s.drop_last(), d)
    }
}

/// A position with no `d` from there on, which is the start of the text or
/// lies right behind a `d`, is where the last piece starts.
pub proof fn lemma_last_piece_start_at(s: Seq<char>, d: char, k: int)
    requires
        0 <= k <= s.len(),
        k > 0 ==> s[k - 1] == d,
        forall|i: int| k <= i < s.len() ==> s[i] != d,
    ensures
        last_piece_start(s, d) == k,
    decreases s.len() - k,
{
    if k < s.len() {
        lemma_last_piece_start_at(s.drop_last(), d, k);
    }
}

/// The name of the file that a location points to: its last component,
/// where components that are empty or `.` do not count. A location whose
/// last component is `..`, or that has no component, names no file.
pub open spec fn file_name(path: Seq<char>) -> Option<Seq<char>>
    decreases path.len(),
{
    let k = last_piece_start(path, '/');
    let c = path.skip(k as int);
    if c.len() == 0 || c == seq!['.'] {
        if 0 < k <= path.len() {
            file_name(path.take(k - 1))
        } else {
            None
        }
    } else if c == seq!['.', '.'] {
        None
    } else {
        Some(c)
    }
}

/// A file name without its extension: the part before the last `.`, or the
/// whole name where it holds no `.` or only the one it begins with.
pub open spec fn stem_of(name: Seq<char>) -> Seq<char> {
    let k = last_piece_start(name, '.');
    if 1 < k <= name.len() {
        name.take(k - 1)
    } else {
        name
    }
}

/// The stem of the file that a location points to.
pub open spec fn file_stem(path: Seq<char>) -> Option<Seq<char>> {
    match file_name(path) {
        Some(name) => Some(stem_of(name)),
        None => None,
    }
}

/// Where the last piece of `v[..hi]` starts.
pub fn find_last_piece(v: &Vec<char>, hi: usize, d: char) -> (k: usize)
    requires
        hi <= v.len(),
    ensures
        k <= hi,
        k == last_piece_start(v@.take(hi as int), d),
{
    let mut k: usize = hi;
    while k > 0 && v[k - 1] != d
        invariant
            k <= hi <= v.len(),
            last_piece_start(v@.take(hi as int), d) == last_piece_start(v@.take(k as int), d),
        decreases k,
    {
        proof {
            assert(v@.take(k as int).drop_last() =~= v@.take(k - 1));
        }
        k -= 1;
    }
    k
}

/// The bounds of the file name within a location.
pub fn file_name_bounds(v: &Vec<char>) -> (r: Option<(usize, usize)>)
    ensures
        match r {
            Some((a, b)) => a <= b <= v.len() && file_name(v@) == Some(v@.subrange(a as int, b as int)),
            None => file_name(v@) is None,
        },
{
    let mut hi: usize = v.len();
    assert(v@.take(hi as int) =~= v@);
    loop
        invariant
            hi <= v.len(),
            file_name(v@) == file_name(v@.take(hi as int)),
        decreases hi,
    {
        let k = find_last_piece(v, hi, '/');
        let ghost p = v@.take(hi as int);
        let ghost c = p.skip(k as int);
        proof {
            assert(c =~= v@.subrange(k as int, hi as int));
            if k > 0 {
                assert(p.take(k - 1) =~= v@.take(k - 1));
            }
        }
        let skip = hi - k == 0 || (hi - k == 1 && v[k] == '.');
        proof {
            if hi - k == 1 && v[k as int] == '.' {
                assert(c =~= seq!['.']);
            }
            if c == seq!['.'] {
                assert(c.len() == 1 && c[0] == '.');
            }
        }
        if skip {
            if k == 0 {
                return None;
            }
            hi = k - 1;
        } else {
            let parent = hi - k == 2 && v[k] == '.' && v[k + 1] == '.';
            proof {
                if parent {
                    assert(c =~= seq!['.', '.']);
                }
                if c == seq!['.', '.'] {
                    assert(c.len() == 2 && c[0] == '.' && c[1] == '.');
                }
            }
            if parent {
                return None;
            }
            return Some((k, hi));
        }
    }
}

/// The name of the file that `path` points to.
pub fn file_name_of(path: &str) -> (r: Result<String, Error>)
    ensures
        match file_name(path@) {
            Some(name) => r is Ok && r->Ok_0@ == name,
            None => r == Err::<String, Error>(Error::InvalidPath),
        },
{
    let v = to_chars(path);
    match file_name_bounds(&v) {
        Some((a, b)) => Ok(String::from_str(path.substring_char(a, b))),
        None => Err(Error::InvalidPath),
    }
}

/// The stem of the file that `path` points to: the name by which the files
/// derived from it are called.
pub fn extract_file_name(path: &str) -> (r: Result<String, Error>)
    ensures
        match file_stem(path@) {
            Some(stem) => r is Ok && r->Ok_0@ == stem,
            None => r == Err::<String, Error>(Error::InvalidPath),
        },
{
    let v = to_chars(path);
    match file_name_bounds(&v) {
        Some((a, b)) => {
            let ghost name = v@.subrange(a as int, b as int);
            let mut k: usize = b;
            assert(name.take(b - a) =~= name);
            while k > a && v[k - 1] != '.'
                invariant
                    a <= k <= b <= v.len(),
                    name == v@.subrange(a as int, b as int),
                    last_piece_start(name, '.') == last_piece_start(name.take(k - a), '.'),
                decreases k,
            {
                proof {
                    assert(name.take(k - a).drop_last() =~= name.take(k - a - 1));
                    assert(name.take(k - a).last() == v@[k - 1]);
                }
                k -= 1;
            }
            proof {
                assert(name.take(b - a) =~= name);
                if k > a {
                    assert(name.take(k - a).last() == v@[k - 1]);
                }
            }
            let end = if k - a > 1 {
                k - 1
            } else {
                b
            };
            proof {
                if k - a > 1 {
                    assert(name.take(k - a - 1) =~= v@.subrange(a as int, end as int));
                }
            }
            Ok(String::from_str(path.substring_char(a, end)))
        },
        None => Err(Error::InvalidPath),
    }
}

} // verus!
