//! Path-name helpers over plain strings: the file name, the parent
//! directory, and the stem that names a recipient or locale.

use vstd::prelude::*;
use crate::text::push_char;

verus! {

/// The position of the last occurrence of `c` in `s`.
pub open spec fn spec_rfind_char(s: Seq<char>, c: char) -> Option<int>
    decreases s.len(),
{
    if s.len() == 0 {
        None
    } else if s.last() == c {
        Some(s.len() - 1)
    } else {
        spec_rfind_char(s.drop_last(), c)
    }
}

fn rfind_char(s: &str, c: char) -> (r: Option<usize>)
    ensures
        match r {
            Some(i) => spec_rfind_char(s@, c) == Some(i as int) && i < s@.len(),
            None => spec_rfind_char(s@, c) is None,
        },
{
    let n = s.unicode_len();
    proof {
        assert(s@.take(n as int) =~= s@);
    }
    let mut i: usize = n;
    while i > 0
        invariant
            n == s@.len(),
            i <= n,
            spec_rfind_char(s@, c) == spec_rfind_char(s@.take(i as int), c),
        decreases i,
    {
        proof {
            assert(s@.take(i as int).drop_last() =~= s@.take(i - 1));
            assert(s@.take(i as int).last() == s@[i - 1]);
        }
        if s.get_char(i - 1) == c {
            return Some(i - 1);
        }
        i -= 1;
    }
    proof {
        assert(s@.take(0) =~= Seq::<char>::empty());
    }
    None
}

/// The part of a path after its last slash, or the whole path.
pub open spec fn spec_file_name(s: Seq<char>) -> Seq<char> {
    match spec_rfind_char(s, '/') {
        Some(i) => {
            if 0 <= i < s.len() {
                s.subrange(i + 1, s.len() as int)
            } else {
                s
            }
        },
        None => s,
    }
}

/// The part of a path before its last slash, or empty.
pub open spec fn spec_parent(s: Seq<char>) -> Seq<char> {
    match spec_rfind_char(s, '/') {
        Some(i) => {
            if 0 <= i < s.len() {
                s.subrange(0, i)
            } else {
                s
            }
        },
        None => Seq::empty(),
    }
}

/// The file name with a trailing extension removed; a dot in first
/// position does not start an extension.
pub open spec fn spec_name_from_file(s: Seq<char>) -> Seq<char> {
    let f = spec_file_name(s);
    match spec_rfind_char(f, '.') {
        Some(i) => {
            if 0 < i < f.len() {
                f.subrange(0, i)
            } else {
                f
            }
        },
        None => f,
    }
}

pub fn file_name(path: &str) -> (r: String)
    ensures
        r@ == spec_file_name(path@),
{
    let n = path.unicode_len();
    match rfind_char(path, '/') {
        Some(i) => path.substring_char(i + 1, n).to_owned(),
        None => path.to_owned(),
    }
}

pub fn parent(path: &str) -> (r: String)
    ensures
        r@ == spec_parent(path@),
{
    match rfind_char(path, '/') {
        Some(i) => path.substring_char(0, i).to_owned(),
        None => String::new(),
    }
}

/// The base name of a file without its directory and extension; it
/// names a recipient or a locale.
pub fn name_from_file(path: &str) -> (r: String)
    ensures
        r@ == spec_name_from_file(path@),
{
    let f = file_name(path);
    let flen = f.as_str().unicode_len();
    match rfind_char(f.as_str(), '.') {
        Some(i) => {
            if i > 0 {
                f.as_str().substring_char(0, i).to_owned()
            } else {
                f
            }
        },
        None => f,
    }
}

/// Two path pieces joined with a slash.
pub open spec fn spec_path_join(a: Seq<char>, b: Seq<char>) -> Seq<char> {
    a + seq!['/'] + b
}

pub fn path_join(a: &str, b: &str) -> (r: String)
    ensures
        r@ == spec_path_join(a@, b@),
{
    let mut s = a.to_owned();
    push_char(&mut s, '/');
    s.append(b);
    proof {
        assert(s@ =~= spec_path_join(a@, b@));
    }
    s
}

} // verus!
