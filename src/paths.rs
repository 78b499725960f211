//! Paths as `/`-separated character sequences, joined the way `Path::join`
//! joins them on a POSIX host.
use vstd::prelude::*;

use crate::text::{chars_of, slice_chars, string_of};

verus! {

/// A path that starts at the root.
pub open spec fn is_absolute(p: Seq<char>) -> bool {
    p.len() > 0 && p[0] == '/'
}

/// `path` taken relative to `base`: an absolute `path` stands alone; otherwise
/// it follows `base`, with one separator between the two unless `base` is
/// empty or already ends in one.
pub open spec fn join(base: Seq<char>, path: Seq<char>) -> Seq<char> {
    if is_absolute(path) || base.len() == 0 {
        path
    } else if base.last() == '/' {
        base + path
    } else {
        base + seq!['/'] + path
    }
}

/// [`join`] on character vectors.
pub fn join_chars(base: &[char], path: &[char]) -> (r: Vec<char>)
    ensures
        r@ == join(base@, path@),
{
    let mut tail = slice_chars(path, 0, path.len());
    assert(tail@ =~= path@);
    if (path.len() > 0 && path[0] == '/') || base.len() == 0 {
        return tail;
    }
    let mut r = slice_chars(base, 0, base.len());
    assert(r@ =~= base@);
    if base[base.len() - 1] != '/' {
        r.push('/');
    }
    r.append(&mut tail);
    r
}

/// `path` resolved against the directory `current_dir`: an absolute path is
/// kept as it is, a relative one is joined onto `current_dir`.
pub fn resolve_path(current_dir: &str, path: &str) -> (r: String)
    ensures
        r@ == join(current_dir@, path@),
        is_absolute(path@) ==> r@ == path@,
{
    let base = chars_of(current_dir);
    let p = chars_of(path);
    let joined = join_chars(&base, &p);
    string_of(&joined)
}

} // verus!
