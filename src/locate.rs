//! Finding scripts in a directory listing.
//!
//! The listing itself is read by the caller; an entry that could not be
//! read is simply absent, so an unreadable directory is an empty listing.
use vstd::prelude::*;

use crate::paths::{join, join_chars};
use crate::text::{chars_of, has_prefix, slice_chars, string_of};

verus! {

/// One entry of a directory listing.
pub struct DirEntry {
    /// The file name, without its directory.
    pub name: String,
    /// The entry is a regular file (after following links).
    pub is_file: bool,
    /// The entry is a directory (after following links).
    pub is_dir: bool,
}

/// How a listing shows an entry.
#[derive(PartialEq, Eq, Structural, Clone, Copy, Debug)]
pub enum EntryStyle {
    /// A directory, shown with a trailing `/`.
    Directory,
    /// A file named like a shell script.
    Script,
    Plain,
}

/// The file name has the extension `sh`, as `Path::extension` reads it: it
/// ends in `.sh` and has something before that dot.
pub open spec fn has_script_extension(name: Seq<char>) -> bool {
    name.len() > 3 && name.skip(name.len() - 3) == seq!['.', 's', 'h']
}

/// A regular file with the script extension.
pub open spec fn is_script(e: DirEntry) -> bool {
    e.is_file && has_script_extension(e.name@)
}

/// The paths of the scripts of a listing of `dir`, in listing order.
pub open spec fn script_paths(dir: Seq<char>, entries: Seq<DirEntry>) -> Seq<Seq<char>>
    decreases entries.len(),
{
    if entries.len() == 0 {
        seq![]
    } else {
        let rest = script_paths(dir, entries.drop_last());
        if is_script(entries.last()) {
            rest.push(join(dir, entries.last().name@))
        } else {
            rest
        }
    }
}

/// The listing holds a regular file called `name`.
pub open spec fn has_file(entries: Seq<DirEntry>, name: Seq<char>) -> bool {
    exists|j: int| 0 <= j < entries.len() && #[trigger] entries[j].is_file && entries[j].name@ == name
}

/// The conventional script names, in order of priority.
pub open spec fn conventional_names() -> Seq<Seq<char>> {
    seq![
        seq!['b', 'a', 's', 'e', '.', 's', 'h'],
        seq!['i', 'n', 'd', 'e', 'x', '.', 's', 'h'],
        seq!['s', 'c', 'r', 'i', 'p', 't', '.', 's', 'h'],
    ]
}

/// The script to run in `dir`: the first conventional name that is a
/// regular file there, else the first script of the listing, else none.
pub open spec fn located(dir: Seq<char>, entries: Seq<DirEntry>) -> Option<Seq<char>> {
    let names = conventional_names();
    if has_file(entries, names[0]) {
        Some(join(dir, names[0]))
    } else if has_file(entries, names[1]) {
        Some(join(dir, names[1]))
    } else if has_file(entries, names[2]) {
        Some(join(dir, names[2]))
    } else if script_paths(dir, entries).len() > 0 {
        Some(script_paths(dir, entries)[0])
    } else {
        None
    }
}

/// Whether a file name has the extension `sh`.
pub fn is_script_name(name: &str) -> (r: bool)
    ensures
        r == has_script_extension(name@),
{
    let cs = chars_of(name);
    let n = cs.len();
    if n <= 3 {
        return false;
    }
    let r = cs[n - 3] == '.' && cs[n - 2] == 's' && cs[n - 1] == 'h';
    assert(r == (cs@.skip(n - 3) =~= seq!['.', 's', 'h']));
    r
}

/// How a listing shows `entry`: directories first, then scripts by name.
pub fn entry_style(entry: &DirEntry) -> (r: EntryStyle)
    ensures
        r == (if entry.is_dir {
            EntryStyle::Directory
        } else if has_script_extension(entry.name@) {
            EntryStyle::Script
        } else {
            EntryStyle::Plain
        }),
{
    if entry.is_dir {
        EntryStyle::Directory
    } else if is_script_name(entry.name.as_str()) {
        EntryStyle::Script
    } else {
        EntryStyle::Plain
    }
}

/// The paths of the scripts in a listing of `dir`: the regular files whose
/// name has the extension `sh`, joined onto `dir`, in listing order.
pub fn list_bash_files(dir: &str, entries: &Vec<DirEntry>) -> (r: Vec<String>)
    ensures
        r@.map_values(|p: String| p@) == script_paths(dir@, entries@),
{
    let base = chars_of(dir);
    let mut r: Vec<String> = Vec::new();
    let mut i: usize = 0;
    assert(entries@.take(0) =~= Seq::<DirEntry>::empty());
    while i < entries.len()
        invariant
            i <= entries@.len(),
            base@ == dir@,
            r@.map_values(|p: String| p@) == script_paths(dir@, entries@.take(i as int)),
        decreases entries.len() - i,
    {
        let e = &entries[i];
        assert(entries@.take(i + 1).drop_last() =~= entries@.take(i as int));
        assert(entries@.take(i + 1).last() == *e);
        if e.is_file && is_script_name(e.name.as_str()) {
            let name = chars_of(e.name.as_str());
            let joined = join_chars(&base, &name);
            let ghost before = r@.map_values(|p: String| p@);
            r.push(string_of(&joined));
            assert(r@.map_values(|p: String| p@) =~= before.push(joined@));
        }
        i = i + 1;
    }
    assert(entries@.take(entries@.len() as int) =~= entries@);
    r
}

/// Whether the listing holds a regular file called `name`.
fn find_file(entries: &Vec<DirEntry>, name: &String) -> (r: bool)
    ensures
        r == has_file(entries@, name@),
{
    let mut i: usize = 0;
    while i < entries.len()
        invariant
            i <= entries@.len(),
            forall|j: int| 0 <= j < i ==> !(#[trigger] entries@[j].is_file && entries@[j].name@ == name@),
        decreases entries.len() - i,
    {
        if entries[i].is_file && entries[i].name == *name {
            return true;
        }
        i = i + 1;
    }
    false
}

/// The script to run in `dir`, given its listing: `base.sh`, `index.sh` or
/// `script.sh`, the first of them that is a regular file there; otherwise
/// the first script in listing order (not sorted); otherwise none.
pub fn auto_discover_script(dir: &str, entries: &Vec<DirEntry>) -> (r: Option<String>)
    ensures
        r matches Some(p) ==> located(dir@, entries@) == Some(p@),
        r is None ==> located(dir@, entries@) is None,
{
    let first = "base.sh".to_owned();
    let second = "index.sh".to_owned();
    let third = "script.sh".to_owned();
    proof {
        reveal_strlit("base.sh");
        reveal_strlit("index.sh");
        reveal_strlit("script.sh");
    }
    assert(first@ =~= conventional_names()[0]);
    assert(second@ =~= conventional_names()[1]);
    assert(third@ =~= conventional_names()[2]);
    let names: Vec<String> = vec![first, second, third];
    assert(names@.map_values(|p: String| p@) =~= conventional_names());
    let base = chars_of(dir);
    let mut k: usize = 0;
    while k < 3
        invariant
            k <= 3,
            names@.len() == 3,
            base@ == dir@,
            names@.map_values(|p: String| p@) == conventional_names(),
            forall|j: int| 0 <= j < k ==> !has_file(entries@, #[trigger] conventional_names()[j]),
        decreases 3 - k,
    {
        assert(names@[k as int]@ == conventional_names()[k as int]);
        if find_file(entries, &names[k]) {
            let name = chars_of(names[k].as_str());
            let joined = join_chars(&base, &name);
            return Some(string_of(&joined));
        }
        k = k + 1;
    }
    let scripts = list_bash_files(dir, entries);
    if scripts.len() > 0 {
        assert(scripts@.map_values(|p: String| p@)[0] == scripts@[0]@);
        Some(scripts[0].clone())
    } else {
        None
    }
}

/// `part` occurs somewhere in `s`.
pub open spec fn contains_part(s: Seq<char>, part: Seq<char>) -> bool {
    exists|i: int| 0 <= i <= s.len() - part.len() && #[trigger] s.subrange(i, i + part.len()) == part
}

/// A directory that a file-system scan enters: not hidden, and not named
/// like a dependency or build directory.
pub open spec fn scanned_dir_name(name: Seq<char>) -> bool {
    &&& !(name.len() > 0 && name[0] == '.')
    &&& !contains_part(name, "node_modules"@)
    &&& !contains_part(name, "target"@)
    &&& !contains_part(name, "vendor"@)
}

/// Whether `part` occurs in `s`.
fn has_part(s: &[char], part: &str) -> (r: bool)
    ensures
        r == contains_part(s@, part@),
{
    let p = chars_of(part);
    if p.len() > s.len() {
        return false;
    }
    let last = s.len() - p.len();
    let mut i: usize = 0;
    loop
        invariant
            p@ == part@,
            p@.len() <= s@.len(),
            s@.len() == s.len(),
            last == s@.len() - p@.len(),
            i <= last,
            forall|j: int| 0 <= j < i ==> #[trigger] s@.subrange(j, j + p@.len()) != p@,
        decreases last - i,
    {
        let window = slice_chars(s, i, i + p.len());
        if window.len() == p.len() && has_prefix(&window, &p) {
            assert(window@.take(p@.len() as int) =~= window@);
            return true;
        }
        assert(window@.take(p@.len() as int) =~= window@);
        if i == last {
            return false;
        }
        i = i + 1;
    }
}

/// Whether a file-system scan enters a directory called `name`.
pub fn is_scanned_dir_name(name: &str) -> (r: bool)
    ensures
        r == scanned_dir_name(name@),
{
    let cs = chars_of(name);
    if cs.len() > 0 && cs[0] == '.' {
        return false;
    }
    !has_part(&cs, "node_modules") && !has_part(&cs, "target") && !has_part(&cs, "vendor")
}

} // verus!
