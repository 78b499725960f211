//! The commands of the interactive prompt.
use vstd::prelude::*;

use crate::paths::{join, join_chars};
use crate::text::{chars_of, has_prefix, slice_chars, starts_with, string_of, trim, trim_chars};

verus! {

/// The decimal value of a sequence of ASCII digits.
pub open spec fn digits_value(s: Seq<char>) -> nat
    decreases s.len(),
{
    if s.len() == 0 {
        0
    } else {
        digits_value(s.drop_last()) * 10 + ((s.last() as u32) - ('0' as u32)) as nat
    }
}

pub open spec fn is_digit(c: char) -> bool {
    '0' <= c && c <= '9'
}

/// `s` without one leading `+`.
pub open spec fn unsigned_part(s: Seq<char>) -> Seq<char> {
    if s.len() > 0 && s[0] == '+' {
        s.skip(1)
    } else {
        s
    }
}

pub open spec fn all_digits(d: Seq<char>) -> bool {
    forall|i: int| 0 <= i < d.len() ==> is_digit(#[trigger] d[i])
}

/// What `str::parse::<usize>` accepts: an optional `+`, then one or more
/// ASCII digits whose value fits in a `usize`.
pub open spec fn decimal_of(s: Seq<char>) -> Option<nat> {
    let d = unsigned_part(s);
    if d.len() > 0 && all_digits(d) && digits_value(d) <= usize::MAX {
        Some(digits_value(d))
    } else {
        None
    }
}

/// A directory named by the argument of `ls` or `cd`.
pub enum TargetClass {
    Current,
    Parent,
    Path(Seq<char>),
}

/// What the prompt makes of a typed line.
pub enum CommandClass {
    AutoRun,
    List(TargetClass),
    Home,
    ChangeDir(TargetClass),
    Help,
    Quit,
    Scan,
    ScanSave,
    Pick(nat),
    Open(Seq<char>),
}

/// `.` is the current directory, `..` its parent, anything else a path.
pub open spec fn target_of(p: Seq<char>) -> TargetClass {
    if p == "."@ {
        TargetClass::Current
    } else if p == ".."@ {
        TargetClass::Parent
    } else {
        TargetClass::Path(p)
    }
}

/// The command that a typed line stands for, once trimmed.
pub open spec fn command_of(line: Seq<char>) -> CommandClass {
    let t = trim(line);
    if t.len() == 0 {
        CommandClass::AutoRun
    } else if t == "ls"@ {
        CommandClass::List(TargetClass::Current)
    } else if starts_with(t, "ls "@) {
        CommandClass::List(target_of(trim(t.skip(3))))
    } else if t == "cd"@ {
        CommandClass::Home
    } else if starts_with(t, "cd "@) {
        CommandClass::ChangeDir(target_of(trim(t.skip(3))))
    } else if t == "help"@ {
        CommandClass::Help
    } else if t == "quit"@ || t == "exit"@ {
        CommandClass::Quit
    } else if t == "scan"@ {
        CommandClass::Scan
    } else if starts_with(t, "scan -o"@) {
        CommandClass::ScanSave
    } else {
        match decimal_of(t) {
            Some(n) => CommandClass::Pick(n),
            None => CommandClass::Open(t),
        }
    }
}

/// A directory argument of `ls` or `cd`.
pub enum DirTarget {
    Current,
    Parent,
    Path(String),
}

impl View for DirTarget {
    type V = TargetClass;

    open spec fn view(&self) -> TargetClass {
        match self {
            DirTarget::Current => TargetClass::Current,
            DirTarget::Parent => TargetClass::Parent,
            DirTarget::Path(p) => TargetClass::Path(p@),
        }
    }
}

/// A command of the interactive prompt.
pub enum ShellCommand {
    /// An empty line: find a script in the current directory and run it.
    AutoRun,
    /// `ls` or `ls <dir>`.
    List(DirTarget),
    /// `cd` alone: go to the home directory.
    Home,
    /// `cd <dir>`.
    ChangeDir(DirTarget),
    Help,
    /// `quit` or `exit`.
    Quit,
    /// `scan`: search the file system for scripts and offer them.
    Scan,
    /// `scan -o`: search and save the list to a file.
    ScanSave,
    /// A number: run that script of the current listing (counting from 1).
    Pick(usize),
    /// Anything else: a directory to enter or a script to run.
    Open(String),
}

impl View for ShellCommand {
    type V = CommandClass;

    open spec fn view(&self) -> CommandClass {
        match self {
            ShellCommand::AutoRun => CommandClass::AutoRun,
            ShellCommand::List(t) => CommandClass::List(t@),
            ShellCommand::Home => CommandClass::Home,
            ShellCommand::ChangeDir(t) => CommandClass::ChangeDir(t@),
            ShellCommand::Help => CommandClass::Help,
            ShellCommand::Quit => CommandClass::Quit,
            ShellCommand::Scan => CommandClass::Scan,
            ShellCommand::ScanSave => CommandClass::ScanSave,
            ShellCommand::Pick(n) => CommandClass::Pick(*n as nat),
            ShellCommand::Open(p) => CommandClass::Open(p@),
        }
    }
}

/// Whether `t` is exactly `word`.
fn is_word(t: &[char], word: &str) -> (r: bool)
    ensures
        r == (t@ == word@),
{
    let w = chars_of(word);
    if t.len() != w.len() {
        return false;
    }
    let r = has_prefix(t, &w);
    assert(t@.take(w@.len() as int) =~= t@);
    r
}

/// Whether `t` starts with `word`.
fn begins_with(t: &[char], word: &str) -> (r: bool)
    ensures
        r == starts_with(t@, word@),
{
    let w = chars_of(word);
    has_prefix(t, &w)
}

proof fn lemma_digits_value_bound(s: Seq<char>, t: Seq<char>)
    requires
        s.len() <= t.len(),
        s == t.take(s.len() as int),
        forall|i: int| 0 <= i < t.len() ==> is_digit(#[trigger] t[i]),
    ensures
        digits_value(s) <= digits_value(t),
    decreases t.len() - s.len(),
{
    if s.len() == t.len() {
        assert(t.take(t.len() as int) =~= t);
    } else {
        let s2 = t.take(s.len() + 1 as int);
        assert(s2.drop_last() =~= s);
        assert(digits_value(s2) == digits_value(s) * 10 + ((s2.last() as u32) - ('0' as u32)) as nat);
        lemma_digits_value_bound(s2, t);
    }
}

/// The value of `s` read as `str::parse::<usize>` reads it.
pub fn parse_decimal(s: &[char]) -> (r: Option<usize>)
    ensures
        r matches Some(n) ==> decimal_of(s@) == Some(n as nat),
        r is None ==> decimal_of(s@) is None,
{
    let start: usize = if s.len() > 0 && s[0] == '+' {
        1
    } else {
        0
    };
    let ghost d = s@.skip(start as int);
    assert(start == 0 ==> d =~= s@);
    if start >= s.len() {
        assert(d.len() == 0);
        return None;
    }
    let mut v: usize = 0;
    let mut i: usize = start;
    assert(d.take(0) =~= Seq::<char>::empty());
    while i < s.len()
        invariant
            start <= i <= s@.len(),
            d == s@.skip(start as int),
            d == unsigned_part(s@),
            forall|j: int| 0 <= j < i - start ==> is_digit(#[trigger] d[j]),
            v as nat == digits_value(d.take(i - start)),
        decreases s.len() - i,
    {
        let c = s[i];
        if !('0' <= c && c <= '9') {
            assert(!is_digit(d[i - start]));
            assert(!all_digits(d));
            return None;
        }
        let digit = (c as u32 - '0' as u32) as usize;
        assert(d.take(i - start + 1).drop_last() =~= d.take(i - start));
        assert(d.take(i - start + 1).last() == c);
        let ghost longer = d.take(i - start + 1);
        assert(digits_value(longer) == v * 10 + digit);
        let next = match v.checked_mul(10) {
            Some(m) => m.checked_add(digit),
            None => None,
        };
        match next {
            Some(n) => {
                v = n;
            },
            None => {
                proof {
                    if all_digits(d) {
                        lemma_digits_value_bound(longer, d);
                        assert(digits_value(d) > usize::MAX);
                    }
                }
                return None;
            },
        }
        i = i + 1;
    }
    assert(d.take(s.len() - start) =~= d);
    Some(v)
}

/// The parent of a path as `Path::parent` gives it, or none for a root or
/// an empty path.
pub uninterp spec fn parent_of(p: Seq<char>) -> Option<Seq<char>>;

/// Relies on `std::path::Path::parent`: the path without its last
/// component, which depends on the path alone.
#[verifier::external_body]
fn parent_dir(p: &str) -> (r: Option<String>)
    ensures
        r matches Some(q) ==> parent_of(p@) == Some(q@),
        r is None ==> parent_of(p@) is None,
{
    match std::path::Path::new(p).parent() {
        Some(q) => Some(q.to_string_lossy().into_owned()),
        None => None,
    }
}

/// The directory that `target` names, seen from `current_dir`.
pub open spec fn target_path(current_dir: Seq<char>, target: TargetClass) -> Seq<char> {
    match target {
        TargetClass::Current => current_dir,
        TargetClass::Parent => match parent_of(current_dir) {
            Some(p) => p,
            None => current_dir,
        },
        TargetClass::Path(p) => join(current_dir, p),
    }
}

/// The directory that `target` names, seen from `current_dir`: the
/// directory itself, its parent (itself at the root), or the path resolved
/// against it.
pub fn target_dir(current_dir: &str, target: &DirTarget) -> (r: String)
    ensures
        r@ == target_path(current_dir@, target@),
{
    match target {
        DirTarget::Current => current_dir.to_owned(),
        DirTarget::Parent => match parent_dir(current_dir) {
            Some(p) => p,
            None => current_dir.to_owned(),
        },
        DirTarget::Path(p) => {
            let base = chars_of(current_dir);
            let rel = chars_of(p.as_str());
            let joined = join_chars(&base, &rel);
            string_of(&joined)
        },
    }
}

fn target_from(p: &[char]) -> (r: DirTarget)
    ensures
        r@ == target_of(p@),
{
    if is_word(p, ".") {
        DirTarget::Current
    } else if is_word(p, "..") {
        DirTarget::Parent
    } else {
        DirTarget::Path(string_of(p))
    }
}

/// The argument after a three-character command word, trimmed.
fn argument_after_word(t: &[char]) -> (r: Vec<char>)
    requires
        t@.len() >= 3,
    ensures
        r@ == trim(t@.skip(3)),
{
    let rest = slice_chars(t, 3, t.len());
    assert(rest@ =~= t@.skip(3));
    trim_chars(&rest)
}

/// The command that a line typed at the prompt stands for.
pub fn parse_command(line: &str) -> (r: ShellCommand)
    ensures
        r@ == command_of(line@),
{
    proof {
        reveal_strlit("ls ");
        reveal_strlit("cd ");
    }
    let cs = chars_of(line);
    let t = trim_chars(&cs);
    if t.len() == 0 {
        ShellCommand::AutoRun
    } else if is_word(&t, "ls") {
        ShellCommand::List(DirTarget::Current)
    } else if begins_with(&t, "ls ") {
        let arg = argument_after_word(&t);
        ShellCommand::List(target_from(&arg))
    } else if is_word(&t, "cd") {
        ShellCommand::Home
    } else if begins_with(&t, "cd ") {
        let arg = argument_after_word(&t);
        ShellCommand::ChangeDir(target_from(&arg))
    } else if is_word(&t, "help") {
        ShellCommand::Help
    } else if is_word(&t, "quit") || is_word(&t, "exit") {
        ShellCommand::Quit
    } else if is_word(&t, "scan") {
        ShellCommand::Scan
    } else if begins_with(&t, "scan -o") {
        ShellCommand::ScanSave
    } else {
        match parse_decimal(&t) {
            Some(n) => ShellCommand::Pick(n),
            None => ShellCommand::Open(string_of(&t)),
        }
    }
}

/// The script numbered `n` in `scripts`, counting from 1, if there is one.
pub fn pick_script(scripts: &Vec<String>, n: usize) -> (r: Option<String>)
    ensures
        r matches Some(p) ==> 1 <= n <= scripts@.len() && p@ == scripts@[n - 1]@,
        r is None ==> !(1 <= n <= scripts@.len()),
{
    if n >= 1 && n <= scripts.len() {
        Some(scripts[n - 1].clone())
    } else {
        None
    }
}

/// A number typed in answer to a list: the trimmed line read as
/// `str::parse::<usize>` reads it.
pub fn parse_choice(line: &str) -> (r: Option<usize>)
    ensures
        r matches Some(n) ==> decimal_of(trim(line@)) == Some(n as nat),
        r is None ==> decimal_of(trim(line@)) is None,
{
    let cs = chars_of(line);
    let t = trim_chars(&cs);
    parse_decimal(&t)
}

} // verus!
