//! The script execution engine.
//!
//! A script is read as lines. Blank lines and comments are skipped, a line
//! `cd <path>` moves the run's own working-directory cursor, and every other
//! line is handed to a shell, in the directory the cursor names at that
//! moment. [`ScriptRun`] makes these decisions one step at a time; whoever
//! drives it spawns the processes and tells it whether a `cd` target is an
//! existing directory.
use vstd::prelude::*;

use crate::paths::{join, join_chars};
use crate::text::{chars_of, slice_chars, split_lines, split_lines_of, string_of, trim, trim_chars};

verus! {

/// What a script line is, over character sequences.
pub enum LineClass {
    Blank,
    Comment,
    /// `cd <path>`, with the path trimmed.
    ChangeDir(Seq<char>),
    /// Any other line, trimmed: handed to the shell as it stands.
    Passthrough(Seq<char>),
}

/// The class of one script line.
pub open spec fn classify(line: Seq<char>) -> LineClass {
    let t = trim(line);
    if t.len() == 0 {
        LineClass::Blank
    } else if t[0] == '#' {
        LineClass::Comment
    } else if t.len() >= 3 && t[0] == 'c' && t[1] == 'd' && t[2] == ' ' {
        LineClass::ChangeDir(trim(t.skip(3)))
    } else {
        LineClass::Passthrough(t)
    }
}

/// A line that has no effect at all.
pub open spec fn is_skipped(line: Seq<char>) -> bool {
    classify(line) is Blank || classify(line) is Comment
}

/// The kind of a script line.
pub enum LineKind {
    Blank,
    Comment,
    ChangeDir { target: String },
    Passthrough { command: String },
}

impl View for LineKind {
    type V = LineClass;

    open spec fn view(&self) -> LineClass {
        match self {
            LineKind::Blank => LineClass::Blank,
            LineKind::Comment => LineClass::Comment,
            LineKind::ChangeDir { target } => LineClass::ChangeDir(target@),
            LineKind::Passthrough { command } => LineClass::Passthrough(command@),
        }
    }
}

/// The processes that the lines spawn, each as (command, working directory),
/// when the run starts at `cursor` and the existing directories are `dirs`.
pub open spec fn spawns(lines: Seq<Seq<char>>, cursor: Seq<char>, dirs: Set<Seq<char>>) -> Seq<
    (Seq<char>, Seq<char>),
>
    decreases lines.len(),
{
    if lines.len() == 0 {
        seq![]
    } else {
        let rest = lines.drop_first();
        match classify(lines[0]) {
            LineClass::ChangeDir(t) => {
                let d = join(cursor, t);
                spawns(rest, if dirs.contains(d) { d } else { cursor }, dirs)
            },
            LineClass::Passthrough(c) => seq![(c, cursor)] + spawns(rest, cursor, dirs),
            _ => spawns(rest, cursor, dirs),
        }
    }
}

/// The passthrough commands of `lines`, in order.
pub open spec fn commands(lines: Seq<Seq<char>>) -> Seq<Seq<char>>
    decreases lines.len(),
{
    if lines.len() == 0 {
        seq![]
    } else {
        match classify(lines[0]) {
            LineClass::Passthrough(c) => seq![c] + commands(lines.drop_first()),
            _ => commands(lines.drop_first()),
        }
    }
}

/// What executing a script spawns: nothing when it could not be read,
/// otherwise the spawns of its lines from the starting directory.
pub open spec fn execution(contents: Option<Seq<char>>, start: Seq<char>, dirs: Set<Seq<char>>) -> Seq<
    (Seq<char>, Seq<char>),
> {
    match contents {
        Some(c) => spawns(split_lines(c), start, dirs),
        None => seq![],
    }
}

/// The index of the first line at or after `from` that is not skipped, or
/// the number of lines when there is none.
pub open spec fn next_active(lines: Seq<Seq<char>>, from: int) -> int
    decreases lines.len() - from,
{
    if from >= lines.len() {
        lines.len() as int
    } else if is_skipped(lines[from]) {
        next_active(lines, from + 1)
    } else {
        from
    }
}

/// A script whose lines are all blank or comments spawns nothing, whatever
/// directories exist, and its first step is the end of the run.
pub proof fn lemma_comment_only_script(contents: Seq<char>, start: Seq<char>, dirs: Set<Seq<char>>)
    requires
        forall|i: int| 0 <= i < split_lines(contents).len() ==> is_skipped(
            #[trigger] split_lines(contents)[i],
        ),
    ensures
        execution(Some(contents), start, dirs) == Seq::<(Seq<char>, Seq<char>)>::empty(),
        next_active(split_lines(contents), 0) == split_lines(contents).len(),
{
    let lines = split_lines(contents);
    lemma_skipped_lines(lines, 0, start, dirs);
    assert(lines.skip(0) =~= lines);
    assert(lines.skip(lines.len() as int) =~= Seq::<Seq<char>>::empty());
}

/// The processes spawned are exactly the passthrough lines, in order: their
/// number is the number of lines that are neither blank, a comment nor a
/// `cd` directive, and the commands do not depend on the directories.
pub proof fn lemma_spawned_commands(lines: Seq<Seq<char>>, cursor: Seq<char>, dirs: Set<Seq<char>>)
    ensures
        spawns(lines, cursor, dirs).len() == commands(lines).len(),
        forall|i: int|
            0 <= i < commands(lines).len() ==> (#[trigger] spawns(lines, cursor, dirs)[i]).0
                == commands(lines)[i],
    decreases lines.len(),
{
    if lines.len() > 0 {
        let rest = lines.drop_first();
        match classify(lines[0]) {
            LineClass::ChangeDir(t) => {
                let d = join(cursor, t);
                lemma_spawned_commands(rest, if dirs.contains(d) { d } else { cursor }, dirs);
            },
            LineClass::Passthrough(c) => {
                lemma_spawned_commands(rest, cursor, dirs);
                let tail = spawns(rest, cursor, dirs);
                assert forall|i: int| 0 <= i < commands(lines).len() implies (#[trigger] spawns(
                    lines,
                    cursor,
                    dirs,
                )[i]).0 == commands(lines)[i] by {
                    if i > 0 {
                        assert(spawns(lines, cursor, dirs)[i] == tail[i - 1]);
                    }
                }
            },
            _ => {
                lemma_spawned_commands(rest, cursor, dirs);
            },
        }
    }
}

/// Running the same script twice from the same directory, with the same
/// directories present, spawns the same commands in the same directories;
/// and the commands alone are the same even where the directories differ.
pub proof fn lemma_repeatable(
    contents: Seq<char>,
    start: Seq<char>,
    dirs1: Set<Seq<char>>,
    dirs2: Set<Seq<char>>,
)
    ensures
        dirs1 == dirs2 ==> execution(Some(contents), start, dirs1) == execution(
            Some(contents),
            start,
            dirs2,
        ),
        execution(Some(contents), start, dirs1).len() == execution(
            Some(contents),
            start,
            dirs2,
        ).len(),
        forall|i: int|
            0 <= i < execution(Some(contents), start, dirs1).len() ==> (#[trigger] execution(
                Some(contents),
                start,
                dirs1,
            )[i]).0 == execution(Some(contents), start, dirs2)[i].0,
{
    lemma_spawned_commands(split_lines(contents), start, dirs1);
    lemma_spawned_commands(split_lines(contents), start, dirs2);
}

/// A script that could not be read spawns nothing.
pub proof fn lemma_unreadable_script(start: Seq<char>, dirs: Set<Seq<char>>)
    ensures
        execution(None, start, dirs) == Seq::<(Seq<char>, Seq<char>)>::empty(),
{
}

/// How a script run ended.
#[derive(PartialEq, Eq, Structural, Clone, Copy, Debug)]
pub enum Outcome {
    Completed,
    ReadFailed,
}

/// What the driver of a [`ScriptRun`] does next.
pub enum Step {
    /// Spawn `bash -c <command>` (through the platform's backend) in `dir`,
    /// wait for it, and ask for the next step.
    Run { command: String, dir: String },
    /// Tell the run, through [`ScriptRun::finish_change_dir`], whether
    /// `target` is an existing directory.
    ChangeDir { target: String },
    /// The script is done.
    Finished { outcome: Outcome },
}

/// The state of a script run, over mathematical values.
pub struct RunState {
    pub lines: Seq<Seq<char>>,
    /// Index of the first line not yet handled.
    pub next: int,
    /// The execution cursor: the directory the next command runs in.
    pub cursor: Seq<char>,
    /// The resolved target of a `cd` line that waits for its answer.
    pub pending: Option<Seq<char>>,
    pub read_failed: bool,
}

/// What the rest of a run spawns, when the existing directories are `dirs`.
pub open spec fn remaining(st: RunState, dirs: Set<Seq<char>>) -> Seq<(Seq<char>, Seq<char>)> {
    let rest = st.lines.skip(st.next);
    match st.pending {
        Some(t) => spawns(rest, if dirs.contains(t) { t } else { st.cursor }, dirs),
        None => spawns(rest, st.cursor, dirs),
    }
}

/// What one call of [`ScriptRun::next_step`] does, from the state `st` to
/// the state `st2`, when it returns `r`.
pub open spec fn step_taken(st: RunState, st2: RunState, r: Step) -> bool {
    let lines = st.lines;
    let k = next_active(lines, st.next);
    let cur = st.cursor;
    if k == lines.len() {
        &&& r == Step::Finished {
            outcome: if st.read_failed {
                Outcome::ReadFailed
            } else {
                Outcome::Completed
            },
        }
        &&& st2 == RunState { next: k, ..st }
    } else {
        match classify(lines[k]) {
            LineClass::ChangeDir(t) => match r {
                Step::ChangeDir { target } => {
                    &&& target@ == join(cur, t)
                    &&& st2 == RunState { next: k + 1, pending: Some(join(cur, t)), ..st }
                },
                _ => false,
            },
            LineClass::Passthrough(c) => match r {
                Step::Run { command, dir } => {
                    &&& command@ == c
                    &&& dir@ == cur
                    &&& st2 == RunState { next: k + 1, ..st }
                },
                _ => false,
            },
            _ => false,
        }
    }
}

/// One execution of a script, from its text and a starting directory.
pub struct ScriptRun {
    lines: Vec<Vec<char>>,
    next: usize,
    cursor: Vec<char>,
    pending: Option<Vec<char>>,
    read_failed: bool,
}

impl View for ScriptRun {
    type V = RunState;

    closed spec fn view(&self) -> RunState {
        RunState {
            lines: self.lines@.map_values(|l: Vec<char>| l@),
            next: self.next as int,
            cursor: self.cursor@,
            pending: match self.pending {
                Some(p) => Some(p@),
                None => None,
            },
            read_failed: self.read_failed,
        }
    }
}

/// The class of a line given as characters.
fn classify_chars(line: &[char]) -> (r: LineKind)
    ensures
        r@ == classify(line@),
{
    let t = trim_chars(line);
    if t.len() == 0 {
        LineKind::Blank
    } else if t[0] == '#' {
        LineKind::Comment
    } else if t.len() >= 3 && t[0] == 'c' && t[1] == 'd' && t[2] == ' ' {
        let rest = slice_chars(&t, 3, t.len());
        assert(rest@ =~= t@.skip(3));
        let target = trim_chars(&rest);
        LineKind::ChangeDir { target: string_of(&target) }
    } else {
        LineKind::Passthrough { command: string_of(&t) }
    }
}

/// The class of one script line: blank, comment, a `cd` directive with its
/// trimmed target, or a command to hand to the shell, trimmed.
pub fn classify_line(line: &str) -> (r: LineKind)
    ensures
        r@ == classify(line@),
{
    let cs = chars_of(line);
    classify_chars(&cs)
}

proof fn lemma_skip_unfold(lines: Seq<Seq<char>>, k: int)
    requires
        0 <= k < lines.len(),
    ensures
        lines.skip(k).len() > 0,
        lines.skip(k)[0] == lines[k],
        lines.skip(k).drop_first() == lines.skip(k + 1),
{
    assert(lines.skip(k).drop_first() =~= lines.skip(k + 1));
}

/// Skipped lines change nothing that is spawned.
proof fn lemma_skipped_lines(lines: Seq<Seq<char>>, from: int, cursor: Seq<char>, dirs: Set<Seq<char>>)
    requires
        0 <= from <= lines.len(),
    ensures
        from <= next_active(lines, from) <= lines.len(),
        spawns(lines.skip(from), cursor, dirs) == spawns(
            lines.skip(next_active(lines, from)),
            cursor,
            dirs,
        ),
        forall|i: int| from <= i < next_active(lines, from) ==> is_skipped(#[trigger] lines[i]),
        next_active(lines, from) < lines.len() ==> !is_skipped(lines[next_active(lines, from)]),
    decreases lines.len() - from,
{
    if from < lines.len() && is_skipped(lines[from]) {
        lemma_skip_unfold(lines, from);
        lemma_skipped_lines(lines, from + 1, cursor, dirs);
    }
}

impl ScriptRun {
    /// The next line to handle lies within the script, and a script that
    /// could not be read has no lines.
    pub open spec fn wf(&self) -> bool {
        &&& 0 <= self@.next <= self@.lines.len()
        &&& self@.read_failed ==> self@.lines.len() == 0
    }

    /// A run of the script whose text is `contents`, starting in `start`;
    /// `None` stands for a script that could not be read, which runs nothing
    /// and ends as [`Outcome::ReadFailed`].
    pub fn new(contents: Option<&str>, start: &str) -> (r: ScriptRun)
        ensures
            r.wf(),
            r@.next == 0,
            r@.cursor == start@,
            r@.pending is None,
            r@.read_failed == (contents is None),
            contents is Some ==> r@.lines == split_lines(contents->0@),
            contents is None ==> r@.lines.len() == 0,
            forall|dirs: Set<Seq<char>>|
                #[trigger] remaining(r@, dirs) == execution(
                    match contents {
                        Some(c) => Some(c@),
                        None => None,
                    },
                    start@,
                    dirs,
                ),
    {
        let cursor = chars_of(start);
        let (lines, read_failed) = match contents {
            Some(c) => {
                let cs = chars_of(c);
                (split_lines_of(&cs), false)
            },
            None => (Vec::new(), true),
        };
        let r = ScriptRun { lines, next: 0, cursor, pending: None, read_failed };
        assert(r@.lines.skip(0) =~= r@.lines);
        r
    }

    /// The execution cursor: the directory the next command runs in.
    pub fn cursor(&self) -> (r: String)
        ensures
            r@ == self@.cursor,
    {
        string_of(&self.cursor)
    }

    fn find_active(&self) -> (k: usize)
        requires
            self.wf(),
        ensures
            k == next_active(self@.lines, self@.next),
    {
        let mut i: usize = self.next;
        while i < self.lines.len()
            invariant
                self.wf(),
                self@.next <= i <= self@.lines.len(),
                next_active(self@.lines, i as int) == next_active(self@.lines, self@.next),
            decreases self.lines.len() - i,
        {
            let kind = classify_chars(&self.lines[i]);
            assert(self@.lines[i as int] == self.lines@[i as int]@);
            match kind {
                LineKind::Blank | LineKind::Comment => {
                    i = i + 1;
                },
                _ => {
                    return i;
                },
            }
        }
        i
    }

    /// Moves past blank and comment lines to the next line that does
    /// something, and says what to do for it: run a command in the cursor's
    /// directory, check a `cd` target, or finish. A `cd` target is the path
    /// joined onto the cursor.
    pub fn next_step(&mut self) -> (r: Step)
        requires
            old(self).wf(),
            (old(self)@.pending is None),
        ensures
            final(self).wf(),
            final(self)@.lines == old(self)@.lines,
            final(self)@.read_failed == old(self)@.read_failed,
            step_taken(old(self)@, final(self)@, r),
            forall|dirs: Set<Seq<char>>|
                #[trigger] remaining(old(self)@, dirs) == match r {
                    Step::Run { command, dir } => seq![(command@, dir@)] + remaining(
                        final(self)@,
                        dirs,
                    ),
                    Step::ChangeDir { .. } => remaining(final(self)@, dirs),
                    Step::Finished { .. } => seq![],
                },
    {
        let k = self.find_active();
        let ghost lines = self@.lines;
        let ghost cur = self@.cursor;
        let ghost from = self@.next;
        proof {
            lemma_skipped_lines(lines, from, cur, Set::empty());
            assert(lines.len() == self.lines@.len());
            assert forall|dirs: Set<Seq<char>>|
                #[trigger] spawns(lines.skip(from), cur, dirs) == spawns(lines.skip(k as int), cur, dirs) by {
                lemma_skipped_lines(lines, from, cur, dirs);
            }
        }
        if k == self.lines.len() {
            self.next = k;
            assert(lines.skip(k as int) =~= Seq::<Seq<char>>::empty());
            let outcome = if self.read_failed {
                Outcome::ReadFailed
            } else {
                Outcome::Completed
            };
            return Step::Finished { outcome };
        }
        proof {
            lemma_skip_unfold(lines, k as int);
        }
        assert(lines[k as int] == self.lines@[k as int]@);
        let kind = classify_chars(&self.lines[k]);
        match kind {
            LineKind::ChangeDir { target } => {
                let t = chars_of(target.as_str());
                let joined = join_chars(&self.cursor, &t);
                let shown = string_of(&joined);
                self.next = k + 1;
                self.pending = Some(joined);
                Step::ChangeDir { target: shown }
            },
            LineKind::Passthrough { command } => {
                let dir = string_of(&self.cursor);
                self.next = k + 1;
                Step::Run { command, dir }
            },
            _ => {
                // `k` is the index of a line that is not skipped.
                assert(!is_skipped(lines[k as int]));
                Step::Finished { outcome: Outcome::Completed }
            },
        }
    }

    /// Answers the `cd` step that [`ScriptRun::next_step`] gave: the cursor
    /// moves to the target when it is an existing directory, and stays where
    /// it is otherwise.
    pub fn finish_change_dir(&mut self, target_is_dir: bool)
        requires
            old(self).wf(),
            (old(self)@.pending is Some),
        ensures
            final(self).wf(),
            final(self)@ == (RunState {
                cursor: if target_is_dir {
                    old(self)@.pending->0
                } else {
                    old(self)@.cursor
                },
                pending: None,
                ..old(self)@
            }),
            forall|dirs: Set<Seq<char>>|
                dirs.contains(old(self)@.pending->0) == target_is_dir ==> #[trigger] remaining(
                    old(self)@,
                    dirs,
                ) == remaining(final(self)@, dirs),
    {
        let pending = self.pending.take();
        match pending {
            Some(t) => {
                if target_is_dir {
                    self.cursor = t;
                }
            },
            None => {},
        }
    }
}

} // verus!
