//! Choice of the program that runs one line of shell code.
use vstd::prelude::*;

use crate::text::chars_of;

verus! {

/// The host platforms that can run scripts.
#[derive(PartialEq, Eq, Structural, Clone, Copy, Debug)]
pub enum Platform {
    /// Runs `bash` through the `wsl` bridge.
    Windows,
    /// Runs `bash` directly.
    Posix,
}

/// A program and its arguments.
pub struct Invocation {
    pub program: String,
    pub args: Vec<String>,
}

/// The program that runs a line on `platform`.
pub open spec fn backend_program(platform: Platform) -> Seq<char> {
    match platform {
        Platform::Windows => seq!['w', 's', 'l'],
        Platform::Posix => seq!['b', 'a', 's', 'h'],
    }
}

/// The arguments that run `line` on `platform`: `bash -c <line>` through
/// the bridge, or `-c <line>` for a native `bash`.
pub open spec fn backend_args(platform: Platform, line: Seq<char>) -> Seq<Seq<char>> {
    match platform {
        Platform::Windows => seq![seq!['b', 'a', 's', 'h'], seq!['-', 'c'], line],
        Platform::Posix => seq![seq!['-', 'c'], line],
    }
}

/// How to run `line` as shell code on `platform`.
pub fn shell_invocation(platform: Platform, line: &str) -> (r: Invocation)
    ensures
        r.program@ == backend_program(platform),
        r.args@.map_values(|a: String| a@) == backend_args(platform, line@),
{
    let mut args: Vec<String> = Vec::new();
    let program = match platform {
        Platform::Windows => {
            let shell = "bash".to_owned();
            proof {
                reveal_strlit("bash");
                reveal_strlit("wsl");
            }
            assert(shell@ =~= seq!['b', 'a', 's', 'h']);
            args.push(shell);
            let bridge = "wsl".to_owned();
            assert(bridge@ =~= seq!['w', 's', 'l']);
            bridge
        },
        Platform::Posix => {
            let shell = "bash".to_owned();
            proof {
                reveal_strlit("bash");
            }
            assert(shell@ =~= seq!['b', 'a', 's', 'h']);
            shell
        },
    };
    let flag = "-c".to_owned();
    proof {
        reveal_strlit("-c");
    }
    assert(flag@ =~= seq!['-', 'c']);
    args.push(flag);
    args.push(line.to_owned());
    assert(args@.map_values(|a: String| a@) =~= backend_args(platform, line@));
    Invocation { program, args }
}

/// For a given platform the program is always the same, the argument
/// vectors of any two lines have the same length and agree everywhere but
/// in their last place, and that last place holds the line itself.
pub proof fn lemma_backend_shape(platform: Platform, line1: Seq<char>, line2: Seq<char>)
    ensures
        backend_args(platform, line1).len() == backend_args(platform, line2).len(),
        backend_args(platform, line1).last() == line1,
        forall|i: int|
            0 <= i < backend_args(platform, line1).len() - 1 ==> #[trigger] backend_args(
                platform,
                line1,
            )[i] == backend_args(platform, line2)[i],
{
}

/// The listing printed by `wsl -l -v` shows a distribution on version 2:
/// some line of it holds the digit `2`, that is, the text holds one.
pub open spec fn reports_wsl2(listing: Seq<char>) -> bool {
    exists|i: int| 0 <= i < listing.len() && listing[i] == '2'
}

/// Whether the listing printed by `wsl -l -v` shows a distribution on
/// version 2.
pub fn lists_wsl2(listing: &str) -> (r: bool)
    ensures
        r == reports_wsl2(listing@),
{
    let cs = chars_of(listing);
    let mut i: usize = 0;
    while i < cs.len()
        invariant
            cs@ == listing@,
            i <= cs@.len(),
            forall|j: int| 0 <= j < i ==> cs@[j] != '2',
        decreases cs.len() - i,
    {
        if cs[i] == '2' {
            return true;
        }
        i = i + 1;
    }
    false
}

} // verus!
