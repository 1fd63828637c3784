//! How a restart of the agent is carried out.
use vstd::prelude::*;

use crate::paths::{extension, extension_of, parent, parent_of};
use crate::text::{push_decimal, decimal, same_text};

verus! {

/// The path so many levels above another.
pub open spec fn ancestor(path: Seq<char>, levels: nat) -> Option<Seq<char>>
    decreases levels,
{
    if levels == 0 {
        Some(path)
    } else {
        match ancestor(path, (levels - 1) as nat) {
            Some(below) => parent(below),
            None => None,
        }
    }
}

/// The bundle that a packaged helper binary lies in.
pub open spec fn bundle_of(path: Seq<char>) -> Option<Seq<char>> {
    match ancestor(path, 3) {
        Some(bundle) if extension(bundle) == Some("app"@) => Some(bundle),
        _ => None,
    }
}

/// The `.app` root of a packaged helper binary, `None` for a bare binary.
pub fn helper_bundle(path: &str) -> (bundle: Option<String>)
    ensures
        bundle is Some <==> bundle_of(path@) is Some,
        bundle is Some ==> bundle->0@ == bundle_of(path@)->0,
{
    proof {
        reveal_with_fuel(ancestor, 4);
    }
    let first: String = match parent_of(path) {
        Some(above) => above,
        None => {
            return None;
        },
    };
    let second: String = match parent_of(first.as_str()) {
        Some(above) => above,
        None => {
            return None;
        },
    };
    let third: String = match parent_of(second.as_str()) {
        Some(above) => above,
        None => {
            return None;
        },
    };
    match extension_of(third.as_str()) {
        Some(extension) => if same_text(extension.as_str(), "app") {
            Some(third)
        } else {
            None
        },
        None => None,
    }
}

/// Waits for a process to end, then opens a bundle.
pub const OPEN_BUNDLE: &'static str = "pid=$1; bundle=$2; while /bin/kill -0 \"$pid\" 2>/dev/null; do /bin/sleep 0.1; done; exec /usr/bin/open -g -n \"$bundle\"";

/// Waits for a process to end, then starts a program with the arguments left.
pub const START_PROGRAM: &'static str = "pid=$1; path=$2; shift 2; while /bin/kill -0 \"$pid\" 2>/dev/null; do /bin/sleep 0.1; done; exec \"$path\" \"$@\"";

/// The shell arguments that schedule a successor of the process `pid`: a packaged
/// helper is opened, which keeps its identity; a bare binary is started, with the
/// agent's own arguments. The successor waits for exactly this process, so that a
/// slow teardown cannot make it lose the race for the lock.
pub fn schedule(path: &str, pid: u32, forwarded: &Vec<String>) -> (arguments: Vec<String>)
    ensures
        arguments@.len() >= 5,
        arguments@[0]@ == "-c"@,
        arguments@[2]@ == "openlogi-relaunch"@,
        arguments@[3]@ == decimal(pid as nat),
        match bundle_of(path@) {
            Some(bundle) => {
                &&& arguments@.len() == 5
                &&& arguments@[1]@ == OPEN_BUNDLE@
                &&& arguments@[4]@ == bundle
            },
            None => {
                &&& arguments@.len() == 5 + forwarded@.len()
                &&& arguments@[1]@ == START_PROGRAM@
                &&& arguments@[4]@ == path@
                &&& forall|i: int|
                    0 <= i < forwarded@.len() ==> arguments@[5 + i] == #[trigger] forwarded@[i]
            },
        },
{
    let mut arguments: Vec<String> = Vec::new();
    let mut own: String = String::new();
    push_decimal(&mut own, pid as u64);
    assert(own@ =~= decimal(pid as nat));
    arguments.push("-c".to_owned());
    match helper_bundle(path) {
        Some(bundle) => {
            arguments.push(OPEN_BUNDLE.to_owned());
            arguments.push("openlogi-relaunch".to_owned());
            arguments.push(own);
            arguments.push(bundle);
        },
        None => {
            arguments.push(START_PROGRAM.to_owned());
            arguments.push("openlogi-relaunch".to_owned());
            arguments.push(own);
            arguments.push(path.to_owned());
            let ghost head = arguments@;
            let mut i: usize = 0;
            while i < forwarded.len()
                invariant
                    i <= forwarded@.len(),
                    head.len() == 5,
                    head[0]@ == "-c"@,
                    head[1]@ == START_PROGRAM@,
                    head[2]@ == "openlogi-relaunch"@,
                    head[3]@ == decimal(pid as nat),
                    head[4]@ == path@,
                    arguments@.len() == 5 + i,
                    forall|j: int| 0 <= j < 5 ==> arguments@[j] == head[j],
                    forall|j: int| 0 <= j < i ==> arguments@[5 + j] == #[trigger] forwarded@[j],
                decreases forwarded@.len() - i,
            {
                arguments.push(forwarded[i].clone());
                i = i + 1;
            }
        },
    }
    arguments
}

// ── Laws ────────────────────────────────────────────────────────────────────

/// A binary lies in the bundle three levels above it where that is a bundle, and in none
/// otherwise: a binary with fewer directories above it is a bare one.
pub proof fn bundles_lie_three_levels_up(
    path: Seq<char>,
    first: Seq<char>,
    second: Seq<char>,
    third: Seq<char>,
)
    ensures
        parent(path) is None ==> bundle_of(path) is None,
        parent(path) == Some(first) && parent(first) is None ==> bundle_of(path) is None,
        parent(path) == Some(first) && parent(first) == Some(second) && parent(second) is None
            ==> bundle_of(path) is None,
        parent(path) == Some(first) && parent(first) == Some(second) && parent(second) == Some(
            third,
        ) ==> bundle_of(path) == (if extension(third) == Some(seq!['a', 'p', 'p']) {
            Some(third)
        } else {
            None
        }),
{
    reveal_with_fuel(ancestor, 4);
    reveal_strlit("app");
    assert("app"@ =~= seq!['a', 'p', 'p']);
}

} // verus!
