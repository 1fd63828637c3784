//! Singleton handoff for supervised starts of the agent.
use vstd::prelude::*;

use crate::text::{join_path, joined, same_text};

verus! {

pub const LAUNCHD_ARGUMENT: &'static str = "--launchd";

pub const CLEAN_EXIT_MARKER: &'static str = "launchd-clean-exit";

/// Pause between two attempts to get the agent's lock, in milliseconds.
pub const LOCK_RETRY_DELAY: u64 = 200;

/// Whether the arguments, of which the first is the program, are those of a
/// supervised start.
pub fn started_by_launchd(arguments: &Vec<String>) -> (supervised: bool)
    ensures
        supervised == (exists|i: int|
            1 <= i < arguments@.len() && (#[trigger] arguments@[i])@ == LAUNCHD_ARGUMENT@),
{
    let mut i: usize = 1;
    while i < arguments.len()
        invariant
            1 <= i,
            forall|j: int|
                1 <= j < i && j < arguments@.len() ==> (#[trigger] arguments@[j])@
                    != LAUNCHD_ARGUMENT@,
        decreases arguments@.len() - i,
    {
        if same_text(arguments[i].as_str(), LAUNCHD_ARGUMENT) {
            return true;
        }
        i = i + 1;
    }
    false
}

/// Where the marker of an explicit Quit lies.
pub fn clean_exit_marker_path(config_dir: &str) -> (path: String)
    ensures
        path@ == joined(config_dir@, CLEAN_EXIT_MARKER@),
{
    join_path(config_dir, CLEAN_EXIT_MARKER)
}

/// How removing the marker went.
#[derive(Clone, Copy, Debug, PartialEq, Eq, Structural)]
pub enum Removal {
    Removed,
    Missing,
    Failed,
}

/// Whether the removal consumed a marker. One that cannot be removed counts as
/// none: a broken directory must not keep the agent down.
pub fn consume_marker(removal: Removal) -> (consumed: bool)
    ensures
        consumed == (removal == Removal::Removed),
{
    matches!(removal, Removal::Removed)
}

/// How an attempt to get the agent's lock went.
#[derive(Clone, Copy, Debug, PartialEq, Eq, Structural)]
pub enum LockAttempt {
    Acquired,
    AlreadyRunning,
    Failed,
}

/// What the waiting successor does.
#[derive(Clone, Copy, Debug, PartialEq, Eq, Structural)]
pub enum Handoff {
    /// Run, with the lock.
    TakeOver,
    /// Exit: the predecessor was quit by its user.
    StayStopped,
    /// Try again after [`LOCK_RETRY_DELAY`].
    Retry,
    /// Exit: the lock cannot be had.
    GiveUp,
}

/// Decide what an attempt to get the predecessor's lock comes to. The marker is
/// looked at only with the lock in hand; an abnormal exit leaves none.
pub fn wait_for_predecessor(attempt: LockAttempt, marker_consumed: bool) -> (handoff: Handoff)
    ensures
        handoff == (match attempt {
            LockAttempt::Acquired => if marker_consumed {
                Handoff::StayStopped
            } else {
                Handoff::TakeOver
            },
            LockAttempt::AlreadyRunning => Handoff::Retry,
            LockAttempt::Failed => Handoff::GiveUp,
        }),
{
    match attempt {
        LockAttempt::Acquired => if marker_consumed {
            Handoff::StayStopped
        } else {
            Handoff::TakeOver
        },
        LockAttempt::AlreadyRunning => Handoff::Retry,
        LockAttempt::Failed => Handoff::GiveUp,
    }
}

} // verus!
