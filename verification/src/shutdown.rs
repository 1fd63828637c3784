//! Stopping watchers and ending the process.
use vstd::prelude::*;

verus! {

/// Whether a watcher manager acknowledged that it no longer owns a task that
/// writes to firmware.
#[derive(Clone, Copy, Debug, PartialEq, Eq, Structural)]
pub enum StopOutcome {
    /// The manager completed its requested graceful stop.
    Stopped,
    /// The manager ended through another channel before it could stop gracefully.
    Unclean,
    /// The manager's thread ended without an acknowledgement.
    CompletionLost,
}

/// How a manager loop returned.
#[derive(Clone, Copy, Debug, PartialEq, Eq, Structural)]
pub enum ManagerCompletion {
    /// The stop request drove the manager's teardown.
    Graceful,
    /// Another source closed first.
    Unexpected,
}

impl StopOutcome {
    /// Whether the manager explicitly acknowledged that it stopped.
    pub fn is_stopped(self) -> (stopped: bool)
        ensures
            stopped == (self == StopOutcome::Stopped),
    {
        matches!(self, StopOutcome::Stopped)
    }
}

/// The outcome of a stop, from the manager's completion. `None` where the
/// manager's end of the channel is gone.
pub fn completion(result: Option<ManagerCompletion>) -> (outcome: StopOutcome)
    ensures
        outcome == (match result {
            Some(ManagerCompletion::Graceful) => StopOutcome::Stopped,
            Some(ManagerCompletion::Unexpected) => StopOutcome::Unclean,
            None => StopOutcome::CompletionLost,
        }),
{
    match result {
        Some(ManagerCompletion::Graceful) => StopOutcome::Stopped,
        Some(ManagerCompletion::Unexpected) => StopOutcome::Unclean,
        None => StopOutcome::CompletionLost,
    }
}

/// What a watcher's handle waits for: the manager's completion where its worker
/// started. One that never started owns no task, but did not stop gracefully.
pub fn spawned(started: bool, finished: Option<ManagerCompletion>) -> (result: Option<
    ManagerCompletion,
>)
    ensures
        result == (if started {
            finished
        } else {
            Some(ManagerCompletion::Unexpected)
        }),
{
    if started {
        finished
    } else {
        Some(ManagerCompletion::Unexpected)
    }
}

/// Whether all the watchers of a fleet acknowledged that they stopped.
pub open spec fn all_stopped(outcomes: Seq<StopOutcome>) -> bool {
    forall|i: int| 0 <= i < outcomes.len() ==> outcomes[i] == StopOutcome::Stopped
}

/// Whether all the watchers of a fleet acknowledged that they stopped.
pub fn fleet_stopped(outcomes: &Vec<StopOutcome>) -> (stopped: bool)
    ensures
        stopped == all_stopped(outcomes@),
{
    let mut i: usize = 0;
    while i < outcomes.len()
        invariant
            i <= outcomes.len(),
            forall|j: int| 0 <= j < i ==> outcomes@[j] == StopOutcome::Stopped,
        decreases outcomes.len() - i,
    {
        if !outcomes[i].is_stopped() {
            return false;
        }
        i = i + 1;
    }
    true
}

/// A fleet stopped exactly where none of its watchers failed to say so.
pub proof fn one_silent_watcher_keeps_the_fleet(outcomes: Seq<StopOutcome>, at: int)
    ensures
        0 <= at < outcomes.len() && outcomes[at] != StopOutcome::Stopped ==> !all_stopped(outcomes),
        all_stopped(Seq::empty()),
        all_stopped(outcomes) ==> all_stopped(outcomes.push(StopOutcome::Stopped)),
{
}

} // verus!
