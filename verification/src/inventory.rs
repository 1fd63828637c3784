//! What the polling inventory watcher tells the agent.
use vstd::prelude::*;

use crate::device::DeviceInventory;

verus! {

/// Failed enumerations in a row, before the first success, that make
/// enumeration count as unavailable.
pub const INITIAL_FAILURE_LIMIT: u8 = 3;

/// Why an enumeration is no snapshot.
#[derive(Clone, Copy, Debug, PartialEq, Eq, Structural)]
pub enum InventoryError {
    /// A device or a receiver could not be read whole.
    Incomplete,
    /// The backend failed, with its status.
    Backend(i32),
}

/// What the watcher tells the agent.
#[derive(Debug)]
pub enum InventoryEvent {
    /// A completed enumeration. An empty one means that no device is there.
    Snapshot(Vec<DeviceInventory>),
    /// Enumeration has never succeeded and no longer counts as starting.
    Unavailable,
    /// The machine woke up: devices may have lost their volatile settings.
    SystemWake,
}

/// What the watcher remembers from one enumeration to the next.
#[derive(Clone, Copy, Debug, PartialEq, Eq, Structural)]
pub struct WatchState {
    /// Some enumeration has completed.
    pub succeeded: bool,
    /// Failures so far, counted only before the first success.
    pub initial_failures: u8,
}

impl Default for WatchState {
    fn default() -> (state: WatchState)
        ensures
            state == (WatchState { succeeded: false, initial_failures: 0 }),
    {
        WatchState { succeeded: false, initial_failures: 0 }
    }
}

impl WatchState {
    /// The state after a completed enumeration.
    pub open spec fn after_success(self) -> WatchState {
        WatchState { succeeded: true, ..self }
    }

    /// The state after a failed one.
    pub open spec fn after_failure(self) -> WatchState {
        if self.succeeded || self.initial_failures == u8::MAX {
            self
        } else {
            WatchState { initial_failures: (self.initial_failures + 1) as u8, ..self }
        }
    }

    /// Whether a failure is the one that is reported.
    pub open spec fn gives_up(self) -> bool {
        !self.succeeded && self.initial_failures + 1 == INITIAL_FAILURE_LIMIT
    }

    /// Decide what an enumeration tells the agent.
    ///
    /// A completed one is forwarded, an empty one too. A failed one tells
    /// nothing, so that the agent keeps its last good devices; before the first
    /// success there is none to keep, so lasting failure is reported, once.
    pub fn classify(&mut self, result: Result<Vec<DeviceInventory>, InventoryError>) -> (event:
        Option<InventoryEvent>)
        ensures
            result is Ok ==> event == Some(InventoryEvent::Snapshot(result->Ok_0)) && *final(self)
                == old(self).after_success(),
            result is Err ==> *final(self) == old(self).after_failure() && event == (
            if old(self).gives_up() {
                Some(InventoryEvent::Unavailable)
            } else {
                None
            }),
    {
        match result {
            Ok(inventories) => {
                self.succeeded = true;
                Some(InventoryEvent::Snapshot(inventories))
            },
            Err(_) => {
                if self.succeeded {
                    return None;
                }
                self.initial_failures = self.initial_failures.saturating_add(1);
                if self.initial_failures == INITIAL_FAILURE_LIMIT {
                    Some(InventoryEvent::Unavailable)
                } else {
                    None
                }
            },
        }
    }
}

/// The state after a series of enumerations, each a success or not.
pub open spec fn after_all(state: WatchState, results: Seq<bool>) -> WatchState
    decreases results.len(),
{
    if results.len() == 0 {
        state
    } else {
        let before = after_all(state, results.drop_last());
        if results.last() {
            before.after_success()
        } else {
            before.after_failure()
        }
    }
}

/// Enumeration is reported unavailable at most once: after the report, no later
/// failure is one that reports again.
pub proof fn unavailable_is_reported_once(state: WatchState, later: Seq<bool>)
    requires
        state.gives_up(),
    ensures
        !after_all(state.after_failure(), later).gives_up(),
        after_all(state.after_failure(), later).initial_failures >= INITIAL_FAILURE_LIMIT,
    decreases later.len(),
{
    if later.len() > 0 {
        unavailable_is_reported_once(state, later.drop_last());
    }
}

/// Once an enumeration has completed, failures never report anything again.
pub proof fn success_ends_reporting(state: WatchState, later: Seq<bool>)
    requires
        state.succeeded,
    ensures
        after_all(state, later).succeeded,
        !after_all(state, later).gives_up(),
    decreases later.len(),
{
    if later.len() > 0 {
        success_ends_reporting(state, later.drop_last());
    }
}

/// The third failure in a row from the start is the one that is reported; one and two
/// failures are not, and a success before it means that none ever is.
pub proof fn the_third_failure_is_reported(later: Seq<bool>)
    ensures
        ({
            let fresh = WatchState { succeeded: false, initial_failures: 0 };
            &&& !fresh.gives_up()
            &&& !fresh.after_failure().gives_up()
            &&& fresh.after_failure().after_failure().gives_up()
            &&& !after_all(fresh.after_success(), later).gives_up()
            &&& !after_all(fresh.after_failure().after_success(), later).gives_up()
            &&& !after_all(fresh.after_failure().after_failure().after_success(), later).gives_up()
        }),
{
    let fresh = WatchState { succeeded: false, initial_failures: 0 };
    success_ends_reporting(fresh.after_success(), later);
    success_ends_reporting(fresh.after_failure().after_success(), later);
    success_ends_reporting(fresh.after_failure().after_failure().after_success(), later);
}

} // verus!
