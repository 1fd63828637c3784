//! Delays between attempts.
use vstd::prelude::*;

verus! {

/// How long a manager waits before it retries a firmware restore that stayed
/// pending, or arms a session again that ended unexpectedly or found the
/// receiver leased. In milliseconds.
pub const RETRY_DELAY: u64 = 1_000;

/// The earlier of two deadlines, where either may be missing.
pub open spec fn earlier(a: Option<u64>, b: Option<u64>) -> Option<u64> {
    match (a, b) {
        (Some(x), Some(y)) => Some(if x <= y { x } else { y }),
        (Some(x), None) => Some(x),
        (None, _) => b,
    }
}

/// The earlier of two deadlines, where either may be missing.
pub fn earlier_of(a: Option<u64>, b: Option<u64>) -> (first: Option<u64>)
    ensures
        first == earlier(a, b),
{
    match (a, b) {
        (Some(x), Some(y)) => if x <= y { Some(x) } else { Some(y) },
        (Some(x), None) => Some(x),
        (None, _) => b,
    }
}

/// How long to sleep until a deadline. `None` where nothing is due and the wait
/// is left to other events.
pub fn wait_for_deadline(deadline: Option<u64>, now: u64) -> (sleep: Option<u64>)
    ensures
        sleep == (match deadline {
            Some(at) => Some(if at >= now { (at - now) as u64 } else { 0 }),
            None => None,
        }),
{
    match deadline {
        Some(at) => Some(at.saturating_sub(now)),
        None => None,
    }
}

/// What a change of exclusive access does to a manager's ticker: a change pulls
/// the next tick forward, a closed channel stops being listened to.
pub fn pull_tick_forward(changed_ok: bool, open: &mut bool) -> (tick_now: bool)
    ensures
        tick_now == changed_ok,
        *final(open) == (changed_ok && *old(open)),
{
    if !changed_ok {
        *open = false;
    }
    changed_ok
}

/// The earlier of two deadlines is one of them and not after either; a missing one does
/// not count, and two missing ones give none.
pub proof fn the_earlier_deadline_wins(a: u64, b: u64, any: Option<u64>)
    ensures
        earlier(Some(a), Some(b)) == earlier(Some(b), Some(a)),
        a <= b ==> earlier(Some(a), Some(b)) == Some(a),
        earlier(any, None) == any,
        earlier(None, any) == any,
        RETRY_DELAY == 1_000,
{
}

} // verus!
