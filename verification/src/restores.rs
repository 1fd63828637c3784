//! Firmware restores that are owed, each to the route it was diverted over.
use vstd::prelude::*;

use crate::capture_plan::{CaptureTarget, DeviceCapturePlan, TargetModel};
use crate::keys::KeySet;
use crate::retry::{earlier, earlier_of};
use crate::route::{DeviceRoute, PhysicalDeviceKey};
use crate::value::Value;

verus! {

/// A restore that is owed to one device over one route.
#[derive(Debug)]
pub struct PendingRestore<T> {
    pub key: PhysicalDeviceKey,
    pub route: DeviceRoute,
    pub token: T,
    /// In milliseconds.
    pub retry_at: u64,
}

/// Whether a published target claims the device over another route, or the route
/// for another device.
pub open spec fn conflicts<T>(restore: PendingRestore<T>, target: TargetModel) -> bool {
    ||| target.physical_key == restore.key.model() && target.route != restore.route.model()
    ||| target.route == restore.route.model() && target.physical_key != restore.key.model()
}

/// Whether the restore may be tried: its device is not busy, and no published
/// plan conflicts with it.
pub open spec fn is_eligible<T>(
    restore: PendingRestore<T>,
    busy: Set<Seq<char>>,
    published: Seq<DeviceCapturePlan>,
) -> bool {
    &&& !busy.contains(restore.key.model())
    &&& forall|i: int|
        0 <= i < published.len() ==> !conflicts(restore, (#[trigger] published[i]).target.model())
}

impl<T> PendingRestore<T> {
    /// Whether the restore may be tried.
    pub fn eligible(&self, busy: &KeySet, published: &Vec<DeviceCapturePlan>) -> (eligible: bool)
        ensures
            eligible == is_eligible(*self, busy@, published@),
    {
        if busy.contains(&self.key.text) {
            return false;
        }
        let mut i: usize = 0;
        while i < published.len()
            invariant
                i <= published.len(),
                !busy@.contains(self.key.model()),
                forall|j: int|
                    0 <= j < i ==> !conflicts(*self, (#[trigger] published@[j]).target.model()),
            decreases published.len() - i,
        {
            let target: &CaptureTarget = &published[i].target;
            let same_key: bool = target.physical_key.same(&self.key);
            let same_route: bool = target.route.same(&self.route);
            if same_key != same_route {
                assert(conflicts(*self, published@[i as int].target.model()));
                return false;
            }
            i = i + 1;
        }
        true
    }
}

/// Whether the restore is to be tried now.
pub open spec fn is_due<T>(
    restore: PendingRestore<T>,
    now: u64,
    busy: Set<Seq<char>>,
    published: Seq<DeviceCapturePlan>,
) -> bool {
    restore.retry_at <= now && is_eligible(restore, busy, published)
}

/// The restores to be tried now, in order.
pub open spec fn due_ones<T>(
    pending: Seq<PendingRestore<T>>,
    now: u64,
    busy: Set<Seq<char>>,
    published: Seq<DeviceCapturePlan>,
) -> Seq<PendingRestore<T>>
    decreases pending.len(),
{
    if pending.len() == 0 {
        pending
    } else {
        let before = due_ones(pending.drop_last(), now, busy, published);
        if is_due(pending.last(), now, busy, published) {
            before.push(pending.last())
        } else {
            before
        }
    }
}

/// The other restores, in order.
pub open spec fn waiting_ones<T>(
    pending: Seq<PendingRestore<T>>,
    now: u64,
    busy: Set<Seq<char>>,
    published: Seq<DeviceCapturePlan>,
) -> Seq<PendingRestore<T>>
    decreases pending.len(),
{
    if pending.len() == 0 {
        pending
    } else {
        let before = waiting_ones(pending.drop_last(), now, busy, published);
        if is_due(pending.last(), now, busy, published) {
            before
        } else {
            before.push(pending.last())
        }
    }
}

/// The earliest time at which an eligible restore may be tried.
pub open spec fn earliest<T>(
    pending: Seq<PendingRestore<T>>,
    busy: Set<Seq<char>>,
    published: Seq<DeviceCapturePlan>,
) -> Option<u64>
    decreases pending.len(),
{
    if pending.len() == 0 {
        None
    } else {
        earlier(
            earliest(pending.drop_last(), busy, published),
            if is_eligible(pending.last(), busy, published) {
                Some(pending.last().retry_at)
            } else {
                None
            },
        )
    }
}

/// The restores that are owed, in the order in which they came.
#[derive(Debug)]
pub struct RestoreQueue<T> {
    pub pending: Vec<PendingRestore<T>>,
}

impl<T> Default for RestoreQueue<T> {
    fn default() -> (queue: RestoreQueue<T>)
        ensures
            queue.pending@.len() == 0,
    {
        RestoreQueue { pending: Vec::new() }
    }
}

impl<T> RestoreQueue<T> {
    pub fn is_empty(&self) -> (empty: bool)
        ensures
            empty == (self.pending@.len() == 0),
    {
        self.pending.len() == 0
    }

    /// Owe one more restore.
    pub fn retain(&mut self, pending: PendingRestore<T>)
        ensures
            final(self).pending@ == old(self).pending@.push(pending),
    {
        self.pending.push(pending);
    }

    /// Whether a restore is owed to exactly this device over exactly this route,
    /// which is what keeps a session from being armed there.
    pub fn blocks(&self, key: &PhysicalDeviceKey, route: &DeviceRoute) -> (blocks: bool)
        ensures
            blocks == (exists|i: int|
                0 <= i < self.pending@.len() && (#[trigger] self.pending@[i]).key.model()
                    == key.model() && self.pending@[i].route.model() == route.model()),
    {
        let mut i: usize = 0;
        while i < self.pending.len()
            invariant
                i <= self.pending.len(),
                forall|j: int|
                    0 <= j < i ==> !((#[trigger] self.pending@[j]).key.model() == key.model()
                        && self.pending@[j].route.model() == route.model()),
            decreases self.pending.len() - i,
        {
            if self.pending[i].key.same(key) && self.pending[i].route.same(route) {
                assert(self.pending@[i as int].key.model() == key.model());
                return true;
            }
            i = i + 1;
        }
        false
    }

    /// Make every restore due now.
    pub fn expedite(&mut self, now: u64)
        ensures
            final(self).pending@.len() == old(self).pending@.len(),
            forall|i: int|
                0 <= i < final(self).pending@.len() ==> #[trigger] final(self).pending@[i] == (
                PendingRestore { retry_at: now, ..old(self).pending@[i] }),
    {
        let mut i: usize = 0;
        while i < self.pending.len()
            invariant
                i <= self.pending@.len() == old(self).pending@.len(),
                forall|j: int|
                    0 <= j < i ==> #[trigger] self.pending@[j] == (PendingRestore {
                        retry_at: now,
                        ..old(self).pending@[j]
                    }),
                forall|j: int|
                    i <= j < self.pending@.len() ==> #[trigger] self.pending@[j]
                        == old(self).pending@[j],
            decreases self.pending@.len() - i,
        {
            self.pending[i].retry_at = now;
            i = i + 1;
        }
    }

    /// When the next restore may be tried, if any is eligible.
    pub fn next_deadline(&self, busy: &KeySet, published: &Vec<DeviceCapturePlan>) -> (deadline:
        Option<u64>)
        ensures
            deadline == earliest(self.pending@, busy@, published@),
    {
        let mut deadline: Option<u64> = None;
        let mut i: usize = 0;
        while i < self.pending.len()
            invariant
                i <= self.pending.len(),
                deadline == earliest(self.pending@.take(i as int), busy@, published@),
            decreases self.pending.len() - i,
        {
            let own: Option<u64> = if self.pending[i].eligible(busy, published) {
                Some(self.pending[i].retry_at)
            } else {
                None
            };
            deadline = earlier_of(deadline, own);
            assert(self.pending@.take(i + 1).drop_last() =~= self.pending@.take(i as int));
            i = i + 1;
        }
        assert(self.pending@.take(i as int) =~= self.pending@);
        deadline
    }

    /// Take out the restores that are due and eligible. The others stay owed.
    pub fn take_due(&mut self, now: u64, busy: &KeySet, published: &Vec<DeviceCapturePlan>) -> (due:
        Vec<PendingRestore<T>>)
        ensures
            due@ == due_ones(old(self).pending@, now, busy@, published@),
            final(self).pending@ == waiting_ones(old(self).pending@, now, busy@, published@),
    {
        let ghost all = self.pending@;
        let ghost mut seen: int = 0;
        let mut due: Vec<PendingRestore<T>> = Vec::new();
        let mut i: usize = 0;
        assert(all.take(0) =~= Seq::<PendingRestore<T>>::empty());
        assert(self.pending@ =~= waiting_ones(all.take(0), now, busy@, published@) + all.skip(0));
        while i < self.pending.len()
            invariant
                0 <= seen <= all.len(),
                i == waiting_ones(all.take(seen), now, busy@, published@).len(),
                self.pending@ == waiting_ones(all.take(seen), now, busy@, published@) + all.skip(
                    seen,
                ),
                due@ == due_ones(all.take(seen), now, busy@, published@),
            decreases self.pending@.len() - i,
        {
            proof {
                assert(seen < all.len());
                assert(self.pending@[i as int] == all[seen]);
                assert(all.take(seen + 1).drop_last() =~= all.take(seen));
                assert(all.take(seen + 1).last() == all[seen]);
            }
            let ghost kept = waiting_ones(all.take(seen), now, busy@, published@);
            if self.pending[i].retry_at <= now && self.pending[i].eligible(busy, published) {
                let restore: PendingRestore<T> = self.pending.remove(i);
                due.push(restore);
                assert(self.pending@ =~= kept + all.skip(seen + 1));
            } else {
                i = i + 1;
                assert(self.pending@ =~= kept.push(all[seen]) + all.skip(seen + 1));
            }
            proof {
                seen = seen + 1;
            }
        }
        proof {
            assert(all.skip(seen).len() == 0);
            assert(all.take(seen) =~= all);
            assert(self.pending@ =~= waiting_ones(all, now, busy@, published@));
        }
        due
    }
}

// ── Laws ────────────────────────────────────────────────────────────────────

/// No restore is lost or doubled: what is taken and what stays owed are together
/// what was owed.
pub proof fn no_restore_is_lost<T>(
    pending: Seq<PendingRestore<T>>,
    now: u64,
    busy: Set<Seq<char>>,
    published: Seq<DeviceCapturePlan>,
)
    ensures
        due_ones(pending, now, busy, published).to_multiset().add(
            waiting_ones(pending, now, busy, published).to_multiset(),
        ) =~= pending.to_multiset(),
    decreases pending.len(),
{
    broadcast use vstd::seq_lib::group_to_multiset_ensures;

    if pending.len() > 0 {
        no_restore_is_lost(pending.drop_last(), now, busy, published);
        assert(pending =~= pending.drop_last().push(pending.last()));
    }
}

/// The deadline is exact: some restore is taken at a time just where the
/// deadline is not later than it.
pub proof fn deadline_is_when_something_is_due<T>(
    pending: Seq<PendingRestore<T>>,
    now: u64,
    busy: Set<Seq<char>>,
    published: Seq<DeviceCapturePlan>,
)
    ensures
        due_ones(pending, now, busy, published).len() > 0 <==> (earliest(
            pending,
            busy,
            published,
        ) matches Some(at) && at <= now),
    decreases pending.len(),
{
    if pending.len() > 0 {
        deadline_is_when_something_is_due(pending.drop_last(), now, busy, published);
    }
}

/// A restore that is owed over a route which no plan uses does not block capture
/// over another one, and is not tried while the device is captured there.
pub proof fn other_transports_park_the_restore<T>(
    restore: PendingRestore<T>,
    busy: Set<Seq<char>>,
    published: Seq<DeviceCapturePlan>,
    at: int,
)
    requires
        0 <= at < published.len(),
        published[at].target.physical_key.model() == restore.key.model(),
        published[at].target.route.model() != restore.route.model(),
    ensures
        !is_eligible(restore, busy, published),
{
    assert(conflicts(restore, published[at].target.model()));
}

/// A restore may be tried exactly where its device is not captured and every published
/// plan either is for the same device over the same route, or shares neither with it.
pub proof fn restores_keep_out_of_the_way<T>(
    restore: PendingRestore<T>,
    busy: Set<Seq<char>>,
    published: Seq<DeviceCapturePlan>,
)
    ensures
        is_eligible(restore, busy, published) <==> !busy.contains(restore.key.model()) && forall|
            i: int,
        |
            0 <= i < published.len() ==> ((#[trigger] published[i]).target.physical_key.model()
                == restore.key.model()) == (published[i].target.route.model()
                == restore.route.model()),
{
    if is_eligible(restore, busy, published) {
        assert forall|i: int| 0 <= i < published.len() implies ((
        #[trigger] published[i]).target.physical_key.model() == restore.key.model()) == (
        published[i].target.route.model() == restore.route.model()) by {
            assert(!conflicts(restore, published[i].target.model()));
        }
    }
}

/// Exactly the eligible restores whose time has come are taken, in order; the others stay
/// owed, in order.
pub proof fn due_restores_are_taken_in_order<T>(
    before: Seq<PendingRestore<T>>,
    restore: PendingRestore<T>,
    now: u64,
    busy: Set<Seq<char>>,
    published: Seq<DeviceCapturePlan>,
)
    ensures
        ({
            let due = restore.retry_at <= now && is_eligible(restore, busy, published);
            &&& due_ones(before.push(restore), now, busy, published) == (if due {
                due_ones(before, now, busy, published).push(restore)
            } else {
                due_ones(before, now, busy, published)
            })
            &&& waiting_ones(before.push(restore), now, busy, published) == (if due {
                waiting_ones(before, now, busy, published)
            } else {
                waiting_ones(before, now, busy, published).push(restore)
            })
            &&& due_ones(Seq::<PendingRestore<T>>::empty(), now, busy, published).len() == 0
            &&& waiting_ones(Seq::<PendingRestore<T>>::empty(), now, busy, published).len() == 0
        }),
{
    assert(before.push(restore).drop_last() =~= before);
}

} // verus!
