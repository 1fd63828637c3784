//! The gesture capture manager: one session per online device.
use vstd::prelude::*;
use vstd::slice::slice_subrange;

use crate::binding::ButtonId;
use crate::capture_plan::{CaptureTarget, DeviceCapturePlan, DispatchModel, DispatchPlan,
    TargetModel, find_plan, plan_for};
use crate::capture_session::{CaptureRecovery, CaptureSession, CaptureSlot, PendingRestore,
    ReconcileAction, SessionModel, SlotModel};
use crate::dispatch::{CapturedInput, Dispatched, DispatcherModel, InputDispatcher};
use crate::retry::{RETRY_DELAY, earlier, earlier_of};
use crate::route::{HidppSessionId, PhysicalDeviceKey};
use crate::spaces::{ActiveSpaceTransition, SpaceSwipeFrame, cancelled, others};
use crate::value::{Assoc, Value, lemma_mapped_entries};

verus! {

/// A tracked gesture capture session.
pub type RunningSession = CaptureSession<CaptureTarget, DispatchPlan>;

/// What is tracked for one device.
pub type GestureSlot = CaptureSlot<CaptureTarget, DispatchPlan>;

/// What a [`RunningSession`] holds.
pub type GestureSession = SessionModel<TargetModel, DispatchModel>;

/// What a [`GestureSlot`] holds.
pub type GestureSlotModel = SlotModel<TargetModel, DispatchModel>;

/// What is tracked, by physical device.
pub type SlotMap = Map<Seq<char>, GestureSlotModel>;

/// The plan and the id under which an input is dispatched: those of the session
/// that runs under its epoch. A session that was asked to end keeps its frozen
/// plan, and its inputs stay admissible until its end is reported.
pub fn dispatch_context_for<'a>(
    input_session: &HidppSessionId,
    live: Option<&'a RunningSession>,
) -> (context: Option<(&'a HidppSessionId, &'a DispatchPlan)>)
    ensures
        context is Some <==> live is Some && live->0.id.epoch == input_session.epoch,
        context is Some ==> *(context->0).0 == live->0.id && *(context->0).1 == live->0.dispatch,
{
    match live {
        Some(session) => if session.owns(input_session) {
            Some((session.id(), session.dispatch()))
        } else {
            None
        },
        None => None,
    }
}

/// The sessions that should be armed. A request for exclusive access makes them
/// none, so that ordinary teardown restores every control.
pub fn wanted_sessions(requested: bool, plans: &[DeviceCapturePlan]) -> (wanted: &[DeviceCapturePlan])
    ensures
        wanted@ == wanted_plans(requested, plans@),
{
    if requested {
        slice_subrange(plans, 0, 0)
    } else {
        plans
    }
}

/// The plans that are wanted.
pub open spec fn wanted_plans(requested: bool, plans: Seq<DeviceCapturePlan>) -> Seq<
    DeviceCapturePlan,
> {
    if requested {
        Seq::empty()
    } else {
        plans
    }
}

/// A session brought in line with a wanted plan. Adopting another dispatch plan
/// moves it to that plan's configuration namespace.
pub open spec fn refreshed(session: GestureSession, wanted: Option<(TargetModel, DispatchModel)>) -> GestureSession {
    let next = session.reconciled(wanted);
    if session.action(wanted) == ReconcileAction::DispatchChanged {
        SessionModel { id: (next.dispatch.config_key, next.id.1), ..next }
    } else {
        next
    }
}

/// Bring a session in line with a wanted plan. Where it adopted another dispatch
/// plan, the id under which its inputs were dispatched so far comes back: what is
/// kept for it is to be cancelled.
pub fn reconcile_session(session: &mut RunningSession, wanted: Option<&DeviceCapturePlan>) -> (cancel:
    Option<HidppSessionId>)
    ensures
        ({
            let plan = match wanted {
                Some(plan) => Some(plan.model()),
                None => None,
            };
            &&& final(session).model() == refreshed(old(session).model(), plan)
            &&& cancel is Some <==> old(session).model().action(plan)
                == ReconcileAction::DispatchChanged
            &&& cancel is Some ==> cancel->0.model() == old(session).model().id
        }),
{
    let before: HidppSessionId = session.id.copied();
    let pair: Option<(&CaptureTarget, &DispatchPlan)> = match wanted {
        Some(plan) => Some((&plan.target, &plan.dispatch)),
        None => None,
    };
    let action: ReconcileAction = session.reconcile(pair);
    if action == ReconcileAction::DispatchChanged {
        let config_key: String = session.dispatch.config_key.clone();
        session.rekey(config_key.as_str());
        Some(before)
    } else {
        None
    }
}

/// A slot brought in line with the wanted plans.
pub open spec fn slot_refreshed(
    slot: GestureSlotModel,
    wanted: Option<(TargetModel, DispatchModel)>,
) -> GestureSlotModel {
    match slot {
        SlotModel::Running(session) => SlotModel::Running(refreshed(session, wanted)),
        SlotModel::Recovering(_) => slot,
    }
}

/// All slots brought in line with the wanted plans.
pub open spec fn slots_refreshed(slots: SlotMap, wanted: Seq<DeviceCapturePlan>) -> SlotMap {
    Map::new(
        |key: Seq<char>| slots.dom().contains(key),
        |key: Seq<char>| slot_refreshed(slots[key], plan_for(wanted, key)),
    )
}

/// A slot once devices that nobody publishes wait for no restart.
pub open spec fn slot_pruned(slot: GestureSlotModel, published: bool) -> GestureSlotModel {
    match slot {
        SlotModel::Running(_) => slot,
        SlotModel::Recovering(recovery) => SlotModel::Recovering(
            CaptureRecovery {
                restart_at: if published {
                    recovery.restart_at
                } else {
                    None
                },
                ..recovery
            },
        ),
    }
}

/// Whether nothing is left to do for the slot.
pub open spec fn is_finished(slot: GestureSlotModel) -> bool {
    slot matches SlotModel::Recovering(recovery) && recovery.empty()
}

/// The slots without those for which nothing is left to do.
pub open spec fn slots_pruned(slots: SlotMap, published: Seq<DeviceCapturePlan>) -> SlotMap {
    Map::new(
        |key: Seq<char>|
            slots.dom().contains(key) && !is_finished(
                slot_pruned(slots[key], plan_for(published, key) is Some),
            ),
        |key: Seq<char>| slot_pruned(slots[key], plan_for(published, key) is Some),
    )
}

/// Whether a restore that a slot owes may be tried.
pub open spec fn owes_by(slot: GestureSlotModel, now: u64) -> bool {
    slot.owed() matches Some(pending) && pending.retry_at <= now
}

/// Whether a session has to be armed for a device: none runs, and nothing keeps
/// a successor waiting.
pub open spec fn needs_session(slots: SlotMap, key: Seq<char>, now: u64) -> bool {
    slots.dom().contains(key) ==> (slots[key] matches SlotModel::Recovering(recovery)
        && !recovery.blocks(now))
}

/// Whether a plan is the first whose device has to be armed.
pub open spec fn is_next_to_arm(
    slots: SlotMap,
    published: Seq<DeviceCapturePlan>,
    now: u64,
    at: int,
) -> bool {
    &&& 0 <= at < published.len()
    &&& needs_session(slots, published[at].target.physical_key.model(), now)
    &&& forall|j: int|
        0 <= j < at ==> !needs_session(
            slots,
            (#[trigger] published[j]).target.physical_key.model(),
            now,
        )
}

/// Whether no plan's device has to be armed.
pub open spec fn nothing_to_arm(slots: SlotMap, published: Seq<DeviceCapturePlan>, now: u64) -> bool {
    forall|j: int|
        0 <= j < published.len() ==> !needs_session(
            slots,
            (#[trigger] published[j]).target.physical_key.model(),
            now,
        )
}

/// When a slot has something to do next.
pub open spec fn slot_due(slot: GestureSlotModel) -> Option<u64> {
    match slot {
        SlotModel::Running(_) => None,
        SlotModel::Recovering(recovery) => recovery.due(),
    }
}

/// When some slot has something to do next.
pub open spec fn entries_due(entries: Seq<(PhysicalDeviceKey, GestureSlot)>) -> Option<u64>
    decreases entries.len(),
{
    if entries.len() == 0 {
        None
    } else {
        earlier(entries_due(entries.drop_last()), slot_due(entries.last().1.model()))
    }
}

/// What a reconcile asks for before successors are armed.
#[derive(Debug)]
pub struct ReconcileStep {
    /// Sessions that adopted another plan. What the outputs have under way for
    /// them is cancelled; what the dispatcher kept is forgotten already.
    pub cancelled: Vec<HidppSessionId>,
    /// Frames that close the Space transitions of those sessions.
    pub frames: Vec<SpaceSwipeFrame>,
    /// Whether restores are due, for which a receiver lease is needed.
    pub restores_due: bool,
}

/// The ids whose sessions adopt another dispatch plan.
pub open spec fn readopted(
    entries: Seq<(PhysicalDeviceKey, GestureSlot)>,
    wanted: Seq<DeviceCapturePlan>,
) -> Seq<(Seq<char>, u64)>
    decreases entries.len(),
{
    if entries.len() == 0 {
        Seq::empty()
    } else {
        let before = readopted(entries.drop_last(), wanted);
        let (key, slot) = entries.last();
        match slot.model() {
            SlotModel::Running(session) if session.action(plan_for(wanted, key.model()))
                == ReconcileAction::DispatchChanged => before.push(session.id),
            _ => before,
        }
    }
}

/// The ids' models.
pub open spec fn id_models(ids: Seq<HidppSessionId>) -> Seq<(Seq<char>, u64)> {
    Seq::new(ids.len(), |i: int| ids[i].model())
}

/// A dispatcher without anything of some sessions.
pub open spec fn forgets_all(dispatcher: DispatcherModel, ids: Seq<(Seq<char>, u64)>) -> DispatcherModel
    decreases ids.len(),
{
    if ids.len() == 0 {
        dispatcher
    } else {
        forgets_all(dispatcher.forgets(ids[0]), ids.skip(1))
    }
}

/// The frames that close the Space transitions of some sessions.
pub open spec fn closing_frames(
    open: Seq<((HidppSessionId, ButtonId), ActiveSpaceTransition)>,
    ids: Seq<(Seq<char>, u64)>,
) -> Seq<SpaceSwipeFrame>
    decreases ids.len(),
{
    if ids.len() == 0 {
        Seq::empty()
    } else {
        cancelled(open, ids[0]) + closing_frames(others(open, ids[0]), ids.skip(1))
    }
}

/// The session that arming a plan under an epoch tracks.
pub open spec fn fresh_session(plan: DeviceCapturePlan, epoch: u64) -> GestureSlotModel {
    SlotModel::Running(
        SessionModel {
            id: (plan.dispatch.config_key@, epoch),
            target: plan.target.model(),
            dispatch: plan.dispatch.model(),
            active: true,
        },
    )
}

/// The wait of a device for which no receiver lease could be had.
pub open spec fn awaiting_lease(now: u64) -> GestureSlotModel {
    SlotModel::Recovering(
        CaptureRecovery { pending_restore: None, restart_at: Some((now + RETRY_DELAY) as u64) },
    )
}

/// The slots once a plan had its turn: a device that has to be armed gets a
/// session where a lease was granted, or else a retry.
pub open spec fn slot_armed(
    slots: SlotMap,
    plan: DeviceCapturePlan,
    granted: bool,
    epoch: u64,
    now: u64,
) -> SlotMap {
    let key = plan.target.physical_key.model();
    if !needs_session(slots, key, now) {
        slots
    } else if granted {
        slots.insert(key, fresh_session(plan, epoch))
    } else {
        slots.insert(key, awaiting_lease(now))
    }
}

/// The slots once every plan had its turn, in order, each with its own answer to
/// a request for a lease, and its own epoch.
pub open spec fn slots_armed(
    slots: SlotMap,
    plans: Seq<DeviceCapturePlan>,
    leases: Seq<bool>,
    first_epoch: u64,
    now: u64,
) -> SlotMap
    decreases plans.len(),
{
    if plans.len() == 0 {
        slots
    } else {
        slot_armed(
            slots_armed(slots, plans.drop_last(), leases, first_epoch, now),
            plans.last(),
            leases[plans.len() - 1],
            (first_epoch + (plans.len() - 1)) as u64,
            now,
        )
    }
}

/// The plans for which a session starts when every plan has its turn.
pub open spec fn started_plans(
    slots: SlotMap,
    plans: Seq<DeviceCapturePlan>,
    leases: Seq<bool>,
    first_epoch: u64,
    now: u64,
) -> Seq<int>
    decreases plans.len(),
{
    if plans.len() == 0 {
        Seq::empty()
    } else {
        let before = started_plans(slots, plans.drop_last(), leases, first_epoch, now);
        let so_far = slots_armed(slots, plans.drop_last(), leases, first_epoch, now);
        if needs_session(so_far, plans.last().target.physical_key.model(), now)
            && leases[plans.len() - 1] {
            before.push(plans.len() - 1)
        } else {
            before
        }
    }
}

/// What arming one plan came to.
#[derive(Debug)]
pub struct Armed {
    /// Where the plan stands among the published ones.
    pub plan: usize,
    /// The session that now runs for it. `None` where the lease was refused.
    pub session: Option<HidppSessionId>,
}

/// Whether any session still runs.
pub open spec fn any_running(slots: SlotMap) -> bool {
    exists|key: Seq<char>| #[trigger] slots.dom().contains(key) && slots[key] is Running
}

/// Whether any finished session still owes the firmware a restore.
pub open spec fn any_owed(slots: SlotMap) -> bool {
    exists|key: Seq<char>| #[trigger] slots.dom().contains(key) && slots[key].owed() is Some
}

/// What a manager that is shutting down does next.
#[derive(Clone, Copy, Debug, PartialEq, Eq, Structural)]
pub enum DrainStep {
    /// Wait for a session's report.
    AwaitSession,
    /// Wait until device I/O is on again.
    AwaitDeviceIo,
    /// Restore what is owed. Where something stays owed, wait for the retry delay
    /// and make it due again.
    Restore,
    /// Everything is given back.
    Finish,
}

/// What a manager that is shutting down does next. Without reports to come there
/// is no session to wait for.
pub open spec fn drain_step(slots: SlotMap, events_open: bool, device_io_allowed: bool) -> DrainStep {
    if events_open && any_running(slots) {
        DrainStep::AwaitSession
    } else if !any_owed(slots) {
        DrainStep::Finish
    } else if device_io_allowed {
        DrainStep::Restore
    } else {
        DrainStep::AwaitDeviceIo
    }
}

/// A manager finishes only once nothing is owed to the firmware, and touches the
/// hardware only while device I/O is on.
pub proof fn draining_gives_everything_back(
    slots: SlotMap,
    events_open: bool,
    device_io_allowed: bool,
)
    ensures
        ({
            let step = drain_step(slots, events_open, device_io_allowed);
            &&& step == DrainStep::Finish ==> !any_owed(slots) && !(events_open && any_running(
                slots,
            ))
            &&& step == DrainStep::Restore ==> device_io_allowed
        }),
{
}

/// The receiver lease for a session or a restore.
#[derive(Clone, Copy, Debug, PartialEq, Eq, Structural)]
pub enum SessionLease {
    /// The lease that other sessions hold already.
    Shared,
    /// A lease of its own, which others can share.
    Fresh,
    /// The receiver is wanted elsewhere.
    Refused,
}

/// Get a receiver lease. All sessions share one: another is asked for, with
/// `granted` as the answer, only where none is held.
pub fn acquire_session_lease(held: bool, granted: bool) -> (lease: SessionLease)
    ensures
        lease == (if held {
            SessionLease::Shared
        } else if granted {
            SessionLease::Fresh
        } else {
            SessionLease::Refused
        }),
{
    if held {
        SessionLease::Shared
    } else if granted {
        SessionLease::Fresh
    } else {
        SessionLease::Refused
    }
}

/// A session's report.
#[derive(Debug)]
pub struct SessionDone {
    pub physical_key: PhysicalDeviceKey,
    pub session: HidppSessionId,
    /// The number of a restore that the session could not finish.
    pub pending_restore: Option<u64>,
}

/// What the end of a session came to.
#[derive(Debug)]
pub struct DoneOutcome {
    /// The session under which its inputs were dispatched, whose state is
    /// cancelled.
    pub ended: Option<HidppSessionId>,
    /// It was not asked to end.
    pub unexpected: bool,
}

/// The sessions that a gesture manager tracks.
#[derive(Debug)]
pub struct GestureManagerState {
    pub slots: Assoc<PhysicalDeviceKey, GestureSlot>,
    pub input_dispatcher: InputDispatcher,
}

impl GestureManagerState {
    pub open spec fn wf(self) -> bool {
        self.slots.distinct() && self.input_dispatcher.wf()
    }

    pub fn new() -> (state: GestureManagerState)
        ensures
            state.wf(),
            state.slots@ == Map::<Seq<char>, GestureSlotModel>::empty(),
            state.input_dispatcher@ == (DispatcherModel {
                wheels: Map::empty(),
                presses: Map::empty(),
                spaces: Map::empty(),
            }),
    {
        GestureManagerState { slots: Assoc::new(), input_dispatcher: InputDispatcher::new() }
    }

    /// When recovery work can next make progress. Never while the receiver is
    /// wanted elsewhere or device I/O is off.
    pub fn deadline(&self, requested: bool, device_io_allowed: bool) -> (deadline: Option<u64>)
        ensures
            deadline == (if requested || !device_io_allowed {
                None
            } else {
                entries_due(self.slots.entries@)
            }),
    {
        if requested || !device_io_allowed {
            return None;
        }
        let mut deadline: Option<u64> = None;
        let mut i: usize = 0;
        while i < self.slots.entries.len()
            invariant
                i <= self.slots.entries@.len(),
                deadline == entries_due(self.slots.entries@.take(i as int)),
            decreases self.slots.entries@.len() - i,
        {
            let own: Option<u64> = match self.slots.entries[i].1.recovery() {
                Some(recovery) => recovery.next_deadline(),
                None => None,
            };
            proof {
                let all = self.slots.entries@;
                assert(all.take(i + 1).drop_last() =~= all.take(i as int));
                assert(all.take(i + 1).last() == all[i as int]);
            }
            deadline = earlier_of(deadline, own);
            i = i + 1;
        }
        assert(self.slots.entries@.take(i as int) =~= self.slots.entries@);
        deadline
    }

    /// Whether any finished session still owes the firmware a restore.
    pub fn has_pending_restores(&self) -> (pending: bool)
        requires
            self.slots.distinct(),
        ensures
            pending == any_owed(self.slots@),
    {
        let mut i: usize = 0;
        while i < self.slots.entries.len()
            invariant
                i <= self.slots.entries@.len(),
                self.slots.distinct(),
                forall|j: int|
                    0 <= j < i ==> (#[trigger] self.slots.entries@[j]).1.model().owed() is None,
            decreases self.slots.entries@.len() - i,
        {
            if let Some(recovery) = self.slots.entries[i].1.recovery() {
                if recovery.pending_restore.is_some() {
                    proof {
                        self.slots.lemma_entry(i as int);
                    }
                    return true;
                }
            }
            i = i + 1;
        }
        proof {
            assert forall|key: Seq<char>| #[trigger]
                self.slots@.dom().contains(key) implies self.slots@[key].owed() is None by {
                let at = self.slots.lemma_key(key);
                self.slots.lemma_entry(at);
            }
        }
        false
    }

    /// Make every owed restore due now.
    pub fn expedite_pending_restores(&mut self, now: u64)
        requires
            old(self).slots.distinct(),
        ensures
            final(self).slots@ == expedited(old(self).slots@, now),
            final(self).slots.distinct(),
            final(self).input_dispatcher == old(self).input_dispatcher,
    {
        let mut i: usize = 0;
        while i < self.slots.entries.len()
            invariant
                i <= self.slots.entries@.len() == old(self).slots.entries@.len(),
                self.input_dispatcher == old(self).input_dispatcher,
                forall|j: int|
                    0 <= j < self.slots.entries@.len() ==> (
                    #[trigger] self.slots.entries@[j]).0 == old(self).slots.entries@[j].0,
                forall|j: int|
                    0 <= j < i ==> (#[trigger] self.slots.entries@[j]).1.model() == slot_expedited(
                        old(self).slots.entries@[j].1.model(),
                        now,
                    ),
                forall|j: int|
                    i <= j < self.slots.entries@.len() ==> #[trigger] self.slots.entries@[j] == old(
                        self,
                    ).slots.entries@[j],
            decreases self.slots.entries@.len() - i,
        {
            if let Some(recovery) = self.slots.entries[i].1.recovery() {
                if let Some(pending) = recovery.pending_restore {
                    self.slots.entries[i].1 = CaptureSlot::Recovering(
                        CaptureRecovery {
                            pending_restore: Some(
                                PendingRestore { token: pending.token, retry_at: now },
                            ),
                            restart_at: recovery.restart_at,
                        },
                    );
                }
            }
            i = i + 1;
        }
        proof {
            let after = expedited(old(self).slots@, now);
            lemma_mapped_entries(
                old(self).slots,
                self.slots,
                |key: Seq<char>, slot: GestureSlotModel| slot_expedited(slot, now),
            );
            assert(self.slots@ =~= after);
        }
    }

    /// Bring the tracked sessions in line with what is published.
    ///
    /// While device I/O is off nothing is touched: retiring a session would write
    /// to the device. Otherwise sessions adopt their plans or retire, and slots
    /// for which nothing is left to do go. Whatever a session that adopted another
    /// plan had under way is forgotten. Restores and successors follow, as far as
    /// leases can be had: [`Self::due_restores`], [`Self::next_to_arm`].
    pub fn reconcile(
        &mut self,
        requested: bool,
        device_io_allowed: bool,
        published: &Vec<DeviceCapturePlan>,
        now: u64,
    ) -> (step: ReconcileStep)
        requires
            old(self).wf(),
        ensures
            final(self).wf(),
            !device_io_allowed ==> *final(self) == *old(self) && step.cancelled@.len() == 0
                && step.frames@.len() == 0 && !step.restores_due,
            device_io_allowed ==> ({
                let wanted = wanted_plans(requested, published@);
                &&& final(self).slots@ == slots_pruned(
                    slots_refreshed(old(self).slots@, wanted),
                    published@,
                )
                &&& id_models(step.cancelled@) == readopted(old(self).slots.entries@, wanted)
                &&& final(self).input_dispatcher@ == forgets_all(
                    old(self).input_dispatcher@,
                    readopted(old(self).slots.entries@, wanted),
                )
                &&& step.frames@ == closing_frames(
                    old(self).input_dispatcher.space_transitions.active.entries@,
                    readopted(old(self).slots.entries@, wanted),
                )
                &&& step.restores_due == (exists|key: Seq<char>| #[trigger]
                    final(self).slots@.dom().contains(key) && owes_by(
                        final(self).slots@[key],
                        now,
                    ))
            }),
    {
        if !device_io_allowed {
            return ReconcileStep {
                cancelled: Vec::new(),
                frames: Vec::new(),
                restores_due: false,
            };
        }
        let none: Vec<DeviceCapturePlan> = Vec::new();
        let wanted: &Vec<DeviceCapturePlan> = if requested { &none } else { published };
        assert(wanted@ =~= wanted_plans(requested, published@));
        let cancelled: Vec<HidppSessionId> = self.refresh(wanted);
        let frames: Vec<SpaceSwipeFrame> = self.forget(&cancelled);
        self.prune(published);
        let restores_due: bool = self.restore_due(now);
        ReconcileStep { cancelled, frames, restores_due }
    }

    fn forget(&mut self, ids: &Vec<HidppSessionId>) -> (frames: Vec<SpaceSwipeFrame>)
        requires
            old(self).wf(),
        ensures
            final(self).wf(),
            final(self).slots == old(self).slots,
            final(self).input_dispatcher@ == forgets_all(
                old(self).input_dispatcher@,
                id_models(ids@),
            ),
            frames@ == closing_frames(
                old(self).input_dispatcher.space_transitions.active.entries@,
                id_models(ids@),
            ),
    {
        let ghost models = id_models(ids@);
        let ghost whole = forgets_all(self.input_dispatcher@, models);
        let ghost all = closing_frames(
            self.input_dispatcher.space_transitions.active.entries@,
            models,
        );
        let mut frames: Vec<SpaceSwipeFrame> = Vec::new();
        let mut i: usize = 0;
        assert(models.skip(0) =~= models);
        assert(frames@ + all =~= all);
        while i < ids.len()
            invariant
                i <= ids@.len(),
                self.wf(),
                self.slots == old(self).slots,
                models == id_models(ids@),
                whole == forgets_all(self.input_dispatcher@, models.skip(i as int)),
                all == frames@ + closing_frames(
                    self.input_dispatcher.space_transitions.active.entries@,
                    models.skip(i as int),
                ),
            decreases ids@.len() - i,
        {
            let ghost before = frames@;
            let ghost open = self.input_dispatcher.space_transitions.active.entries@;
            proof {
                assert(models.skip(i as int)[0] == ids@[i as int].model());
                assert(models.skip(i as int).skip(1) =~= models.skip(i + 1));
            }
            let mut closed: Vec<SpaceSwipeFrame> = self.input_dispatcher.cancel_session(&ids[i]);
            frames.append(&mut closed);
            proof {
                let rest = closing_frames(others(open, ids@[i as int].model()), models.skip(i + 1));
                let own = cancelled(open, ids@[i as int].model());
                assert(before + (own + rest) =~= (before + own) + rest);
            }
            i = i + 1;
        }
        assert(models.skip(i as int).len() == 0);
        assert(frames@ + Seq::<SpaceSwipeFrame>::empty() =~= frames@);
        frames
    }

    fn refresh(&mut self, wanted: &Vec<DeviceCapturePlan>) -> (cancelled: Vec<HidppSessionId>)
        requires
            old(self).wf(),
        ensures
            final(self).wf(),
            final(self).slots@ == slots_refreshed(old(self).slots@, wanted@),
            final(self).input_dispatcher == old(self).input_dispatcher,
            id_models(cancelled@) == readopted(old(self).slots.entries@, wanted@),
    {
        let mut cancelled: Vec<HidppSessionId> = Vec::new();
        let mut i: usize = 0;
        assert(id_models(cancelled@) =~= readopted(old(self).slots.entries@.take(0), wanted@));
        while i < self.slots.entries.len()
            invariant
                i <= self.slots.entries@.len() == old(self).slots.entries@.len(),
                self.input_dispatcher == old(self).input_dispatcher,
                id_models(cancelled@) == readopted(
                    old(self).slots.entries@.take(i as int),
                    wanted@,
                ),
                forall|j: int|
                    0 <= j < self.slots.entries@.len() ==> (
                    #[trigger] self.slots.entries@[j]).0 == old(self).slots.entries@[j].0,
                forall|j: int|
                    0 <= j < i ==> (#[trigger] self.slots.entries@[j]).1.model() == slot_refreshed(
                        old(self).slots.entries@[j].1.model(),
                        plan_for(wanted@, old(self).slots.entries@[j].0.model()),
                    ),
                forall|j: int|
                    i <= j < self.slots.entries@.len() ==> #[trigger] self.slots.entries@[j] == old(
                        self,
                    ).slots.entries@[j],
            decreases self.slots.entries@.len() - i,
        {
            proof {
                let all = old(self).slots.entries@;
                assert(all.take(i + 1).drop_last() =~= all.take(i as int));
                assert(all.take(i + 1).last() == all[i as int]);
                assert(self.slots.entries@[i as int] == all[i as int]);
            }
            let found: Option<usize> = find_plan(wanted, &self.slots.entries[i].0);
            let plan: Option<&DeviceCapturePlan> = match found {
                Some(at) => Some(&wanted[at]),
                None => None,
            };
            let ghost before = cancelled@;
            match &mut self.slots.entries[i].1 {
                CaptureSlot::Running(session) => {
                    if let Some(id) = reconcile_session(session, plan) {
                        cancelled.push(id);
                        assert(id_models(cancelled@) =~= id_models(before).push(id.model()));
                    }
                },
                CaptureSlot::Recovering(_) => {},
            }
            i = i + 1;
        }
        proof {
            assert(old(self).slots.entries@.take(i as int) =~= old(self).slots.entries@);
            lemma_mapped_entries(
                old(self).slots,
                self.slots,
                |key: Seq<char>, slot: GestureSlotModel| slot_refreshed(slot, plan_for(wanted@, key)),
            );
            assert(self.slots@ =~= slots_refreshed(old(self).slots@, wanted@));
        }
        cancelled
    }

    fn prune(&mut self, published: &Vec<DeviceCapturePlan>)
        requires
            old(self).wf(),
        ensures
            final(self).wf(),
            final(self).slots@ == slots_pruned(old(self).slots@, published@),
            final(self).input_dispatcher == old(self).input_dispatcher,
    {
        let ghost all = self.slots.entries@;
        let mut i: usize = 0;
        let ghost mut seen: int = 0;
        assert(all.skip(0) =~= all);
        while i < self.slots.entries.len()
            invariant
                self.slots.distinct(),
                self.input_dispatcher == old(self).input_dispatcher,
                all == old(self).slots.entries@,
                old(self).slots.distinct(),
                0 <= seen <= all.len(),
                i <= self.slots.entries@.len(),
                self.slots.entries@.skip(i as int) == all.skip(seen),
                forall|j: int|
                    0 <= j < i ==> kept_entry(
                        all.take(seen),
                        #[trigger] self.slots.entries@[j],
                        published@,
                    ),
                forall|n: int|
                    0 <= n < seen ==> entry_kept(
                        #[trigger] all[n],
                        self.slots.entries@.take(i as int),
                        published@,
                    ),
            decreases self.slots.entries@.len() - i,
        {
            proof {
                let rest = self.slots.entries@.skip(i as int);
                assert(rest.len() == self.slots.entries@.len() - i);
                assert(all.skip(seen).len() == all.len() - seen);
                assert(rest[0] == self.slots.entries@[i as int]);
                assert(all.skip(seen)[0] == all[seen]);
                assert(rest.skip(1) =~= self.slots.entries@.skip(i + 1));
                assert(all.skip(seen).skip(1) =~= all.skip(seen + 1));
            }
            let ghost before = self.slots.entries@;
            let is_published: bool = find_plan(published, &self.slots.entries[i].0).is_some();
            let recovery: Option<CaptureRecovery> = self.slots.entries[i].1.recovery();
            let mut finished: bool = false;
            if let Some(recovery) = recovery {
                let left: CaptureRecovery = CaptureRecovery {
                    pending_restore: recovery.pending_restore,
                    restart_at: if is_published { recovery.restart_at } else { None },
                };
                if left.is_empty() {
                    finished = true;
                } else {
                    self.slots.entries[i].1 = CaptureSlot::Recovering(left);
                }
            }
            if finished {
                let _ = self.slots.entries.remove(i);
                proof {
                    assert(self.slots.entries@.skip(i as int) =~= before.skip(i + 1));
                    assert(self.slots.entries@.take(i as int) =~= before.take(i as int));
                    assert forall|j: int| 0 <= j < i implies kept_entry(
                        all.take(seen + 1),
                        #[trigger] self.slots.entries@[j],
                        published@,
                    ) by {
                        assert(self.slots.entries@[j] == before[j]);
                        lemma_kept_grows(all, seen, before[j], published@);
                    }
                    assert(entry_kept(
                        all[seen],
                        self.slots.entries@.take(i as int),
                        published@,
                    ));
                }
            } else {
                proof {
                    let after = self.slots.entries@;
                    assert(after.skip(i + 1) =~= before.skip(i + 1));
                    assert(after[i as int].0 == all[seen].0);
                    assert(after[i as int].1.model() == slot_pruned(
                        all[seen].1.model(),
                        plan_for(published@, all[seen].0.model()) is Some,
                    ));
                    assert forall|j: int| 0 <= j < i + 1 implies kept_entry(
                        all.take(seen + 1),
                        #[trigger] after[j],
                        published@,
                    ) by {
                        if j < i {
                            assert(after[j] == before[j]);
                            lemma_kept_grows(all, seen, before[j], published@);
                        } else {
                            assert(all.take(seen + 1)[seen] == all[seen]);
                        }
                    }
                    assert forall|n: int| 0 <= n < seen + 1 implies entry_kept(
                        #[trigger] all[n],
                        after.take(i + 1),
                        published@,
                    ) by {
                        if n < seen {
                            assert(entry_kept(all[n], before.take(i as int), published@));
                            lemma_entry_kept_grows(all[n], before, after, i as int, published@);
                        } else {
                            assert(after.take(i + 1)[i as int] == after[i as int]);
                        }
                    }
                }
                i = i + 1;
            }
            proof {
                seen = seen + 1;
            }
        }
        proof {
            assert(all.skip(seen).len() == 0);
            assert(all.take(seen) =~= all);
            assert(self.slots.entries@.take(i as int) =~= self.slots.entries@);
            let after = slots_pruned(old(self).slots@, published@);
            assert forall|key: Seq<char>| #[trigger] self.slots@.dom().contains(key)
                <==> after.dom().contains(key) by {
                if self.slots@.dom().contains(key) {
                    let at = self.slots.lemma_key(key);
                    self.slots.lemma_entry(at);
                    let entry = self.slots.entries@[at];
                    assert(kept_entry(all, entry, published@));
                    let n = choose|n: int|
                        0 <= n < all.len() && came_from(#[trigger] all[n], entry, published@);
                    old(self).slots.lemma_entry(n);
                }
                if after.dom().contains(key) {
                    let n = old(self).slots.lemma_key(key);
                    old(self).slots.lemma_entry(n);
                    assert(entry_kept(all[n], self.slots.entries@, published@));
                    let j = choose|j: int|
                        0 <= j < self.slots.entries@.len() && came_from(
                            all[n],
                            #[trigger] self.slots.entries@[j],
                            published@,
                        );
                    self.slots.lemma_entry(j);
                }
            }
            assert forall|key: Seq<char>| self.slots@.dom().contains(key) implies
                #[trigger] self.slots@[key] == after[key] by {
                let at = self.slots.lemma_key(key);
                self.slots.lemma_entry(at);
                let entry = self.slots.entries@[at];
                assert(kept_entry(all, entry, published@));
                let n = choose|n: int|
                    0 <= n < all.len() && came_from(#[trigger] all[n], entry, published@);
                old(self).slots.lemma_entry(n);
            }
            assert(self.slots@ =~= after);
        }
    }

    fn restore_due(&self, now: u64) -> (due: bool)
        requires
            self.slots.distinct(),
        ensures
            due == (exists|key: Seq<char>| #[trigger]
                self.slots@.dom().contains(key) && owes_by(self.slots@[key], now)),
    {
        let mut i: usize = 0;
        while i < self.slots.entries.len()
            invariant
                i <= self.slots.entries@.len(),
                self.slots.distinct(),
                forall|j: int|
                    0 <= j < i ==> !owes_by((#[trigger] self.slots.entries@[j]).1.model(), now),
            decreases self.slots.entries@.len() - i,
        {
            if let Some(recovery) = self.slots.entries[i].1.recovery() {
                if let Some(pending) = recovery.pending_restore {
                    if pending.retry_at <= now {
                        proof {
                            self.slots.lemma_entry(i as int);
                        }
                        return true;
                    }
                }
            }
            i = i + 1;
        }
        proof {
            assert forall|key: Seq<char>| #[trigger]
                self.slots@.dom().contains(key) implies !owes_by(self.slots@[key], now) by {
                let at = self.slots.lemma_key(key);
                self.slots.lemma_entry(at);
            }
        }
        false
    }

    /// The devices whose restores are due, each once, with its restore's number.
    pub fn due_restores(&self, now: u64) -> (due: Vec<(PhysicalDeviceKey, u64)>)
        requires
            self.slots.distinct(),
        ensures
            forall|i: int|
                0 <= i < due@.len() ==> ({
                    let (key, token) = #[trigger] due@[i];
                    &&& self.slots@.dom().contains(key.model())
                    &&& owes_by(self.slots@[key.model()], now)
                    &&& self.slots@[key.model()].owed()->0.token == token
                }),
            forall|key: Seq<char>| #[trigger]
                self.slots@.dom().contains(key) && owes_by(self.slots@[key], now) ==> exists|i: int|
                    0 <= i < due@.len() && (#[trigger] due@[i]).0.model() == key,
            forall|i: int, j: int|
                0 <= i < j < due@.len() ==> (#[trigger] due@[i]).0.model() != (
                #[trigger] due@[j]).0.model(),
    {
        let ghost mut from: Seq<int> = Seq::empty();
        let mut due: Vec<(PhysicalDeviceKey, u64)> = Vec::new();
        let mut i: usize = 0;
        while i < self.slots.entries.len()
            invariant
                i <= self.slots.entries@.len(),
                self.slots.distinct(),
                forall|k: int|
                    0 <= k < due@.len() ==> ({
                        let (key, token) = #[trigger] due@[k];
                        &&& self.slots@.dom().contains(key.model())
                        &&& owes_by(self.slots@[key.model()], now)
                        &&& self.slots@[key.model()].owed()->0.token == token
                    }),
                forall|j: int|
                    0 <= j < i && owes_by((#[trigger] self.slots.entries@[j]).1.model(), now)
                        ==> listed(due@, self.slots.entries@[j].0.model()),
                from.len() == due@.len(),
                forall|k: int|
                    0 <= k < from.len() ==> 0 <= #[trigger] from[k] < i
                        && self.slots.entries@[from[k]].0.model() == due@[k].0.model(),
                forall|k: int, n: int| 0 <= k < n < from.len() ==> #[trigger] from[k] < #[trigger] from[n],
            decreases self.slots.entries@.len() - i,
        {
            proof {
                self.slots.lemma_entry(i as int);
            }
            let ghost before = due@;
            if let Some(recovery) = self.slots.entries[i].1.recovery() {
                if let Some(pending) = recovery.pending_restore {
                    if pending.retry_at <= now {
                        due.push((self.slots.entries[i].0.copied(), pending.token));
                        proof {
                            from = from.push(i as int);
                        }
                        assert(due@[before.len() as int].0.model()
                            == self.slots.entries@[i as int].0.model());
                        assert(listed(due@, self.slots.entries@[i as int].0.model()));
                    }
                }
            }
            proof {
                assert forall|j: int|
                    0 <= j < i + 1 && owes_by(
                        (#[trigger] self.slots.entries@[j]).1.model(),
                        now,
                    ) implies listed(due@, self.slots.entries@[j].0.model()) by {
                    if j < i {
                        let k = choose|k: int|
                            0 <= k < before.len() && (#[trigger] before[k]).0.model()
                                == self.slots.entries@[j].0.model();
                        assert(due@[k] == before[k]);
                    }
                }
            }
            i = i + 1;
        }
        proof {
            assert forall|key: Seq<char>| #[trigger]
                self.slots@.dom().contains(key) && owes_by(self.slots@[key], now) implies exists|
                i: int,
            |
                0 <= i < due@.len() && (#[trigger] due@[i]).0.model() == key by {
                let at = self.slots.lemma_key(key);
                self.slots.lemma_entry(at);
                assert(listed(due@, self.slots.entries@[at].0.model()));
            }
            assert forall|i: int, j: int| 0 <= i < j < due@.len() implies (
            #[trigger] due@[i]).0.model() != (#[trigger] due@[j]).0.model() by {
                assert(from[i] < from[j]);
                assert(self.slots.entries@[from[i]].0.model()
                    != self.slots.entries@[from[j]].0.model());
            }
        }
        due
    }

    /// Note how a device's restore went: done, or still pending under a number.
    /// Either way the restart that was waiting for it is kept.
    pub fn restored(&mut self, key: &PhysicalDeviceKey, pending: Option<u64>, now: u64)
        requires
            old(self).wf(),
            now + RETRY_DELAY <= u64::MAX,
        ensures
            final(self).wf(),
            final(self).input_dispatcher == old(self).input_dispatcher,
            final(self).slots@ == after_restore(old(self).slots@, key.model(), pending, now),
    {
        let recovery: Option<CaptureRecovery> = match self.slots.get(key) {
            Some(slot) => slot.recovery(),
            None => None,
        };
        if let Some(recovery) = recovery {
            let left: CaptureRecovery = CaptureRecovery {
                pending_restore: match pending {
                    Some(token) => Some(PendingRestore { token, retry_at: now + RETRY_DELAY }),
                    None => None,
                },
                restart_at: recovery.restart_at,
            };
            if left.is_empty() {
                let _ = self.slots.remove(key);
            } else {
                self.slots.insert(key.copied(), CaptureSlot::Recovering(left));
            }
        }
    }

    fn needs(&self, key: &PhysicalDeviceKey, now: u64) -> (needs: bool)
        ensures
            needs == needs_session(self.slots@, key.model(), now),
    {
        match self.slots.get(key) {
            Some(slot) => match slot.recovery() {
                Some(recovery) => !recovery.blocks_restart(now),
                None => false,
            },
            None => true,
        }
    }

    /// The first published plan whose device has to be armed: none runs for it, and
    /// nothing keeps a successor waiting. None at all while the receiver is wanted
    /// for exclusive access, or device I/O is off.
    pub fn next_to_arm(
        &self,
        requested: bool,
        device_io_allowed: bool,
        published: &Vec<DeviceCapturePlan>,
        now: u64,
    ) -> (at: Option<usize>)
        ensures
            at matches Some(i) ==> device_io_allowed && !requested && is_next_to_arm(
                self.slots@,
                published@,
                now,
                i as int,
            ),
            at is None ==> !device_io_allowed || requested || nothing_to_arm(
                self.slots@,
                published@,
                now,
            ),
    {
        if requested || !device_io_allowed {
            return None;
        }
        let mut i: usize = 0;
        while i < published.len()
            invariant
                i <= published@.len(),
                device_io_allowed && !requested,
                forall|j: int|
                    0 <= j < i ==> !needs_session(
                        self.slots@,
                        (#[trigger] published@[j]).target.physical_key.model(),
                        now,
                    ),
            decreases published@.len() - i,
        {
            if self.needs(&published[i].target.physical_key, now) {
                return Some(i);
            }
            i = i + 1;
        }
        None
    }

    fn arm(&mut self, plan: &DeviceCapturePlan, granted: bool, epoch: u64, now: u64) -> (id: Option<
        HidppSessionId,
    >)
        requires
            old(self).wf(),
            needs_session(old(self).slots@, plan.target.physical_key.model(), now),
            now + RETRY_DELAY <= u64::MAX,
        ensures
            final(self).wf(),
            final(self).input_dispatcher == old(self).input_dispatcher,
            final(self).slots@ == slot_armed(old(self).slots@, *plan, granted, epoch, now),
            id is Some <==> granted,
            id is Some ==> id->0.model() == (plan.dispatch.config_key@, epoch),
    {
        if granted {
            let id: HidppSessionId = HidppSessionId::with_epoch(
                plan.dispatch.config_key.as_str(),
                epoch,
            );
            let session: RunningSession = CaptureSession::active(
                id.copied(),
                plan.target.copied(),
                plan.dispatch.copied(),
            );
            self.slots.insert(plan.target.physical_key.copied(), CaptureSlot::Running(session));
            Some(id)
        } else {
            self.slots.insert(
                plan.target.physical_key.copied(),
                CaptureSlot::Recovering(
                    CaptureRecovery { pending_restore: None, restart_at: Some(now + RETRY_DELAY) },
                ),
            );
            None
        }
    }

    /// Arm the device of [`Self::next_to_arm`], for which a receiver lease was
    /// asked: `granted` is the answer. A session is tracked under the epoch, or the
    /// device waits for another try. `None` where nothing is to be armed.
    pub fn arm_next(
        &mut self,
        requested: bool,
        device_io_allowed: bool,
        published: &Vec<DeviceCapturePlan>,
        granted: bool,
        epoch: u64,
        now: u64,
    ) -> (armed: Option<Armed>)
        requires
            old(self).wf(),
            now + RETRY_DELAY <= u64::MAX,
        ensures
            final(self).wf(),
            final(self).input_dispatcher == old(self).input_dispatcher,
            armed matches Some(armed) ==> {
                let plan = published@[armed.plan as int];
                &&& device_io_allowed && !requested
                &&& is_next_to_arm(old(self).slots@, published@, now, armed.plan as int)
                &&& final(self).slots@ == slot_armed(old(self).slots@, plan, granted, epoch, now)
                &&& armed.session is Some <==> granted
                &&& armed.session is Some ==> armed.session->0.model() == (
                    plan.dispatch.config_key@,
                    epoch,
                )
            },
            armed is None ==> *final(self) == *old(self) && (!device_io_allowed || requested
                || nothing_to_arm(old(self).slots@, published@, now)),
    {
        match self.next_to_arm(requested, device_io_allowed, published, now) {
            Some(at) => {
                let session: Option<HidppSessionId> = self.arm(&published[at], granted, epoch, now);
                Some(Armed { plan: at, session })
            },
            None => None,
        }
    }

    /// Give every published plan its turn, where an exclusive request or a closed
    /// device-I/O gate does not forbid it. A device with a session, or one that has
    /// to wait, is passed over; any other is armed where its lease is granted, and
    /// waits for another try where it is not. `leases` holds the answer for each
    /// plan, and each plan has its own epoch, counted from `first_epoch`. The plans
    /// for which a session started come back.
    pub fn arm_wanted(
        &mut self,
        requested: bool,
        device_io_allowed: bool,
        published: &Vec<DeviceCapturePlan>,
        leases: &Vec<bool>,
        first_epoch: u64,
        now: u64,
    ) -> (started: Vec<usize>)
        requires
            old(self).wf(),
            leases@.len() == published@.len(),
            now + RETRY_DELAY <= u64::MAX,
            first_epoch + published@.len() <= u64::MAX,
        ensures
            final(self).wf(),
            final(self).input_dispatcher == old(self).input_dispatcher,
            requested || !device_io_allowed ==> *final(self) == *old(self) && started@.len() == 0,
            !requested && device_io_allowed ==> {
                let plans = started_plans(
                    old(self).slots@,
                    published@,
                    leases@,
                    first_epoch,
                    now,
                );
                &&& final(self).slots@ == slots_armed(
                    old(self).slots@,
                    published@,
                    leases@,
                    first_epoch,
                    now,
                )
                &&& started@.len() == plans.len()
                &&& forall|i: int| 0 <= i < plans.len() ==> #[trigger] started@[i] == plans[i]
            },
    {
        let mut started: Vec<usize> = Vec::new();
        if requested || !device_io_allowed {
            return started;
        }
        let mut i: usize = 0;
        while i < published.len()
            invariant
                i <= published@.len() == leases@.len(),
                self.wf(),
                self.input_dispatcher == old(self).input_dispatcher,
                now + RETRY_DELAY <= u64::MAX,
                first_epoch + published@.len() <= u64::MAX,
                self.slots@ == slots_armed(
                    old(self).slots@,
                    published@.take(i as int),
                    leases@,
                    first_epoch,
                    now,
                ),
                started@.len() == started_plans(
                    old(self).slots@,
                    published@.take(i as int),
                    leases@,
                    first_epoch,
                    now,
                ).len(),
                forall|k: int|
                    0 <= k < started@.len() ==> #[trigger] started@[k] == started_plans(
                        old(self).slots@,
                        published@.take(i as int),
                        leases@,
                        first_epoch,
                        now,
                    )[k],
            decreases published@.len() - i,
        {
            proof {
                let longer = published@.take(i + 1);
                assert(longer.drop_last() =~= published@.take(i as int));
                assert(longer.last() == published@[i as int]);
            }
            if self.needs(&published[i].target.physical_key, now) {
                let epoch: u64 = first_epoch + (i as u64);
                let _ = self.arm(&published[i], leases[i], epoch, now);
                if leases[i] {
                    started.push(i);
                }
            }
            i = i + 1;
        }
        assert(published@.take(i as int) =~= published@);
        started
    }

    /// Ask every session to end, for a shutdown. What is kept for sessions is not
    /// touched: their inputs stay admissible until their ends are reported.
    pub fn retire_all(&mut self)
        requires
            old(self).wf(),
        ensures
            final(self).wf(),
            final(self).input_dispatcher == old(self).input_dispatcher,
            final(self).slots@ == slots_refreshed(old(self).slots@, Seq::empty()),
    {
        let none: Vec<DeviceCapturePlan> = Vec::new();
        assert(none@ =~= Seq::<DeviceCapturePlan>::empty());
        let _ = self.refresh(&none);
    }

    /// Whether any session still runs.
    pub fn has_sessions(&self) -> (running: bool)
        requires
            self.slots.distinct(),
        ensures
            running == any_running(self.slots@),
    {
        let mut i: usize = 0;
        while i < self.slots.entries.len()
            invariant
                i <= self.slots.entries@.len(),
                self.slots.distinct(),
                forall|j: int|
                    0 <= j < i ==> !((#[trigger] self.slots.entries@[j]).1.model() is Running),
            decreases self.slots.entries@.len() - i,
        {
            if self.slots.entries[i].1.session().is_some() {
                proof {
                    self.slots.lemma_entry(i as int);
                }
                return true;
            }
            i = i + 1;
        }
        proof {
            assert forall|key: Seq<char>| #[trigger]
                self.slots@.dom().contains(key) implies !(self.slots@[key] is Running) by {
                let at = self.slots.lemma_key(key);
                self.slots.lemma_entry(at);
            }
        }
        false
    }

    /// Decide what a manager that is shutting down waits for. Every session reports
    /// its end first; then what is owed to the firmware is restored, however long
    /// that takes, but never while device I/O is off.
    pub fn drain_for_shutdown(&self, events_open: bool, device_io_allowed: bool) -> (step: DrainStep)
        requires
            self.slots.distinct(),
        ensures
            step == drain_step(self.slots@, events_open, device_io_allowed),
    {
        if events_open && self.has_sessions() {
            DrainStep::AwaitSession
        } else if !self.has_pending_restores() {
            DrainStep::Finish
        } else if device_io_allowed {
            DrainStep::Restore
        } else {
            DrainStep::AwaitDeviceIo
        }
    }

    /// Apply one input. Before it is dispatched, the session adopts the latest
    /// publication, so that no input slips in between a publication and its
    /// notification.
    pub fn handle_input(
        &mut self,
        key: &PhysicalDeviceKey,
        session: &HidppSessionId,
        input: CapturedInput,
        context: &InputContext,
        now: u64,
    ) -> (outcome: InputOutcome)
        requires
            old(self).wf(),
            sensitivities_wf(old(self).slots@),
            plans_wf(context.published@),
        ensures
            final(self).wf(),
            final(self).slots@ == slots_at_input(old(self).slots@, key.model(), *context),
            outcome.readopted is Some <==> input_readopts(
                old(self).slots@,
                key.model(),
                *context,
            ) is Some,
            outcome.readopted is Some ==> outcome.readopted->0.model() == input_readopts(
                old(self).slots@,
                key.model(),
                *context,
            )->0,
            ({
                let readopts = input_readopts(old(self).slots@, key.model(), *context);
                let first = match readopts {
                    Some(id) => old(self).input_dispatcher@.forgets(id),
                    None => old(self).input_dispatcher@,
                };
                match live_session(final(self).slots@, key.model(), session.epoch) {
                    Some(live) => {
                        &&& outcome.dispatched == Some(
                            first.dispatched(
                                live.id,
                                live.dispatch,
                                input,
                                context.spaces_supported,
                                now,
                            ),
                        )
                        &&& final(self).input_dispatcher@ == first.after(
                            live.id,
                            live.dispatch,
                            input,
                            context.spaces_supported,
                            now,
                        )
                        &&& outcome.session is Some && outcome.session->0.model() == live.id
                    },
                    None => {
                        &&& outcome.dispatched is None
                        &&& outcome.session is None
                        &&& final(self).input_dispatcher@ == first.forgets(session.model())
                    },
                }
            }),
            ({
                let open = old(self).input_dispatcher.space_transitions.active.entries@;
                let readopts = input_readopts(old(self).slots@, key.model(), *context);
                let closed = match readopts {
                    Some(id) => cancelled(open, id),
                    None => Seq::empty(),
                };
                let left = match readopts {
                    Some(id) => others(open, id),
                    None => open,
                };
                outcome.cancelled@ == closed + (match live_session(
                    final(self).slots@,
                    key.model(),
                    session.epoch,
                ) {
                    Some(_) => Seq::empty(),
                    None => cancelled(left, session.model()),
                })
            }),
    {
        let mut frames: Vec<SpaceSwipeFrame> = Vec::new();
        let mut readopted: Option<HidppSessionId> = None;
        if context.device_io_allowed {
            if let Some(slot) = self.slots.remove(key) {
                let ghost before = slot.model();
                assert(before == old(self).slots@[key.model()]);
                let plan: Option<&DeviceCapturePlan> = if context.requested {
                    None
                } else {
                    match find_plan(context.published, key) {
                        Some(at) => Some(&context.published[at]),
                        None => None,
                    }
                };
                let ghost wanted = plan_for(
                    wanted_plans(context.requested, context.published@),
                    key.model(),
                );
                assert(wanted == (match plan {
                    Some(plan) => Some(plan.model()),
                    None => None,
                }));
                let next: GestureSlot = match slot {
                    CaptureSlot::Running(mut running) => {
                        let cancel: Option<HidppSessionId> = reconcile_session(&mut running, plan);
                        if let Some(id) = cancel {
                            frames = self.input_dispatcher.cancel_session(&id);
                            readopted = Some(id);
                        }
                        CaptureSlot::Running(running)
                    },
                    CaptureSlot::Recovering(recovery) => CaptureSlot::Recovering(recovery),
                };
                assert(next.model() == slot_refreshed(before, wanted));
                self.slots.insert(key.copied(), next);
                assert(self.slots@ =~= slots_at_input(old(self).slots@, key.model(), *context));
            } else {
                assert(self.slots@ =~= old(self).slots@);
            }
        }
        assert(self.slots@ =~= slots_at_input(old(self).slots@, key.model(), *context));
        let live: Option<&RunningSession> = match self.slots.get(key) {
            Some(slot) => slot.session(),
            None => None,
        };
        proof {
            lemma_live_sensitivity(old(self).slots@, key.model(), *context);
        }
        match dispatch_context_for(session, live) {
            Some((id, plan)) => {
                let dispatched: Dispatched = self.input_dispatcher.dispatch(
                    id,
                    plan,
                    input,
                    context.spaces_supported,
                    now,
                );
                assert(frames@ + Seq::<SpaceSwipeFrame>::empty() =~= frames@);
                InputOutcome {
                    session: Some(id.copied()),
                    readopted,
                    dispatched: Some(dispatched),
                    cancelled: frames,
                }
            },
            None => {
                let mut stale: Vec<SpaceSwipeFrame> = self.input_dispatcher.cancel_session(session);
                frames.append(&mut stale);
                InputOutcome { session: None, readopted, dispatched: None, cancelled: frames }
            },
        }
    }

    /// Apply the end of a session. It is queued behind every input that the
    /// session accepted, so nothing is cancelled too early. Whether to reconcile
    /// comes back: the end of a session that is not tracked says nothing.
    pub fn handle_done(&mut self, done: &SessionDone, device_io_allowed: bool, now: u64) -> (outcome:
        (DoneOutcome, Vec<SpaceSwipeFrame>))
        requires
            old(self).wf(),
            now + RETRY_DELAY <= u64::MAX,
        ensures
            final(self).wf(),
            ({
                let key = done.physical_key.model();
                let retry = (now + RETRY_DELAY) as u64;
                if old(self).slots@.dom().contains(key) && old(self).slots@[key].runs(
                    done.session.epoch,
                ) {
                    let session = old(self).slots@[key]->Running_0;
                    &&& outcome.0.ended is Some && outcome.0.ended->0.model() == session.id
                    &&& outcome.0.unexpected == session.active
                    &&& final(self).input_dispatcher@ == old(self).input_dispatcher@.forgets(
                        session.id,
                    )
                    &&& outcome.1@ == cancelled(
                        old(self).input_dispatcher.space_transitions.active.entries@,
                        session.id,
                    )
                    &&& final(self).slots@ == after_done(
                        old(self).slots@,
                        key,
                        done.pending_restore,
                        device_io_allowed,
                        now,
                    )
                } else {
                    &&& outcome.0.ended is None && !outcome.0.unexpected && outcome.1@.len() == 0
                    &&& *final(self) == *old(self)
                }
            }),
    {
        let key: &PhysicalDeviceKey = &done.physical_key;
        let is_own: bool = match self.slots.get(key) {
            Some(slot) => match slot.session() {
                Some(session) => session.owns(&done.session),
                None => false,
            },
            None => false,
        };
        if !is_own {
            return (DoneOutcome { ended: None, unexpected: false }, Vec::new());
        }
        let pending: Option<PendingRestore> = match done.pending_restore {
            Some(token) => Some(PendingRestore { token, retry_at: now + RETRY_DELAY }),
            None => None,
        };
        let restart_at: Option<u64> = if device_io_allowed { Some(now + RETRY_DELAY) } else { None };
        let mut outcome: DoneOutcome = DoneOutcome { ended: None, unexpected: false };
        let mut frames: Vec<SpaceSwipeFrame> = Vec::new();
        if let Some(mut slot) = self.slots.remove(key) {
            if let Some((ended, unexpected)) = slot.complete(&done.session, pending, restart_at) {
                frames = self.input_dispatcher.cancel_session(&ended);
                outcome = DoneOutcome { ended: Some(ended), unexpected };
            }
            let finished: bool = match slot.recovery() {
                Some(recovery) => recovery.is_empty(),
                None => false,
            };
            if !finished {
                self.slots.insert(key.copied(), slot);
            }
            assert(self.slots@ =~= after_done(
                old(self).slots@,
                key.model(),
                done.pending_restore,
                device_io_allowed,
                now,
            ));
        }
        (outcome, frames)
    }
}

/// What an input is judged by.
pub struct InputContext<'a> {
    pub device_io_allowed: bool,
    /// The receiver is wanted for exclusive access.
    pub requested: bool,
    pub published: &'a Vec<DeviceCapturePlan>,
    /// The system can show interactive Space transitions.
    pub spaces_supported: bool,
}

/// What an input came to.
#[derive(Debug)]
pub struct InputOutcome {
    /// The session under which it was dispatched. `None` for a stale input: what the
    /// outputs have under way for the session that it came from is cancelled.
    pub session: Option<HidppSessionId>,
    /// The id under which the device's session dispatched so far, where it adopted
    /// another plan now. What the outputs have under way for it is cancelled, before
    /// the input is dispatched.
    pub readopted: Option<HidppSessionId>,
    pub dispatched: Option<Dispatched>,
    /// Frames that close the transitions of cancelled sessions.
    pub cancelled: Vec<SpaceSwipeFrame>,
}

/// Whether every tracked plan's wheel takes at least one increment per action.
pub open spec fn sensitivities_wf(slots: SlotMap) -> bool {
    forall|key: Seq<char>| #[trigger]
        slots.dom().contains(key) ==> (slots[key] matches SlotModel::Running(session)
            ==> session.dispatch.thumbwheel_sensitivity.wf())
}

/// Whether every published plan's wheel takes at least one increment per action.
pub open spec fn plans_wf(plans: Seq<DeviceCapturePlan>) -> bool {
    forall|i: int|
        0 <= i < plans.len() ==> (#[trigger] plans[i]).dispatch.thumbwheel_sensitivity.wf()
}

/// The slots when an input is dispatched: its own slot has adopted the latest
/// publication, unless device I/O is off.
pub open spec fn slots_at_input(slots: SlotMap, key: Seq<char>, context: InputContext) -> SlotMap {
    if context.device_io_allowed && slots.dom().contains(key) {
        slots.insert(
            key,
            slot_refreshed(
                slots[key],
                plan_for(wanted_plans(context.requested, context.published@), key),
            ),
        )
    } else {
        slots
    }
}

/// The id whose session adopts another dispatch plan when an input arrives.
pub open spec fn input_readopts(slots: SlotMap, key: Seq<char>, context: InputContext) -> Option<
    (Seq<char>, u64),
> {
    if context.device_io_allowed && slots.dom().contains(key) {
        match slots[key] {
            SlotModel::Running(session) if session.action(
                plan_for(wanted_plans(context.requested, context.published@), key),
            ) == ReconcileAction::DispatchChanged => Some(session.id),
            _ => None,
        }
    } else {
        None
    }
}

/// The session that runs for a device under an epoch.
pub open spec fn live_session(slots: SlotMap, key: Seq<char>, epoch: u64) -> Option<GestureSession> {
    if slots.dom().contains(key) && slots[key].runs(epoch) {
        Some(slots[key]->Running_0)
    } else {
        None
    }
}

/// The slots once a restore was tried.
pub open spec fn after_restore(slots: SlotMap, key: Seq<char>, pending: Option<u64>, now: u64) -> SlotMap {
    if slots.dom().contains(key) && slots[key] is Recovering {
        let left = CaptureRecovery {
            pending_restore: match pending {
                Some(token) => Some(
                    PendingRestore { token, retry_at: (now + RETRY_DELAY) as u64 },
                ),
                None => None,
            },
            restart_at: slots[key]->Recovering_0.restart_at,
        };
        if left.empty() {
            slots.remove(key)
        } else {
            slots.insert(key, SlotModel::Recovering(left))
        }
    } else {
        slots
    }
}

/// The slots once a session's end was reported.
pub open spec fn after_done(
    slots: SlotMap,
    key: Seq<char>,
    pending_restore: Option<u64>,
    device_io_allowed: bool,
    now: u64,
) -> SlotMap {
    let retry = (now + RETRY_DELAY) as u64;
    let left = slots[key].completed(
        match pending_restore {
            Some(token) => Some(PendingRestore { token, retry_at: retry }),
            None => None,
        },
        if device_io_allowed {
            Some(retry)
        } else {
            None
        },
    );
    if is_finished(left) {
        slots.remove(key)
    } else {
        slots.insert(key, left)
    }
}

/// A slot whose restore is due now.
pub open spec fn slot_expedited(slot: GestureSlotModel, now: u64) -> GestureSlotModel {
    match slot {
        SlotModel::Recovering(
            CaptureRecovery { pending_restore: Some(pending), restart_at },
        ) => SlotModel::Recovering(
            CaptureRecovery {
                pending_restore: Some(PendingRestore { retry_at: now, ..pending }),
                restart_at,
            },
        ),
        _ => slot,
    }
}

/// All slots with their restores due now.
pub open spec fn expedited(slots: SlotMap, now: u64) -> SlotMap {
    Map::new(
        |key: Seq<char>| slots.dom().contains(key),
        |key: Seq<char>| slot_expedited(slots[key], now),
    )
}

/// Whether a key is in a list.
spec fn listed(due: Seq<(PhysicalDeviceKey, u64)>, key: Seq<char>) -> bool {
    exists|k: int| 0 <= k < due.len() && (#[trigger] due[k]).0.model() == key
}

/// Whether an entry is another one, pruned.
spec fn came_from(
    from: (PhysicalDeviceKey, GestureSlot),
    to: (PhysicalDeviceKey, GestureSlot),
    published: Seq<DeviceCapturePlan>,
) -> bool {
    let pruned = slot_pruned(from.1.model(), plan_for(published, from.0.model()) is Some);
    &&& to.0.model() == from.0.model()
    &&& to.1.model() == pruned
    &&& !is_finished(pruned)
}

spec fn kept_entry(
    all: Seq<(PhysicalDeviceKey, GestureSlot)>,
    entry: (PhysicalDeviceKey, GestureSlot),
    published: Seq<DeviceCapturePlan>,
) -> bool {
    exists|n: int| 0 <= n < all.len() && came_from(#[trigger] all[n], entry, published)
}

spec fn entry_kept(
    from: (PhysicalDeviceKey, GestureSlot),
    kept: Seq<(PhysicalDeviceKey, GestureSlot)>,
    published: Seq<DeviceCapturePlan>,
) -> bool {
    is_finished(slot_pruned(from.1.model(), plan_for(published, from.0.model()) is Some))
        || exists|j: int| 0 <= j < kept.len() && came_from(from, #[trigger] kept[j], published)
}

proof fn lemma_kept_grows(
    all: Seq<(PhysicalDeviceKey, GestureSlot)>,
    seen: int,
    entry: (PhysicalDeviceKey, GestureSlot),
    published: Seq<DeviceCapturePlan>,
)
    requires
        0 <= seen < all.len(),
        kept_entry(all.take(seen), entry, published),
    ensures
        kept_entry(all.take(seen + 1), entry, published),
{
    let shorter = all.take(seen);
    let n = choose|n: int| 0 <= n < shorter.len() && came_from(#[trigger] shorter[n], entry, published);
    assert(all.take(seen + 1)[n] == shorter[n]);
}

proof fn lemma_entry_kept_grows(
    from: (PhysicalDeviceKey, GestureSlot),
    before: Seq<(PhysicalDeviceKey, GestureSlot)>,
    after: Seq<(PhysicalDeviceKey, GestureSlot)>,
    i: int,
    published: Seq<DeviceCapturePlan>,
)
    requires
        0 <= i < before.len() == after.len(),
        forall|j: int| 0 <= j < i ==> after[j] == before[j],
        entry_kept(from, before.take(i), published),
    ensures
        entry_kept(from, after.take(i + 1), published),
{
    let shorter = before.take(i);
    if !is_finished(slot_pruned(from.1.model(), plan_for(published, from.0.model()) is Some)) {
        let j = choose|j: int|
            0 <= j < shorter.len() && came_from(from, #[trigger] shorter[j], published);
        assert(after.take(i + 1)[j] == shorter[j]);
    }
}

proof fn lemma_plan_wf(plans: Seq<DeviceCapturePlan>, key: Seq<char>)
    requires
        plans_wf(plans),
    ensures
        plan_for(plans, key) matches Some(plan) ==> plan.1.thumbwheel_sensitivity.wf(),
    decreases plans.len(),
{
    if plans.len() > 0 {
        assert(plans[0].dispatch.thumbwheel_sensitivity.wf());
        let rest = plans.skip(1);
        assert forall|i: int| 0 <= i < rest.len() implies (
        #[trigger] rest[i]).dispatch.thumbwheel_sensitivity.wf() by {
            assert(rest[i] == plans[i + 1]);
        }
        lemma_plan_wf(rest, key);
    }
}

proof fn lemma_live_sensitivity(slots: SlotMap, key: Seq<char>, context: InputContext)
    requires
        sensitivities_wf(slots),
        plans_wf(context.published@),
    ensures
        slots_at_input(slots, key, context).dom().contains(key) ==> (slots_at_input(
            slots,
            key,
            context,
        )[key] matches SlotModel::Running(session)
            ==> session.dispatch.thumbwheel_sensitivity.wf()),
{
    lemma_plan_wf(wanted_plans(context.requested, context.published@), key);
    if slots.dom().contains(key) {
        assert(slots[key] is Running || slots[key] is Recovering);
    }
}

// ── Laws ────────────────────────────────────────────────────────────────────

/// Firmware ownership is never forgotten: a reconcile keeps every restore that is
/// owed, whatever is published.
pub proof fn reconciling_keeps_every_debt(
    slots: SlotMap,
    wanted: Seq<DeviceCapturePlan>,
    published: Seq<DeviceCapturePlan>,
    key: Seq<char>,
)
    requires
        slots.dom().contains(key),
        slots[key].owed() is Some,
    ensures
        slots_pruned(slots_refreshed(slots, wanted), published).dom().contains(key),
        slots_pruned(slots_refreshed(slots, wanted), published)[key].owed() == slots[key].owed(),
{
}

/// A request for exclusive access retires every session: none stays active.
pub proof fn exclusive_requests_retire_every_session(
    slots: SlotMap,
    published: Seq<DeviceCapturePlan>,
    key: Seq<char>,
)
    requires
        slots.dom().contains(key),
    ensures
        slots_refreshed(slots, wanted_plans(true, published))[key] matches SlotModel::Running(session)
            ==> !session.active,
{
}

/// A session that runs is never dropped by a reconcile: only its reported end
/// frees its device for a successor.
pub proof fn running_sessions_keep_their_slot(
    slots: SlotMap,
    wanted: Seq<DeviceCapturePlan>,
    published: Seq<DeviceCapturePlan>,
    key: Seq<char>,
    now: u64,
)
    requires
        slots.dom().contains(key),
        slots[key] is Running,
    ensures
        slots_pruned(slots_refreshed(slots, wanted), published).dom().contains(key),
        slots_pruned(slots_refreshed(slots, wanted), published)[key] is Running,
        slots_pruned(slots_refreshed(slots, wanted), published)[key]->Running_0.id.1
            == slots[key]->Running_0.id.1,
        !needs_session(slots_pruned(slots_refreshed(slots, wanted), published), key, now),
{
}

/// A session that was asked to end may be succeeded as soon as its end is
/// reported, unless it left a restore behind; one that failed waits.
pub proof fn retired_sessions_are_succeeded_at_once(
    slots: SlotMap,
    key: Seq<char>,
    pending_restore: Option<u64>,
    device_io_allowed: bool,
    now: u64,
)
    requires
        slots.dom().contains(key),
        slots[key] is Running,
        now + RETRY_DELAY <= u64::MAX,
    ensures
        ({
            let after = after_done(slots, key, pending_restore, device_io_allowed, now);
            &&& !slots[key]->Running_0.active && pending_restore is None ==> needs_session(
                after,
                key,
                now,
            )
            &&& pending_restore is Some ==> !needs_session(after, key, now)
            &&& slots[key]->Running_0.active && device_io_allowed ==> !needs_session(
                after,
                key,
                now,
            )
        }),
{
}

/// Where nothing is left to be armed, every published device has a slot: a session
/// runs for it, or something keeps its successor waiting.
pub proof fn every_published_device_has_a_slot(
    slots: SlotMap,
    published: Seq<DeviceCapturePlan>,
    now: u64,
    at: int,
)
    requires
        nothing_to_arm(slots, published, now),
        0 <= at < published.len(),
    ensures
        ({
            let key = published[at].target.physical_key.model();
            &&& slots.dom().contains(key)
            &&& slots[key] matches SlotModel::Recovering(recovery) ==> recovery.blocks(now)
        }),
{
    assert(!needs_session(slots, published[at].target.physical_key.model(), now));
}

/// Arming one plan settles its device, and touches no other: each turn leaves fewer
/// devices to be armed.
pub proof fn arming_settles_one_device(
    slots: SlotMap,
    plan: DeviceCapturePlan,
    granted: bool,
    epoch: u64,
    now: u64,
    key: Seq<char>,
)
    requires
        now + RETRY_DELAY <= u64::MAX,
    ensures
        ({
            let after = slot_armed(slots, plan, granted, epoch, now);
            let own = plan.target.physical_key.model();
            &&& !needs_session(after, own, now)
            &&& key != own ==> after.dom().contains(key) == slots.dom().contains(key) && (
            slots.dom().contains(key) ==> after[key] == slots[key])
            &&& !needs_session(slots, key, now) ==> after.dom().contains(key) && after[key]
                == slots[key]
        }),
{
}

/// Once every published plan had its turn, nothing is left to be armed, and so every
/// published device has a slot. Sessions that ran, and devices that had to wait,
/// are as they were: no session is replaced, and no restore that is owed is
/// forgotten. Devices that nobody publishes are not touched.
pub proof fn arming_covers_what_is_published(
    slots: SlotMap,
    published: Seq<DeviceCapturePlan>,
    leases: Seq<bool>,
    first_epoch: u64,
    now: u64,
)
    requires
        now + RETRY_DELAY <= u64::MAX,
    ensures
        ({
            let after = slots_armed(slots, published, leases, first_epoch, now);
            &&& nothing_to_arm(after, published, now)
            &&& forall|i: int|
                0 <= i < published.len() ==> after.dom().contains(
                    (#[trigger] published[i]).target.physical_key.model(),
                )
            &&& forall|key: Seq<char>| #![trigger after.dom().contains(key)]
                !needs_session(slots, key, now) ==> after.dom().contains(key) && after[key]
                    == slots[key]
            &&& forall|key: Seq<char>| #![trigger after.dom().contains(key)]
                plan_for(published, key) is None ==> after.dom().contains(key)
                    == slots.dom().contains(key) && (slots.dom().contains(key) ==> after[key]
                    == slots[key])
        }),
    decreases published.len(),
{
    if published.len() > 0 {
        let before = published.drop_last();
        let plan = published.last();
        let own = plan.target.physical_key.model();
        let so_far = slots_armed(slots, before, leases, first_epoch, now);
        let after = slots_armed(slots, published, leases, first_epoch, now);
        arming_covers_what_is_published(slots, before, leases, first_epoch, now);
        assert forall|i: int| 0 <= i < published.len() implies !needs_session(
            after,
            (#[trigger] published[i]).target.physical_key.model(),
            now,
        ) by {
            if i < before.len() {
                assert(before[i] == published[i]);
                assert(!needs_session(so_far, before[i].target.physical_key.model(), now));
            }
        }
        assert forall|i: int| 0 <= i < published.len() implies after.dom().contains(
            (#[trigger] published[i]).target.physical_key.model(),
        ) by {
            every_published_device_has_a_slot(after, published, now, i);
        }
        assert forall|key: Seq<char>| #![trigger after.dom().contains(key)]
            !needs_session(slots, key, now) implies after.dom().contains(key) && after[key]
            == slots[key] by {
            assert(so_far.dom().contains(key));
        }
        assert forall|key: Seq<char>| #![trigger after.dom().contains(key)]
            plan_for(published, key) is None implies after.dom().contains(key)
            == slots.dom().contains(key) && (slots.dom().contains(key) ==> after[key]
            == slots[key]) by {
            lemma_unpublished(published, key);
            assert(so_far.dom().contains(key) || !so_far.dom().contains(key));
        }
    }
}

/// A key that no plan of a list has is no plan's of a shorter list, nor the last
/// one's.
proof fn lemma_unpublished(plans: Seq<DeviceCapturePlan>, key: Seq<char>)
    requires
        plans.len() > 0,
        plan_for(plans, key) is None,
    ensures
        plan_for(plans.drop_last(), key) is None,
        plans.last().target.physical_key.model() != key,
    decreases plans.len(),
{
    if plans.len() > 1 {
        lemma_unpublished(plans.skip(1), key);
        assert(plans.skip(1).drop_last() =~= plans.drop_last().skip(1));
        assert(plans.drop_last()[0] == plans[0]);
        assert(plans.skip(1).last() == plans.last());
    }
}

/// While the receiver is wanted for exclusive access nothing is to be captured; otherwise
/// everything that is published is.
pub proof fn exclusive_access_wants_nothing(plans: Seq<DeviceCapturePlan>, key: Seq<char>)
    ensures
        wanted_plans(true, plans).len() == 0,
        plan_for(wanted_plans(true, plans), key) is None,
        wanted_plans(false, plans) == plans,
{
}

/// A change of what a device's inputs do keeps its hardware session: it goes on under its
/// epoch, with the new plan and the new plan's configuration namespace. Another target,
/// or none, retires it with its plan as it was.
pub proof fn rebinding_keeps_the_session(
    session: GestureSession,
    target: TargetModel,
    dispatch: DispatchModel,
)
    requires
        session.active,
    ensures
        target == session.target && dispatch != session.dispatch ==> {
            let next = refreshed(session, Some((target, dispatch)));
            next.active && next.dispatch == dispatch && next.target == target && next.id == (
                dispatch.config_key,
                session.id.1,
            )
        },
        target == session.target && dispatch == session.dispatch ==> refreshed(
            session,
            Some((target, dispatch)),
        ) == session,
        target != session.target ==> {
            let next = refreshed(session, Some((target, dispatch)));
            !next.active && next.dispatch == session.dispatch && next.target == session.target
                && next.id == session.id
        },
        ({
            let next = refreshed(session, None);
            !next.active && next.dispatch == session.dispatch && next.target == session.target
                && next.id == session.id
        }),
{
}

/// Every slot is brought in line with its own device's plan, and no slot comes or goes by
/// that.
pub proof fn slots_follow_their_own_plan(
    slots: SlotMap,
    wanted: Seq<DeviceCapturePlan>,
    key: Seq<char>,
)
    ensures
        ({
            let after = slots_refreshed(slots, wanted);
            &&& after.dom().contains(key) == slots.dom().contains(key)
            &&& slots.dom().contains(key) ==> {
                &&& slots[key] matches SlotModel::Running(session) ==> after[key]
                    == SlotModel::<TargetModel, DispatchModel>::Running(
                    refreshed(session, plan_for(wanted, key)),
                )
                &&& slots[key] is Recovering ==> after[key] == slots[key]
            }
        }),
{
}

/// A device that is no longer published waits for no restart, though it still owes its
/// restore; a published one waits as before. A slot with nothing left to do is dropped,
/// and no other.
pub proof fn unpublished_devices_wait_for_no_restart(
    slots: SlotMap,
    published: Seq<DeviceCapturePlan>,
    key: Seq<char>,
)
    requires
        slots.dom().contains(key),
    ensures
        ({
            let after = slots_pruned(slots, published);
            let known = plan_for(published, key) is Some;
            match slots[key] {
                SlotModel::Running(_) => after.dom().contains(key) && after[key] == slots[key],
                SlotModel::Recovering(recovery) => {
                    let restart_at = if known {
                        recovery.restart_at
                    } else {
                        None
                    };
                    &&& after.dom().contains(key) <==> recovery.pending_restore is Some
                        || restart_at is Some
                    &&& after.dom().contains(key) ==> after[key] == SlotModel::<
                        TargetModel,
                        DispatchModel,
                    >::Recovering(
                        CaptureRecovery {
                            pending_restore: recovery.pending_restore,
                            restart_at,
                        },
                    )
                },
            }
        }),
{
}

/// A device needs a session exactly where it has no slot, or where its slot neither runs
/// one, nor owes a restore, nor waits for a later restart.
pub proof fn devices_need_sessions_when_free(slots: SlotMap, key: Seq<char>, now: u64)
    ensures
        !slots.dom().contains(key) ==> needs_session(slots, key, now),
        slots.dom().contains(key) ==> (match slots[key] {
            SlotModel::Running(_) => !needs_session(slots, key, now),
            SlotModel::Recovering(recovery) => needs_session(slots, key, now)
                <==> recovery.pending_restore is None && (recovery.restart_at matches Some(at)
                ==> at <= now),
        }),
{
}

/// Arming gives the first plan of a device that needs a session its turn: with a lease, a
/// session of exactly that plan runs under its own epoch; without one, the device is
/// tried again a second later.
pub proof fn free_devices_are_armed(
    slots: SlotMap,
    published: Seq<DeviceCapturePlan>,
    leases: Seq<bool>,
    first_epoch: u64,
    now: u64,
    at: int,
)
    requires
        now + RETRY_DELAY <= u64::MAX,
        0 <= at < published.len() <= leases.len(),
        first_epoch + published.len() <= u64::MAX,
        needs_session(slots, published[at].target.physical_key.model(), now),
        forall|i: int|
            0 <= i < at ==> (#[trigger] published[i]).target.physical_key.model()
                != published[at].target.physical_key.model(),
    ensures
        ({
            let plan = published[at];
            let key = plan.target.physical_key.model();
            let after = slots_armed(slots, published, leases, first_epoch, now);
            &&& after.dom().contains(key)
            &&& leases[at] ==> (after[key] matches SlotModel::Running(session) && {
                &&& session.id == (plan.dispatch.config_key@, (first_epoch + at) as u64)
                &&& session.target == plan.target.model()
                &&& session.dispatch == plan.dispatch.model()
                &&& session.active
            })
            &&& !leases[at] ==> (after[key] matches SlotModel::Recovering(recovery) && {
                &&& recovery.pending_restore is None
                &&& recovery.restart_at == Some((now + 1_000) as u64)
            })
            &&& started_plans(slots, published, leases, first_epoch, now).contains(at)
                <==> leases[at]
        }),
    decreases published.len(),
{
    let last = published.len() - 1;
    let before = published.drop_last();
    let plan = published[at];
    let key = plan.target.physical_key.model();
    let so_far = slots_armed(slots, before, leases, first_epoch, now);
    let started = started_plans(slots, before, leases, first_epoch, now);
    let all = started_plans(slots, published, leases, first_epoch, now);
    lemma_started_in_range(slots, before, leases, first_epoch, now);
    arming_settles_one_device(
        so_far,
        published[last],
        leases[last],
        (first_epoch + last) as u64,
        now,
        key,
    );
    if at < last {
        assert(before[at] == plan);
        assert forall|i: int| 0 <= i < at implies (
        #[trigger] before[i]).target.physical_key.model() != key by {
            assert(before[i] == published[i]);
        }
        free_devices_are_armed(slots, before, leases, first_epoch, now, at);
        arming_covers_what_is_published(slots, before, leases, first_epoch, now);
        assert(!needs_session(so_far, before[at].target.physical_key.model(), now));
        if started.contains(at) {
            let k = choose|k: int| 0 <= k < started.len() && started[k] == at;
            assert(all[k] == at);
        }
        if all.contains(at) {
            let k = choose|k: int| 0 <= k < all.len() && all[k] == at;
            assert(k < started.len());
            assert(started[k] == at);
        }
    } else {
        lemma_unlisted(slots, before, leases, first_epoch, now, key);
        assert(needs_session(so_far, key, now));
        if leases[at] {
            assert(all == started.push(last));
            assert(all[all.len() - 1] == at);
        } else {
            assert(all == started);
        }
    }
}

proof fn lemma_unlisted(
    slots: SlotMap,
    plans: Seq<DeviceCapturePlan>,
    leases: Seq<bool>,
    first_epoch: u64,
    now: u64,
    key: Seq<char>,
)
    requires
        now + RETRY_DELAY <= u64::MAX,
        forall|i: int|
            0 <= i < plans.len() ==> (#[trigger] plans[i]).target.physical_key.model() != key,
    ensures
        ({
            let after = slots_armed(slots, plans, leases, first_epoch, now);
            &&& after.dom().contains(key) == slots.dom().contains(key)
            &&& slots.dom().contains(key) ==> after[key] == slots[key]
        }),
    decreases plans.len(),
{
    if plans.len() > 0 {
        let before = plans.drop_last();
        let last = plans.len() - 1;
        assert forall|i: int| 0 <= i < before.len() implies (
        #[trigger] before[i]).target.physical_key.model() != key by {
            assert(before[i] == plans[i]);
        }
        lemma_unlisted(slots, before, leases, first_epoch, now, key);
        assert(plans[last].target.physical_key.model() != key);
    }
}

proof fn lemma_started_in_range(
    slots: SlotMap,
    plans: Seq<DeviceCapturePlan>,
    leases: Seq<bool>,
    first_epoch: u64,
    now: u64,
)
    ensures
        forall|k: int|
            0 <= k < started_plans(slots, plans, leases, first_epoch, now).len() ==> 0
                <= #[trigger] started_plans(slots, plans, leases, first_epoch, now)[k] < plans.len(),
    decreases plans.len(),
{
    if plans.len() > 0 {
        let before = started_plans(slots, plans.drop_last(), leases, first_epoch, now);
        let all = started_plans(slots, plans, leases, first_epoch, now);
        lemma_started_in_range(slots, plans.drop_last(), leases, first_epoch, now);
        assert forall|k: int| 0 <= k < all.len() implies 0 <= #[trigger] all[k] < plans.len() by {
            if k < before.len() {
                assert(all[k] == before[k]);
            }
        }
    }
}

/// Only the device that an input came from adopts the latest publication by it, and only
/// while device I/O is on.
pub proof fn inputs_refresh_their_own_device(
    slots: SlotMap,
    key: Seq<char>,
    other: Seq<char>,
    context: InputContext,
)
    ensures
        ({
            let after = slots_at_input(slots, key, context);
            &&& after.dom().contains(other) == slots.dom().contains(other)
            &&& other != key && slots.dom().contains(other) ==> after[other] == slots[other]
            &&& !context.device_io_allowed ==> after == slots && input_readopts(
                slots,
                key,
                context,
            ) is None
            &&& slots.dom().contains(key) && context.device_io_allowed ==> (
            slots[key] matches SlotModel::Running(session) ==> after[key] == SlotModel::<
                TargetModel,
                DispatchModel,
            >::Running(
                refreshed(
                    session,
                    if context.requested {
                        None
                    } else {
                        plan_for(context.published@, key)
                    },
                ),
            ))
        }),
{
}

/// An input is dispatched by the plan that is published for its device: a session whose
/// target is still published adopts the published plan first, and says so where that is
/// another one.
pub proof fn inputs_use_the_published_plan(
    slots: SlotMap,
    key: Seq<char>,
    context: InputContext,
    dispatch: DispatchModel,
)
    requires
        context.device_io_allowed,
        !context.requested,
        slots.dom().contains(key),
        slots[key] is Running,
        slots[key]->Running_0.active,
        plan_for(context.published@, key) == Some((slots[key]->Running_0.target, dispatch)),
    ensures
        ({
            let session = slots[key]->Running_0;
            let live = live_session(slots_at_input(slots, key, context), key, session.id.1);
            &&& live is Some
            &&& live->0.dispatch == dispatch
            &&& live->0.active
            &&& input_readopts(slots, key, context) == (if dispatch == session.dispatch {
                None
            } else {
                Some(session.id)
            })
        }),
{
}

/// An input belongs to the session that runs for its device under the same epoch, and an
/// input of another epoch, or of a device without a running session, to none.
pub proof fn epochs_tell_sessions_apart(slots: SlotMap, key: Seq<char>, epoch: u64)
    ensures
        live_session(slots, key, epoch) is Some <==> slots.dom().contains(key) && (
        slots[key] matches SlotModel::Running(session) && session.id.1 == epoch),
        live_session(slots, key, epoch) matches Some(session) ==> slots[key]
            == SlotModel::<TargetModel, DispatchModel>::Running(session),
{
}

/// A restore that succeeded is owed no more, and the slot goes with it where no restart
/// waits; one that failed is tried again a second later. No other device is touched, and
/// neither is a running session.
pub proof fn restores_are_retried_until_done(
    slots: SlotMap,
    key: Seq<char>,
    pending: Option<u64>,
    now: u64,
    other: Seq<char>,
)
    requires
        now + RETRY_DELAY <= u64::MAX,
    ensures
        ({
            let after = after_restore(slots, key, pending, now);
            &&& slots.dom().contains(key) ==> (match slots[key] {
                SlotModel::Running(_) => after == slots,
                SlotModel::Recovering(recovery) => {
                    &&& pending is None && recovery.restart_at is None
                        ==> !after.dom().contains(key)
                    &&& pending is None && recovery.restart_at is Some ==> after.dom().contains(key)
                        && after[key] == SlotModel::<TargetModel, DispatchModel>::Recovering(
                        CaptureRecovery {
                            pending_restore: None,
                            restart_at: recovery.restart_at,
                        },
                    )
                    &&& pending matches Some(token) ==> after.dom().contains(key) && after[key]
                        == SlotModel::<TargetModel, DispatchModel>::Recovering(
                        CaptureRecovery {
                            pending_restore: Some(
                                PendingRestore { token, retry_at: (now + 1_000) as u64 },
                            ),
                            restart_at: recovery.restart_at,
                        },
                    )
                },
            })
            &&& !slots.dom().contains(key) ==> after == slots
            &&& other != key ==> after.dom().contains(other) == slots.dom().contains(other) && (
            slots.dom().contains(other) ==> after[other] == slots[other])
        }),
{
}

/// The end of a session leaves what it owes: its restore, due a second later, and, where
/// nobody asked it to end and device I/O is on, a restart a second later. With neither,
/// its slot goes.
pub proof fn ended_sessions_leave_what_they_owe(
    slots: SlotMap,
    key: Seq<char>,
    pending_restore: Option<u64>,
    device_io_allowed: bool,
    now: u64,
)
    requires
        slots.dom().contains(key),
        slots[key] is Running,
        now + RETRY_DELAY <= u64::MAX,
    ensures
        ({
            let after = after_done(slots, key, pending_restore, device_io_allowed, now);
            let restarts = slots[key]->Running_0.active && device_io_allowed;
            &&& after.dom().contains(key) <==> pending_restore is Some || restarts
            &&& after.dom().contains(key) ==> (after[key] matches SlotModel::Recovering(left) && {
                &&& left.restart_at == (if restarts {
                    Some((now + 1_000) as u64)
                } else {
                    None
                })
                &&& left.pending_restore == (match pending_restore {
                    Some(token) => Some(PendingRestore { token, retry_at: (now + 1_000) as u64 }),
                    None => None,
                })
            })
        }),
{
}

/// Expediting makes every owed restore due at once, and changes neither its number, nor a
/// restart, nor a running session.
pub proof fn expediting_makes_restores_due(slots: SlotMap, key: Seq<char>, now: u64)
    requires
        slots.dom().contains(key),
    ensures
        ({
            let after = expedited(slots, now);
            &&& after.dom().contains(key)
            &&& slots[key] is Running ==> after[key] == slots[key]
            &&& slots[key] matches SlotModel::Recovering(recovery) ==> (
            after[key] matches SlotModel::Recovering(left) && {
                &&& left.restart_at == recovery.restart_at
                &&& left.pending_restore is Some <==> recovery.pending_restore is Some
                &&& recovery.pending_restore matches Some(pending) ==> left.pending_restore == Some(
                    PendingRestore { token: pending.token, retry_at: now },
                ) && owes_by(after[key], now)
            })
        }),
{
}

/// A restore may be tried exactly where one is owed and its time has come.
pub proof fn restores_wait_for_their_time(slot: GestureSlotModel, now: u64)
    ensures
        slot is Running ==> !owes_by(slot, now),
        slot matches SlotModel::Recovering(recovery) ==> (owes_by(slot, now) <==> (
        recovery.pending_restore matches Some(pending) && pending.retry_at <= now)),
{
}

/// The manager's deadline is the earliest of what its slots wait for: a restore before a
/// restart, and nothing for a running session.
pub proof fn the_deadline_is_the_earliest(
    entries: Seq<(PhysicalDeviceKey, GestureSlot)>,
    at: int,
)
    requires
        0 <= at < entries.len(),
    ensures
        slot_due(entries[at].1.model()) matches Some(due) ==> (entries_due(entries) matches Some(
            first,
        ) && first <= due),
        entries_due(entries) matches Some(first) ==> exists|i: int|
            0 <= i < entries.len() && slot_due((#[trigger] entries[i]).1.model()) == Some(first),
        entries[at].1.model() is Running ==> slot_due(entries[at].1.model()) is None,
        entries[at].1.model() matches SlotModel::Recovering(recovery) ==> slot_due(
            entries[at].1.model(),
        ) == (match recovery.pending_restore {
            Some(pending) => Some(pending.retry_at),
            None => recovery.restart_at,
        }),
    decreases entries.len(),
{
    let before = entries.drop_last();
    let last = entries.len() - 1;
    assert(entries[last] == entries.last());
    if at < last {
        assert(before[at] == entries[at]);
        the_deadline_is_the_earliest(before, at);
    } else if before.len() > 0 {
        the_deadline_is_the_earliest(before, 0);
    }
    if entries_due(entries) is Some {
        let first = entries_due(entries)->0;
        if slot_due(entries.last().1.model()) == Some(first) {
            assert(slot_due(entries[last].1.model()) == Some(first));
        } else {
            assert(entries_due(before) == Some(first));
            let i = choose|i: int|
                0 <= i < before.len() && slot_due((#[trigger] before[i]).1.model()) == Some(first);
            assert(entries[i] == before[i]);
        }
    }
}

/// Sessions that adopt another plan are named, each once, in order, and no other session
/// is.
pub proof fn readopting_sessions_are_named(
    before: Seq<(PhysicalDeviceKey, GestureSlot)>,
    entry: (PhysicalDeviceKey, GestureSlot),
    wanted: Seq<DeviceCapturePlan>,
)
    ensures
        readopted(Seq::empty(), wanted).len() == 0,
        entry.1.model() is Recovering ==> readopted(before.push(entry), wanted) == readopted(
            before,
            wanted,
        ),
        entry.1.model() matches SlotModel::Running(session) ==> {
            let plan = plan_for(wanted, entry.0.model());
            let adopts = session.active && plan is Some && (plan->0).0 == session.target && (
            plan->0).1 != session.dispatch;
            readopted(before.push(entry), wanted) == (if adopts {
                readopted(before, wanted).push(session.id)
            } else {
                readopted(before, wanted)
            })
        },
{
    assert(before.push(entry).drop_last() =~= before);
}

/// Forgetting sessions forgets each of them and nothing of any other.
pub proof fn forgetting_touches_the_named_sessions(
    dispatcher: DispatcherModel,
    ids: Seq<(Seq<char>, u64)>,
    session: (Seq<char>, u64),
    button: ButtonId,
)
    ensures
        ({
            let after = forgets_all(dispatcher, ids);
            let key = (session, button);
            &&& ids.contains(session) ==> !after.presses.dom().contains(key)
                && !after.spaces.dom().contains(key) && !after.wheels.dom().contains(session)
            &&& !ids.contains(session) ==> {
                &&& after.presses.dom().contains(key) == dispatcher.presses.dom().contains(key)
                &&& dispatcher.presses.dom().contains(key) ==> after.presses[key]
                    == dispatcher.presses[key]
                &&& after.spaces.dom().contains(key) == dispatcher.spaces.dom().contains(key)
                &&& dispatcher.spaces.dom().contains(key) ==> after.spaces[key]
                    == dispatcher.spaces[key]
                &&& after.wheels.dom().contains(session) == dispatcher.wheels.dom().contains(session)
                &&& dispatcher.wheels.dom().contains(session) ==> after.wheels[session]
                    == dispatcher.wheels[session]
            }
            &&& !dispatcher.presses.dom().contains(key) ==> !after.presses.dom().contains(key)
            &&& !dispatcher.spaces.dom().contains(key) ==> !after.spaces.dom().contains(key)
            &&& !dispatcher.wheels.dom().contains(session) ==> !after.wheels.dom().contains(session)
        }),
    decreases ids.len(),
{
    if ids.len() > 0 {
        let rest = ids.skip(1);
        let next = dispatcher.forgets(ids[0]);
        forgetting_touches_the_named_sessions(next, rest, session, button);
        assert(forall|i: int| 0 <= i < rest.len() ==> #[trigger] rest[i] == ids[i + 1]);
        if ids.contains(session) && session != ids[0] {
            let i = choose|i: int| 0 <= i < ids.len() && ids[i] == session;
            assert(rest[i - 1] == session);
        }
        if rest.contains(session) {
            let i = choose|i: int| 0 <= i < rest.len() && rest[i] == session;
            assert(ids[i + 1] == session);
        }
    }
}

/// Closing one session's transitions gives the frames that cancel them, and closing more
/// sessions gives theirs after it.
pub proof fn closing_sessions_cancels_their_transitions(
    open: Seq<((HidppSessionId, ButtonId), ActiveSpaceTransition)>,
    first: (Seq<char>, u64),
    second: (Seq<char>, u64),
)
    ensures
        closing_frames(open, Seq::empty()).len() == 0,
        closing_frames(open, seq![first]) == cancelled(open, first),
        closing_frames(open, seq![first, second]) == cancelled(open, first) + cancelled(
            others(open, first),
            second,
        ),
{
    reveal_with_fuel(closing_frames, 3);
    assert(seq![first].skip(1) =~= Seq::<(Seq<char>, u64)>::empty());
    assert(seq![first, second].skip(1) =~= seq![second]);
    assert(seq![second].skip(1) =~= Seq::<(Seq<char>, u64)>::empty());
    assert(closing_frames(open, seq![first]) =~= cancelled(open, first));
    assert(closing_frames(others(open, first), seq![second]) =~= cancelled(
        others(open, first),
        second,
    ));
}

/// What a manager that is shutting down waits for: its sessions, while they can still
/// report; then device I/O, while it owes a restore that it may not write; and otherwise
/// it restores what it owes, or is done.
pub proof fn draining_waits_for_what_is_left(
    slots: SlotMap,
    events_open: bool,
    device_io_allowed: bool,
    key: Seq<char>,
)
    ensures
        ({
            let step = drain_step(slots, events_open, device_io_allowed);
            let runs = slots.dom().contains(key) && slots[key] is Running;
            let owes = slots.dom().contains(key) && (slots[key] matches SlotModel::Recovering(
                recovery,
            ) && recovery.pending_restore is Some);
            &&& runs && events_open ==> step == DrainStep::AwaitSession
            &&& !events_open && owes ==> step == (if device_io_allowed {
                DrainStep::Restore
            } else {
                DrainStep::AwaitDeviceIo
            })
            &&& owes ==> step != DrainStep::Finish
            &&& (forall|k: Seq<char>| #[trigger]
                slots.dom().contains(k) ==> (slots[k] matches SlotModel::Recovering(recovery)
                    && recovery.pending_restore is None)) ==> step == DrainStep::Finish
        }),
{
}

/// Pruning adds no slot.
pub proof fn pruning_adds_nothing(
    slots: SlotMap,
    published: Seq<DeviceCapturePlan>,
    key: Seq<char>,
)
    ensures
        slots_pruned(slots, published).dom().contains(key) ==> slots.dom().contains(key),
        slots_refreshed(slots, published).dom().contains(key) <==> slots.dom().contains(key),
{
}

/// The plan that is armed next is the first whose device needs a session: no device before
/// it does, and it is one only where some device does.
pub proof fn the_first_free_device_is_next(
    slots: SlotMap,
    published: Seq<DeviceCapturePlan>,
    now: u64,
    at: int,
    other: int,
)
    requires
        0 <= at < published.len(),
        0 <= other < published.len(),
    ensures
        is_next_to_arm(slots, published, now, at) ==> needs_session(
            slots,
            published[at].target.physical_key.model(),
            now,
        ),
        is_next_to_arm(slots, published, now, at) && is_next_to_arm(slots, published, now, other)
            ==> at == other,
        is_next_to_arm(slots, published, now, at) && needs_session(
            slots,
            published[other].target.physical_key.model(),
            now,
        ) ==> at <= other,
        nothing_to_arm(slots, published, now) ==> !needs_session(
            slots,
            published[other].target.physical_key.model(),
            now,
        ) && !is_next_to_arm(slots, published, now, at),
{
}

/// Ids are seen one by one, in order.
pub proof fn ids_are_seen_in_order(ids: Seq<HidppSessionId>, at: int)
    requires
        0 <= at < ids.len(),
    ensures
        id_models(ids).len() == ids.len(),
        id_models(ids)[at] == (ids[at].device_key@, ids[at].epoch),
{
}

} // verus!
