//! The life of one capture session: armed, refreshed, retired, recovered.
use vstd::prelude::*;

use crate::route::HidppSessionId;
use crate::value::Value;

verus! {

/// What reconciling a session with the wanted plan came to.
#[derive(Clone, Copy, Debug, PartialEq, Eq, Structural)]
pub enum ReconcileAction {
    /// Nothing changed.
    Unchanged,
    /// The session goes on with another dispatch plan.
    DispatchChanged,
    /// The session is to restore the firmware and end.
    Retiring,
}

/// What the completion of a session came to.
#[derive(Clone, Copy, Debug, PartialEq, Eq, Structural)]
pub enum CompletionAction {
    /// The completion is of another session.
    Ignore,
    /// The session is over. Unless it was asked to end, that is unexpected.
    Remove { unexpected: bool },
}

/// A tracked capture session.
#[derive(Debug)]
pub struct CaptureSession<T, D> {
    pub id: HidppSessionId,
    pub target: T,
    pub dispatch: D,
    /// Not yet asked to end.
    pub active: bool,
}

/// What a [`CaptureSession`] holds.
pub struct SessionModel<T, D> {
    pub id: (Seq<char>, u64),
    pub target: T,
    pub dispatch: D,
    pub active: bool,
}

impl<T, D> SessionModel<T, D> {
    /// What reconciling with a wanted plan comes to.
    pub open spec fn action(self, wanted: Option<(T, D)>) -> ReconcileAction {
        if !self.active {
            ReconcileAction::Unchanged
        } else if wanted is None || (wanted->0).0 != self.target {
            ReconcileAction::Retiring
        } else if (wanted->0).1 != self.dispatch {
            ReconcileAction::DispatchChanged
        } else {
            ReconcileAction::Unchanged
        }
    }

    /// The session reconciled with a wanted plan: a compatible plan is adopted,
    /// a missing or incompatible one retires the session and freezes it.
    pub open spec fn reconciled(self, wanted: Option<(T, D)>) -> SessionModel<T, D> {
        match self.action(wanted) {
            ReconcileAction::Unchanged => self,
            ReconcileAction::DispatchChanged => SessionModel { dispatch: (wanted->0).1, ..self },
            ReconcileAction::Retiring => SessionModel { active: false, ..self },
        }
    }
}

impl<T: Value, D: Value> Value for CaptureSession<T, D> {
    type Model = SessionModel<T::Model, D::Model>;

    open spec fn model(&self) -> SessionModel<T::Model, D::Model> {
        SessionModel {
            id: self.id.model(),
            target: self.target.model(),
            dispatch: self.dispatch.model(),
            active: self.active,
        }
    }

    fn same(&self, other: &CaptureSession<T, D>) -> (same: bool) {
        self.id.same(&other.id) && self.target.same(&other.target) && self.dispatch.same(
            &other.dispatch,
        ) && self.active == other.active
    }

    fn copied(&self) -> (copy: CaptureSession<T, D>) {
        CaptureSession {
            id: self.id.copied(),
            target: self.target.copied(),
            dispatch: self.dispatch.copied(),
            active: self.active,
        }
    }
}

/// The models of a wanted plan.
pub open spec fn wanted_model<T: Value, D: Value>(wanted: Option<(&T, &D)>) -> Option<
    (T::Model, D::Model),
> {
    match wanted {
        Some((target, dispatch)) => Some((target.model(), dispatch.model())),
        None => None,
    }
}

impl<T: Value, D: Value> CaptureSession<T, D> {
    /// A session that was just armed.
    pub fn active(id: HidppSessionId, target: T, dispatch: D) -> (session: CaptureSession<T, D>)
        ensures
            session == (CaptureSession { id, target, dispatch, active: true }),
    {
        CaptureSession { id, target, dispatch, active: true }
    }

    pub fn id(&self) -> (id: &HidppSessionId)
        ensures
            *id == self.id,
    {
        &self.id
    }

    pub fn target(&self) -> (target: &T)
        ensures
            *target == self.target,
    {
        &self.target
    }

    pub fn dispatch(&self) -> (dispatch: &D)
        ensures
            *dispatch == self.dispatch,
    {
        &self.dispatch
    }

    pub fn is_active(&self) -> (active: bool)
        ensures
            active == self.active,
    {
        self.active
    }

    /// Whether an input or a completion with this id belongs to the session.
    /// The epoch decides: adopting settings may rename the session's device.
    pub fn owns(&self, id: &HidppSessionId) -> (owns: bool)
        ensures
            owns == (self.id.epoch == id.epoch),
    {
        self.id.epoch == id.epoch
    }

    /// Bring the session in line with the wanted plan.
    pub fn reconcile(&mut self, wanted: Option<(&T, &D)>) -> (action: ReconcileAction)
        ensures
            action == old(self).model().action(wanted_model(wanted)),
            final(self).model() == old(self).model().reconciled(wanted_model(wanted)),
    {
        if !self.active {
            return ReconcileAction::Unchanged;
        }
        match wanted {
            Some((target, dispatch)) => {
                if !self.target.same(target) {
                    self.active = false;
                    ReconcileAction::Retiring
                } else if !self.dispatch.same(dispatch) {
                    self.dispatch = dispatch.copied();
                    ReconcileAction::DispatchChanged
                } else {
                    ReconcileAction::Unchanged
                }
            },
            None => {
                self.active = false;
                ReconcileAction::Retiring
            },
        }
    }

    /// Move the session to another configuration namespace. Its epoch stays.
    pub fn rekey(&mut self, device_key: &str)
        ensures
            final(self).model() == (SessionModel {
                id: (device_key@, old(self).id.epoch),
                ..old(self).model()
            }),
    {
        self.id = HidppSessionId::with_epoch(device_key, self.id.epoch);
    }

    /// What the completion reported under `id` means for this session.
    pub fn completion(&self, id: &HidppSessionId) -> (action: CompletionAction)
        ensures
            action == (if self.id.epoch == id.epoch {
                CompletionAction::Remove { unexpected: self.active }
            } else {
                CompletionAction::Ignore
            }),
    {
        if self.owns(id) {
            CompletionAction::Remove { unexpected: self.active }
        } else {
            CompletionAction::Ignore
        }
    }
}

/// Firmware ownership that a finished session could not release, and when its
/// manager may next try.
#[derive(Clone, Copy, Debug, PartialEq, Eq, Structural)]
pub struct PendingRestore {
    /// The number under which the restore is kept.
    pub token: u64,
    /// In milliseconds.
    pub retry_at: u64,
}

/// What is left to do for a device whose session is over.
#[derive(Clone, Copy, Debug, PartialEq, Eq, Structural)]
pub struct CaptureRecovery {
    pub pending_restore: Option<PendingRestore>,
    /// When another session may be armed, in milliseconds.
    pub restart_at: Option<u64>,
}

impl CaptureRecovery {
    /// Whether nothing is left to do.
    pub open spec fn empty(self) -> bool {
        self.pending_restore is None && self.restart_at is None
    }

    /// Whether a successor has to wait: for the restore, or for the delay.
    pub open spec fn blocks(self, now: u64) -> bool {
        self.pending_restore is Some || (self.restart_at matches Some(at) && at > now)
    }

    /// When there is something to do next. A restore goes before a restart.
    pub open spec fn due(self) -> Option<u64> {
        match self.pending_restore {
            Some(pending) => Some(pending.retry_at),
            None => self.restart_at,
        }
    }

    pub fn is_empty(&self) -> (empty: bool)
        ensures
            empty == self.empty(),
    {
        self.pending_restore.is_none() && self.restart_at.is_none()
    }

    pub fn blocks_restart(&self, now: u64) -> (blocks: bool)
        ensures
            blocks == self.blocks(now),
    {
        if self.pending_restore.is_some() {
            return true;
        }
        match self.restart_at {
            Some(at) => at > now,
            None => false,
        }
    }

    pub fn next_deadline(&self) -> (deadline: Option<u64>)
        ensures
            deadline == self.due(),
    {
        match self.pending_restore {
            Some(pending) => Some(pending.retry_at),
            None => self.restart_at,
        }
    }
}

/// What a manager tracks for one device.
#[derive(Debug)]
pub enum CaptureSlot<T, D> {
    Running(CaptureSession<T, D>),
    Recovering(CaptureRecovery),
}

/// What a [`CaptureSlot`] holds.
pub enum SlotModel<T, D> {
    Running(SessionModel<T, D>),
    Recovering(CaptureRecovery),
}

impl<T, D> SlotModel<T, D> {
    /// Whether a session runs under the epoch.
    pub open spec fn runs(self, epoch: u64) -> bool {
        self matches SlotModel::Running(session) && session.id.1 == epoch
    }

    /// The slot once its session is over.
    pub open spec fn completed(
        self,
        pending_restore: Option<PendingRestore>,
        restart_at: Option<u64>,
    ) -> SlotModel<T, D> {
        match self {
            SlotModel::Running(session) => SlotModel::Recovering(
                CaptureRecovery {
                    pending_restore,
                    restart_at: if session.active { restart_at } else { None },
                },
            ),
            SlotModel::Recovering(_) => self,
        }
    }

    /// The restore that the slot owes.
    pub open spec fn owed(self) -> Option<PendingRestore> {
        match self {
            SlotModel::Running(_) => None,
            SlotModel::Recovering(recovery) => recovery.pending_restore,
        }
    }
}

impl<T: Value, D: Value> Value for CaptureSlot<T, D> {
    type Model = SlotModel<T::Model, D::Model>;

    open spec fn model(&self) -> SlotModel<T::Model, D::Model> {
        match self {
            CaptureSlot::Running(session) => SlotModel::Running(session.model()),
            CaptureSlot::Recovering(recovery) => SlotModel::Recovering(*recovery),
        }
    }

    fn same(&self, other: &CaptureSlot<T, D>) -> (same: bool) {
        match (self, other) {
            (CaptureSlot::Running(a), CaptureSlot::Running(b)) => a.same(b),
            (CaptureSlot::Recovering(a), CaptureSlot::Recovering(b)) => *a == *b,
            _ => false,
        }
    }

    fn copied(&self) -> (copy: CaptureSlot<T, D>) {
        match self {
            CaptureSlot::Running(session) => CaptureSlot::Running(session.copied()),
            CaptureSlot::Recovering(recovery) => CaptureSlot::Recovering(*recovery),
        }
    }
}

impl<T: Value, D: Value> CaptureSlot<T, D> {
    pub fn session(&self) -> (session: Option<&CaptureSession<T, D>>)
        ensures
            session is Some <==> self is Running,
            session is Some ==> *session->0 == self->Running_0,
    {
        match self {
            CaptureSlot::Running(session) => Some(session),
            CaptureSlot::Recovering(_) => None,
        }
    }

    pub fn recovery(&self) -> (recovery: Option<CaptureRecovery>)
        ensures
            recovery == (match *self {
                CaptureSlot::Running(_) => None,
                CaptureSlot::Recovering(recovery) => Some(recovery),
            }),
    {
        match self {
            CaptureSlot::Running(_) => None,
            CaptureSlot::Recovering(recovery) => Some(*recovery),
        }
    }

    /// Note that the session reported under `id` is over. Its id at the end, and
    /// whether nobody asked it to end, come back; `None` where the slot runs no
    /// such session. A session that was asked to end may be succeeded at once.
    pub fn complete(
        &mut self,
        id: &HidppSessionId,
        pending_restore: Option<PendingRestore>,
        restart_at: Option<u64>,
    ) -> (ended: Option<(HidppSessionId, bool)>)
        ensures
            ended is Some <==> old(self).model().runs(id.epoch),
            ended is Some ==> (ended->0).0.model() == old(self).model()->Running_0.id && (ended->0).1
                == old(self).model()->Running_0.active && final(self).model()
                == old(self).model().completed(pending_restore, restart_at),
            ended is None ==> *final(self) == *old(self),
    {
        let (ended, unexpected) = match self {
            CaptureSlot::Running(session) => match session.completion(id) {
                CompletionAction::Remove { unexpected } => (session.id.copied(), unexpected),
                CompletionAction::Ignore => {
                    return None;
                },
            },
            CaptureSlot::Recovering(_) => {
                return None;
            },
        };
        *self = CaptureSlot::Recovering(
            CaptureRecovery {
                pending_restore,
                restart_at: if unexpected { restart_at } else { None },
            },
        );
        Some((ended, unexpected))
    }
}

// ── Laws ────────────────────────────────────────────────────────────────────

/// A retiring session is frozen: whatever is wanted next, its target and its
/// dispatch plan stay until its completion is reported.
pub proof fn retiring_sessions_are_frozen<T, D>(session: SessionModel<T, D>, wanted: Option<(T, D)>)
    requires
        !session.active,
    ensures
        session.reconciled(wanted) == session,
        session.action(wanted) == ReconcileAction::Unchanged,
{
}

/// The hardware is rearmed only for another target: a session whose target is
/// still wanted stays active and ends up with the wanted dispatch plan.
pub proof fn a_wanted_target_keeps_its_session<T, D>(session: SessionModel<T, D>, dispatch: D)
    requires
        session.active,
    ensures
        session.reconciled(Some((session.target, dispatch))) == (SessionModel {
            dispatch,
            ..session
        }),
{
}

/// Reconciling twice with the same plan does no more than reconciling once.
pub proof fn reconciling_settles<T, D>(session: SessionModel<T, D>, wanted: Option<(T, D)>)
    ensures
        session.reconciled(wanted).action(wanted) == ReconcileAction::Unchanged,
        session.reconciled(wanted).reconciled(wanted) == session.reconciled(wanted),
        session.reconciled(wanted).id == session.id,
        session.reconciled(wanted).target == session.target,
{
}

/// What reconciling comes to: a session that was asked to end is left alone; one whose
/// target is no longer wanted retires; one whose target is wanted with another plan takes
/// the plan; and one that is wanted as it is stays.
pub proof fn sessions_follow_what_is_wanted<T, D>(
    session: SessionModel<T, D>,
    target: T,
    dispatch: D,
)
    requires
        session.active,
    ensures
        session.action(None) == ReconcileAction::Retiring,
        !session.reconciled(None).active,
        session.reconciled(None).dispatch == session.dispatch,
        target != session.target ==> session.action(Some((target, dispatch)))
            == ReconcileAction::Retiring && !session.reconciled(Some((target, dispatch))).active
            && session.reconciled(Some((target, dispatch))).dispatch == session.dispatch,
        target == session.target && dispatch != session.dispatch ==> session.action(
            Some((target, dispatch)),
        ) == ReconcileAction::DispatchChanged,
        target == session.target && dispatch == session.dispatch ==> session.action(
            Some((target, dispatch)),
        ) == ReconcileAction::Unchanged,
{
}

/// A successor waits for an owed restore, however long, and for the delay after an
/// unexpected end, until its instant has come; with neither it starts at once.
pub proof fn successors_wait_for_recovery(
    pending: PendingRestore,
    restart: Option<u64>,
    at: u64,
    now: u64,
)
    ensures
        ({
            let owing = CaptureRecovery { pending_restore: Some(pending), restart_at: restart };
            let delayed = CaptureRecovery { pending_restore: None, restart_at: Some(at) };
            let free = CaptureRecovery { pending_restore: None, restart_at: None };
            &&& owing.blocks(now) && !owing.empty() && owing.due() == Some(pending.retry_at)
            &&& delayed.blocks(now) <==> now < at
            &&& !delayed.empty() && delayed.due() == Some(at)
            &&& !free.blocks(now) && free.empty() && free.due() is None
        }),
{
}

/// A session that ends unasked leaves its restore and the delay of its successor; one
/// that was asked to end leaves its restore alone.
pub proof fn only_unexpected_ends_delay<T, D>(
    session: SessionModel<T, D>,
    pending_restore: Option<PendingRestore>,
    restart_at: Option<u64>,
)
    ensures
        session.active ==> SlotModel::Running(session).completed(pending_restore, restart_at)
            == SlotModel::<T, D>::Recovering(CaptureRecovery { pending_restore, restart_at }),
        !session.active ==> SlotModel::Running(session).completed(pending_restore, restart_at)
            == SlotModel::<T, D>::Recovering(
            CaptureRecovery { pending_restore, restart_at: None },
        ),
        SlotModel::Running(session).owed() is None,
        SlotModel::Running(session).completed(pending_restore, restart_at).owed()
            == pending_restore,
        SlotModel::Running(session).runs(session.id.1),
        forall|epoch: u64|
            epoch != session.id.1 ==> !#[trigger] SlotModel::Running(session).runs(epoch),
        forall|epoch: u64|
            !#[trigger] SlotModel::Running(session).completed(pending_restore, restart_at).runs(
                epoch,
            ),
{
}

/// What is wanted is seen by its target and its plan.
pub proof fn wanted_plans_are_seen_whole<T: Value, D: Value>(target: &T, dispatch: &D)
    ensures
        wanted_model(Some((target, dispatch))) == Some((target.model(), dispatch.model())),
        wanted_model::<T, D>(None) is None,
{
}

} // verus!
