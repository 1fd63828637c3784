//! Flow: cursor-at-screen-edge host switching.
use vstd::prelude::*;
use vstd::slice::slice_subrange;

use crate::edge::{CursorPosition, DisplayBounds, EdgeObservation, EdgeStateMachine, EdgeZone,
    ZoneTrigger, elapsed, host_for, occupied};
use crate::route::{DeviceRoute, RouteModel};
use crate::value::Value;

verus! {

/// Cursor sampling cadence while Flow is armed. Times are in milliseconds.
pub const ACTIVE_POLL: u64 = 16;

/// Cadence at which Flow checks whether it is armed.
pub const IDLE_POLL: u64 = 1_000;

/// How often the display list is read again while armed.
pub const DISPLAY_REFRESH: u64 = 2_000;

/// How long the cursor has to stay at an edge, so that brushing it on the way
/// does not switch.
pub const DWELL: u64 = 50;

/// Least time between two fires.
pub const COOLDOWN: u64 = 250;

/// Least time between two attempts to prepare a switch.
pub const PREPARE_RETRY: u64 = 5_000;

/// What arms an edge.
#[derive(Clone, Copy, Debug, PartialEq, Eq, Structural)]
pub enum FlowTriggerMode {
    /// Plain contact.
    Edge,
    /// Contact while Ctrl is held.
    CtrlEdge,
}

/// Everything one armed Flow needs.
#[derive(Debug)]
pub struct FlowSpec {
    pub triggers: Vec<ZoneTrigger>,
    pub trigger_mode: FlowTriggerMode,
    /// The pointing device that jumps hosts.
    pub pointer: DeviceRoute,
    /// Devices that follow the pointer.
    pub followers: Vec<DeviceRoute>,
}

/// What a [`FlowSpec`] holds.
pub struct FlowModel {
    pub triggers: Seq<ZoneTrigger>,
    pub trigger_mode: FlowTriggerMode,
    pub pointer: RouteModel,
    pub followers: Seq<RouteModel>,
}

impl Value for FlowSpec {
    type Model = FlowModel;

    open spec fn model(&self) -> FlowModel {
        FlowModel {
            triggers: self.triggers@,
            trigger_mode: self.trigger_mode,
            pointer: self.pointer.model(),
            followers: self.followers.model(),
        }
    }

    fn same(&self, other: &FlowSpec) -> (same: bool) {
        proof {
            assert(self.triggers.model() =~= self.triggers@);
            assert(other.triggers.model() =~= other.triggers@);
        }
        self.triggers.same(&other.triggers) && self.trigger_mode == other.trigger_mode
            && self.pointer.same(&other.pointer) && self.followers.same(&other.followers)
    }

    fn copied(&self) -> (copy: FlowSpec) {
        let triggers: Vec<ZoneTrigger> = self.triggers.copied();
        proof {
            assert(self.triggers.model() =~= self.triggers@);
            assert(triggers.model() =~= triggers@);
        }
        FlowSpec {
            triggers,
            trigger_mode: self.trigger_mode,
            pointer: self.pointer.copied(),
            followers: self.followers.copied(),
        }
    }
}

/// Whether edges are live: with the Ctrl mode only while Ctrl is known to be
/// held, so that the mode never degrades to plain contact where nobody knows.
pub open spec fn live(mode: FlowTriggerMode, ctrl_held: Option<bool>) -> bool {
    mode == FlowTriggerMode::Edge || ctrl_held == Some(true)
}

/// The triggers the machine may act on now.
pub fn effective_triggers(
    mode: FlowTriggerMode,
    ctrl_held: Option<bool>,
    triggers: &[ZoneTrigger],
) -> (effective: &[ZoneTrigger])
    ensures
        effective@ == (if live(mode, ctrl_held) {
            triggers@
        } else {
            Seq::empty()
        }),
{
    match mode {
        FlowTriggerMode::Edge => triggers,
        FlowTriggerMode::CtrlEdge => match ctrl_held {
            Some(true) => triggers,
            _ => slice_subrange(triggers, 0, 0),
        },
    }
}

/// The hosts that a switch may be asked for.
pub fn hosts_of(triggers: &[ZoneTrigger]) -> (hosts: Vec<u8>)
    ensures
        hosts@.len() == triggers@.len(),
        forall|i: int| 0 <= i < hosts@.len() ==> hosts@[i] == (#[trigger] triggers@[i]).host,
{
    let mut hosts: Vec<u8> = Vec::new();
    let mut i: usize = 0;
    while i < triggers.len()
        invariant
            i <= triggers@.len(),
            hosts@.len() == i,
            forall|j: int| 0 <= j < i ==> hosts@[j] == (#[trigger] triggers@[j]).host,
        decreases triggers@.len() - i,
    {
        hosts.push(triggers[i].host);
        i = i + 1;
    }
    hosts
}

// ── Firing ──────────────────────────────────────────────────────────────────

/// How a prepared fire ended, and so which fallback is safe. A write that was
/// accepted cannot be recalled.
#[derive(Clone, Copy, Debug, PartialEq, Eq, Structural)]
pub enum FastOutcome {
    /// Every device switched, or was already on the target host.
    Switched,
    /// Nothing was told to move.
    AbortedCleanly,
    /// A follower departed before a later failure.
    Committed,
}

/// What one device answered to a switch: whether it moved, or that it failed.
pub type Answer = Option<bool>;

/// Whether a device departed.
pub open spec fn departed(answers: Seq<Answer>) -> bool {
    exists|i: int| 0 <= i < answers.len() && #[trigger] answers[i] == Some(true)
}

/// Where the first device failed of those before which none departed.
pub open spec fn stops(answers: Seq<Answer>) -> bool {
    exists|i: int|
        0 <= i < answers.len() && #[trigger] answers[i] is None && !departed(answers.take(i))
}

/// The outcome of a fire.
pub open spec fn outcome(followers: Seq<Answer>, pointer: Answer) -> FastOutcome {
    if stops(followers) {
        FastOutcome::AbortedCleanly
    } else if pointer is Some {
        FastOutcome::Switched
    } else if departed(followers) {
        FastOutcome::Committed
    } else {
        FastOutcome::AbortedCleanly
    }
}

/// The prepared fire's state: the followers are written to one by one, then the
/// pointer, last, because once it leaves nothing else can be commanded through a
/// shared receiver.
#[derive(Clone, Copy, Debug, PartialEq, Eq, Structural)]
pub struct FastSwitch {
    pub departed: bool,
}

impl FastSwitch {
    pub fn new() -> (switch: FastSwitch)
        ensures
            !switch.departed,
    {
        FastSwitch { departed: false }
    }

    /// Take a follower's answer. `false` aborts the fire cleanly: the follower
    /// failed and nothing has moved. After a departure the rest is still tried.
    pub fn follower(&mut self, answer: Answer) -> (go_on: bool)
        ensures
            go_on == (answer is Some || old(self).departed),
            final(self).departed == (old(self).departed || answer == Some(true)),
    {
        match answer {
            Some(switched) => {
                self.departed = self.departed || switched;
                true
            },
            None => self.departed,
        }
    }

    /// Take the pointer's answer.
    pub fn pointer(&self, answer: Answer) -> (outcome: FastOutcome)
        ensures
            outcome == (if answer is Some {
                FastOutcome::Switched
            } else if self.departed {
                FastOutcome::Committed
            } else {
                FastOutcome::AbortedCleanly
            }),
    {
        match answer {
            Some(_) => FastOutcome::Switched,
            None => if self.departed {
                FastOutcome::Committed
            } else {
                FastOutcome::AbortedCleanly
            },
        }
    }
}

/// The outcome of a prepared fire from the answers of all its devices.
pub fn fast_switch(followers: &Vec<Answer>, pointer: Answer) -> (out: FastOutcome)
    ensures
        out == outcome(followers@, pointer),
{
    let mut switch: FastSwitch = FastSwitch::new();
    let mut i: usize = 0;
    while i < followers.len()
        invariant
            i <= followers@.len(),
            switch.departed == departed(followers@.take(i as int)),
            !stops(followers@.take(i as int)),
        decreases followers@.len() - i,
    {
        let ghost shorter = followers@.take(i as int);
        let ghost longer = followers@.take(i + 1);
        proof {
            assert(forall|j: int| 0 <= j < i ==> shorter[j] == longer[j]);
            assert(longer[i as int] == followers@[i as int]);
            if departed(shorter) {
                let j = choose|j: int| 0 <= j < shorter.len() && #[trigger] shorter[j] == Some(true);
                assert(longer[j] == Some(true));
            }
            if departed(longer) && followers@[i as int] != Some(true) {
                let j = choose|j: int| 0 <= j < longer.len() && #[trigger] longer[j] == Some(true);
                assert(shorter[j] == Some(true));
            }
        }
        let go_on: bool = switch.follower(followers[i]);
        if !go_on {
            proof {
                assert(followers@[i as int] is None && !departed(followers@.take(i as int)));
            }
            return FastOutcome::AbortedCleanly;
        }
        proof {
            if stops(longer) {
                let j = choose|j: int|
                    0 <= j < longer.len() && #[trigger] longer[j] is None && !departed(
                        longer.take(j),
                    );
                if j < i {
                    assert(shorter.take(j) =~= longer.take(j));
                    assert(shorter[j] is None);
                } else {
                    assert(longer.take(j) =~= shorter);
                }
            }
        }
        i = i + 1;
    }
    assert(followers@.take(i as int) =~= followers@);
    switch.pointer(pointer)
}

/// A clean abort is clean: up to the failure that caused it, no device departed.
pub proof fn clean_aborts_move_nothing(followers: Seq<Answer>, pointer: Answer)
    requires
        outcome(followers, pointer) == FastOutcome::AbortedCleanly,
    ensures
        !departed(followers) || exists|i: int|
            0 <= i < followers.len() && #[trigger] followers[i] is None && !departed(
                followers.take(i),
            ),
{
}

/// A set is split only where it must be pushed on: the pointer stays while a
/// follower left just in the outcome that is pressed forward.
pub proof fn only_a_committed_fire_is_split(followers: Seq<Answer>, pointer: Answer)
    requires
        !stops(followers),
    ensures
        outcome(followers, pointer) == FastOutcome::Committed <==> departed(followers) && pointer is None,
{
}

// ── The watcher ─────────────────────────────────────────────────────────────

/// The pre-acquired exclusive lease.
#[derive(Clone, Copy, Debug, PartialEq, Eq, Structural)]
pub enum LeaseState {
    /// Nothing requested.
    Idle,
    /// An acquisition runs, or has finished and holds the lease.
    Acquiring,
}

/// What an observation calls for.
#[derive(Clone, Copy, Debug, PartialEq, Eq, Structural)]
pub enum FlowAction {
    /// Nothing.
    Wait,
    /// Withdraw the request, or give the lease back.
    ReleaseLease,
    /// Start to acquire the exclusive lease, which makes every capture let go.
    AcquireLease,
    /// Switch to the host: with the lease that was requested, or one requested
    /// now; over the prepared transports where they are for the present spec.
    Fire { host: u8, lease_requested: bool, prepared: bool },
}

/// What follows a fire.
#[derive(Clone, Copy, Debug, PartialEq, Eq, Structural)]
pub enum AfterFire {
    /// Give the lease back.
    Done,
    /// Switch all devices or none.
    SwitchStrictly,
    /// Bring the pointer, and whoever is still here, across.
    PressForward,
}

/// The Flow watcher's state.
#[derive(Debug)]
pub struct FlowWatch {
    pub machine: EdgeStateMachine,
    pub displays_read_at: Option<u64>,
    pub lease: LeaseState,
    /// The spec for which a switch is prepared.
    pub prepared_for: Option<FlowSpec>,
    pub prepare_attempted_at: Option<u64>,
}

/// Whether so much time has passed since something happened, if ever it did.
pub open spec fn is_overdue(last: Option<u64>, now: u64, period: u64) -> bool {
    last matches Some(at) ==> elapsed(now, at) >= period
}

fn overdue(last: Option<u64>, now: u64, period: u64) -> (yes: bool)
    ensures
        yes == is_overdue(last, now, period),
{
    match last {
        Some(at) => now.saturating_sub(at) >= period,
        None => true,
    }
}

impl FlowWatch {
    pub fn new() -> (watch: FlowWatch)
        ensures
            watch == (FlowWatch {
                machine: EdgeStateMachine { current: None, spent: false, last_fire: None },
                displays_read_at: None,
                lease: LeaseState::Idle,
                prepared_for: None,
                prepare_attempted_at: None,
            }),
    {
        FlowWatch {
            machine: EdgeStateMachine { current: None, spent: false, last_fire: None },
            displays_read_at: None,
            lease: LeaseState::Idle,
            prepared_for: None,
            prepare_attempted_at: None,
        }
    }

    /// Whether a switch is prepared for exactly this spec.
    pub open spec fn is_prepared(self, spec: FlowModel) -> bool {
        self.prepared_for matches Some(own) && own.model() == spec
    }

    /// Flow is disarmed: forget the zones and give the lease back. The prepared
    /// switch is kept, for the devices being away is the state from which a
    /// return trip resumes. Whether a lease has to be given back comes back.
    pub fn disarm(&mut self) -> (release: bool)
        ensures
            release == (old(self).lease == LeaseState::Acquiring),
            *final(self) == (FlowWatch {
                machine: EdgeStateMachine { current: None, spent: false, last_fire: None },
                displays_read_at: None,
                lease: LeaseState::Idle,
                prepare_attempted_at: None,
                ..*old(self)
            }),
    {
        let release: bool = self.lease == LeaseState::Acquiring;
        self.machine = EdgeStateMachine { current: None, spent: false, last_fire: None };
        self.displays_read_at = None;
        self.lease = LeaseState::Idle;
        self.prepare_attempted_at = None;
        release
    }

    /// Whether to prepare the switch now, ahead of a fire. Attempts are paced,
    /// and none is made while someone wants the receiver for itself.
    pub fn should_prepare(&mut self, spec: &FlowSpec, now: u64, exclusive_requested: bool) -> (prepare:
        bool)
        ensures
            prepare == (!old(self).is_prepared(spec.model()) && is_overdue(
                old(self).prepare_attempted_at,
                now,
                PREPARE_RETRY,
            ) && !exclusive_requested),
            *final(self) == (FlowWatch {
                prepare_attempted_at: if prepare {
                    Some(now)
                } else {
                    old(self).prepare_attempted_at
                },
                ..*old(self)
            }),
    {
        let ready: bool = match &self.prepared_for {
            Some(own) => own.same(spec),
            None => false,
        };
        let prepare: bool = !ready && overdue(self.prepare_attempted_at, now, PREPARE_RETRY)
            && !exclusive_requested;
        if prepare {
            self.prepare_attempted_at = Some(now);
        }
        prepare
    }

    /// Note how preparing went, for the followers that were tried, in order. It is
    /// all or nothing: a switch that missed a follower would leave that follower
    /// behind.
    pub fn prepare_flow(&mut self, spec: &FlowSpec, pointer_ready: bool, followers_ready: &Vec<bool>) -> (ready:
        bool)
        ensures
            ready == (pointer_ready && followers_ready@.len() == spec.followers@.len() && forall|
                i: int,
            |
                0 <= i < followers_ready@.len() ==> followers_ready@[i]),
            ready ==> final(self).is_prepared(spec.model()),
            !ready ==> final(self).prepared_for is None,
            final(self).machine == old(self).machine,
            final(self).displays_read_at == old(self).displays_read_at,
            final(self).lease == old(self).lease,
            final(self).prepare_attempted_at == old(self).prepare_attempted_at,
    {
        let whole: bool = pointer_ready && followers_ready.len() == spec.followers.len();
        let mut ready: bool = whole;
        let mut i: usize = 0;
        while i < followers_ready.len()
            invariant
                i <= followers_ready@.len(),
                ready == (whole && forall|j: int| 0 <= j < i ==> followers_ready@[j]),
            decreases followers_ready@.len() - i,
        {
            ready = ready && followers_ready[i];
            i = i + 1;
        }
        if ready {
            self.prepared_for = Some(spec.copied());
        } else {
            self.prepared_for = None;
        }
        ready
    }

    /// Whether to read the display list now.
    pub fn should_read_displays(&mut self, now: u64) -> (read: bool)
        ensures
            read == is_overdue(old(self).displays_read_at, now, DISPLAY_REFRESH),
            *final(self) == (FlowWatch {
                displays_read_at: if read {
                    Some(now)
                } else {
                    old(self).displays_read_at
                },
                ..*old(self)
            }),
    {
        let read: bool = overdue(self.displays_read_at, now, DISPLAY_REFRESH);
        if read {
            self.displays_read_at = Some(now);
        }
        read
    }

    /// What the machine concludes of a sample. Without a cursor it concludes
    /// nothing and stays as it is.
    pub open spec fn conclusion(
        self,
        spec: FlowModel,
        cursor: Option<CursorPosition>,
        ctrl_held: Option<bool>,
        displays: Seq<DisplayBounds>,
        now: u64,
    ) -> EdgeObservation {
        match cursor {
            Some(point) => self.machine.concludes(
                occupied(
                    point,
                    displays,
                    if live(spec.trigger_mode, ctrl_held) {
                        spec.triggers
                    } else {
                        Seq::empty()
                    },
                ),
                DWELL,
                COOLDOWN,
                now,
            ),
            None => EdgeObservation::Idle,
        }
    }

    /// The machine after a sample.
    pub open spec fn sampled(
        self,
        spec: FlowModel,
        cursor: Option<CursorPosition>,
        ctrl_held: Option<bool>,
        displays: Seq<DisplayBounds>,
        now: u64,
    ) -> EdgeStateMachine {
        match cursor {
            Some(point) => self.machine.observed(
                occupied(
                    point,
                    displays,
                    if live(spec.trigger_mode, ctrl_held) {
                        spec.triggers
                    } else {
                        Seq::empty()
                    },
                ),
                DWELL,
                COOLDOWN,
                now,
            ),
            None => self.machine,
        }
    }

    /// What a conclusion calls for. Pairing wins outright: neither a request nor
    /// a fire is queued behind it.
    pub open spec fn action(self, spec: FlowModel, concluded: EdgeObservation, pairing: bool) -> FlowAction {
        let requested = self.lease == LeaseState::Acquiring;
        match concluded {
            EdgeObservation::Idle => if requested {
                FlowAction::ReleaseLease
            } else {
                FlowAction::Wait
            },
            EdgeObservation::Pending { .. } => if !requested && !pairing {
                FlowAction::AcquireLease
            } else {
                FlowAction::Wait
            },
            EdgeObservation::Fire { host } => if !pairing {
                FlowAction::Fire {
                    host,
                    lease_requested: requested,
                    prepared: self.is_prepared(spec),
                }
            } else if requested {
                FlowAction::ReleaseLease
            } else {
                FlowAction::Wait
            },
        }
    }

    /// Take one sample and decide what it calls for.
    pub fn watch(
        &mut self,
        spec: &FlowSpec,
        cursor: Option<CursorPosition>,
        ctrl_held: Option<bool>,
        displays: &[DisplayBounds],
        pairing: bool,
        now: u64,
    ) -> (action: FlowAction)
        ensures
            ({
                let concluded = old(self).conclusion(
                    spec.model(),
                    cursor,
                    ctrl_held,
                    displays@,
                    now,
                );
                &&& action == old(self).action(spec.model(), concluded, pairing)
                &&& *final(self) == (FlowWatch {
                    machine: old(self).sampled(spec.model(), cursor, ctrl_held, displays@, now),
                    lease: match action {
                        FlowAction::Wait => old(self).lease,
                        FlowAction::ReleaseLease => LeaseState::Idle,
                        FlowAction::AcquireLease => LeaseState::Acquiring,
                        FlowAction::Fire { .. } => LeaseState::Idle,
                    },
                    ..*old(self)
                })
            }),
    {
        let concluded: EdgeObservation = match cursor {
            Some(point) => {
                let triggers: &[ZoneTrigger] = effective_triggers(
                    spec.trigger_mode,
                    ctrl_held,
                    spec.triggers.as_slice(),
                );
                self.machine.observe(point, displays, triggers, DWELL, COOLDOWN, now)
            },
            None => EdgeObservation::Idle,
        };
        let requested: bool = self.lease == LeaseState::Acquiring;
        match concluded {
            EdgeObservation::Idle => {
                self.lease = LeaseState::Idle;
                if requested {
                    FlowAction::ReleaseLease
                } else {
                    FlowAction::Wait
                }
            },
            EdgeObservation::Pending { .. } => {
                if !requested && !pairing {
                    self.lease = LeaseState::Acquiring;
                    FlowAction::AcquireLease
                } else {
                    FlowAction::Wait
                }
            },
            EdgeObservation::Fire { host } => {
                self.lease = LeaseState::Idle;
                if !pairing {
                    let prepared: bool = match &self.prepared_for {
                        Some(own) => own.same(spec),
                        None => false,
                    };
                    FlowAction::Fire { host, lease_requested: requested, prepared }
                } else if requested {
                    FlowAction::ReleaseLease
                } else {
                    FlowAction::Wait
                }
            },
        }
    }

    /// Take the outcome of a fire, `None` where nothing was prepared. A prepared
    /// switch that failed is dropped, and prepared anew without delay.
    pub fn fired(&mut self, outcome: Option<FastOutcome>) -> (next: AfterFire)
        ensures
            next == (match outcome {
                Some(FastOutcome::Switched) => AfterFire::Done,
                Some(FastOutcome::Committed) => AfterFire::PressForward,
                _ => AfterFire::SwitchStrictly,
            }),
            next == AfterFire::Done ==> *final(self) == *old(self),
            next != AfterFire::Done ==> *final(self) == (FlowWatch {
                prepared_for: None,
                prepare_attempted_at: None,
                ..*old(self)
            }),
    {
        match outcome {
            Some(FastOutcome::Switched) => AfterFire::Done,
            Some(FastOutcome::Committed) => {
                self.prepared_for = None;
                self.prepare_attempted_at = None;
                AfterFire::PressForward
            },
            _ => {
                self.prepared_for = None;
                self.prepare_attempted_at = None;
                AfterFire::SwitchStrictly
            },
        }
    }
}

/// The receiver is never held while the cursor merely rests: a sample that is
/// idle leaves no lease requested.
pub proof fn idle_samples_hold_no_lease(
    watch: FlowWatch,
    spec: FlowModel,
    concluded: EdgeObservation,
    pairing: bool,
)
    requires
        concluded == EdgeObservation::Idle,
    ensures
        watch.action(spec, concluded, pairing) == FlowAction::ReleaseLease || (watch.action(
            spec,
            concluded,
            pairing,
        ) == FlowAction::Wait && watch.lease == LeaseState::Idle),
{
}

/// Nothing fires and nothing is requested while pairing waits or runs.
pub proof fn pairing_wins(watch: FlowWatch, spec: FlowModel, concluded: EdgeObservation)
    ensures
        !(watch.action(spec, concluded, true) is Fire),
        watch.action(spec, concluded, true) != FlowAction::AcquireLease,
{
}

/// Plain contact arms an edge always; the Ctrl mode arms it exactly while Ctrl is known to
/// be held.
pub proof fn ctrl_arms_the_ctrl_mode(held: Option<bool>)
    ensures
        live(FlowTriggerMode::Edge, held),
        live(FlowTriggerMode::CtrlEdge, Some(true)),
        !live(FlowTriggerMode::CtrlEdge, Some(false)),
        !live(FlowTriggerMode::CtrlEdge, None),
{
}

/// The outcome of a fire in which no follower fails: the set switches exactly where the
/// pointer answers. Where it does not, a follower that departed commits the fire, and
/// with none departed nothing has moved.
pub proof fn the_pointer_decides_a_sound_fire(followers: Seq<Answer>, moved: bool, at: int)
    requires
        forall|i: int| 0 <= i < followers.len() ==> #[trigger] followers[i] is Some,
    ensures
        outcome(followers, Some(moved)) == FastOutcome::Switched,
        0 <= at < followers.len() && followers[at] == Some(true) ==> outcome(followers, None)
            == FastOutcome::Committed,
        (forall|i: int| 0 <= i < followers.len() ==> #[trigger] followers[i] == Some(false))
            ==> outcome(followers, None) == FastOutcome::AbortedCleanly,
{
}

/// The first follower that fails before any departed aborts the fire cleanly, whatever
/// the later ones and the pointer would have said. After a departure a failed follower
/// aborts nothing.
pub proof fn an_early_failure_aborts_cleanly(
    before: Seq<Answer>,
    after: Seq<Answer>,
    pointer: Answer,
)
    requires
        forall|i: int| 0 <= i < before.len() ==> #[trigger] before[i] is Some,
    ensures
        (forall|i: int| 0 <= i < before.len() ==> #[trigger] before[i] == Some(false)) ==> outcome(
            before.push(None) + after,
            pointer,
        ) == FastOutcome::AbortedCleanly,
        (exists|i: int| 0 <= i < before.len() && #[trigger] before[i] == Some(true)) ==> outcome(
            before.push(None) + after,
            pointer,
        ) == (if pointer is Some {
            FastOutcome::Switched
        } else {
            FastOutcome::Committed
        }),
{
    let all = before.push(None) + after;
    let n = before.len() as int;
    assert(all[n] is None);
    assert(all.take(n) =~= before);
    if forall|i: int| 0 <= i < before.len() ==> #[trigger] before[i] == Some(false) {
        assert(!departed(before));
        assert(stops(all));
    }
    if exists|i: int| 0 <= i < before.len() && #[trigger] before[i] == Some(true) {
        let k = choose|i: int| 0 <= i < before.len() && #[trigger] before[i] == Some(true);
        assert(all[k] == Some(true));
        assert(departed(all));
        assert forall|j: int| 0 <= j < all.len() && #[trigger] all[j] is None implies departed(
            all.take(j),
        ) by {
            if j < n {
                assert(all[j] == before[j]);
            }
            assert(all.take(j)[k] == Some(true));
        }
        assert(!stops(all));
    }
}

/// What a conclusion calls for while nobody pairs: a pending push requests the lease once,
/// a fire goes to the very host that was concluded, over the prepared transports where
/// they are for this spec, and an idle sample gives a requested lease back.
pub proof fn conclusions_drive_the_lease(watch: FlowWatch, spec: FlowModel, host: u8)
    ensures
        watch.lease == LeaseState::Idle ==> {
            &&& watch.action(spec, EdgeObservation::Pending { host }, false)
                == FlowAction::AcquireLease
            &&& watch.action(spec, EdgeObservation::Idle, false) == FlowAction::Wait
        },
        watch.lease == LeaseState::Acquiring ==> {
            &&& watch.action(spec, EdgeObservation::Pending { host }, false) == FlowAction::Wait
            &&& watch.action(spec, EdgeObservation::Idle, false) == FlowAction::ReleaseLease
            &&& watch.action(spec, EdgeObservation::Fire { host }, true)
                == FlowAction::ReleaseLease
        },
        watch.action(spec, EdgeObservation::Fire { host }, false) == (FlowAction::Fire {
            host,
            lease_requested: watch.lease == LeaseState::Acquiring,
            prepared: watch.prepared_for is Some && watch.prepared_for->0.model() == spec,
        }),
{
}

/// A push that lasts fires after fifty milliseconds: the first sample in a bound zone is
/// pending, one within fifty milliseconds still is, and one from then on fires to the
/// zone's host. In the Ctrl mode all this takes Ctrl; without it the sample is idle.
pub proof fn a_lasting_push_fires(
    watch: FlowWatch,
    spec: FlowModel,
    point: CursorPosition,
    ctrl_held: Option<bool>,
    displays: Seq<DisplayBounds>,
    entered: u64,
    now: u64,
)
    requires
        watch.machine == (EdgeStateMachine { current: None, spent: false, last_fire: None }),
        occupied(point, displays, spec.triggers) is Some,
        entered <= now,
    ensures
        ({
            let host = occupied(point, displays, spec.triggers)->0.host;
            let armed = spec.trigger_mode == FlowTriggerMode::Edge || ctrl_held == Some(true);
            let first = watch.conclusion(spec, Some(point), ctrl_held, displays, entered);
            let machine = watch.sampled(spec, Some(point), ctrl_held, displays, entered);
            let later = (FlowWatch { machine, ..watch }).conclusion(
                spec,
                Some(point),
                ctrl_held,
                displays,
                now,
            );
            &&& armed ==> first == (EdgeObservation::Pending { host })
            &&& armed && now - entered < 50 ==> later == (EdgeObservation::Pending { host })
            &&& armed && now - entered >= 50 ==> later == (EdgeObservation::Fire { host })
            &&& !armed ==> first == EdgeObservation::Idle && later == EdgeObservation::Idle
        }),
{
    let none = Seq::<ZoneTrigger>::empty();
    assert(forall|zone: EdgeZone| #[trigger] host_for(none, zone) is None);
}

/// Without a cursor nothing is concluded and the machine stays as it is.
pub proof fn no_cursor_changes_nothing(
    watch: FlowWatch,
    spec: FlowModel,
    ctrl_held: Option<bool>,
    displays: Seq<DisplayBounds>,
    now: u64,
)
    ensures
        watch.conclusion(spec, None, ctrl_held, displays, now) == EdgeObservation::Idle,
        watch.sampled(spec, None, ctrl_held, displays, now) == watch.machine,
{
}

/// Two fires are a quarter of a second apart at least, and a push that only waits for
/// that fires then.
pub proof fn fires_are_a_quarter_second_apart(
    watch: FlowWatch,
    spec: FlowModel,
    point: CursorPosition,
    displays: Seq<DisplayBounds>,
    at: u64,
    now: u64,
)
    requires
        spec.trigger_mode == FlowTriggerMode::Edge,
        !watch.machine.spent,
        watch.machine.last_fire == Some(at),
        at <= now,
        occupied(point, displays, spec.triggers) is Some,
        watch.machine.current == Some((occupied(point, displays, spec.triggers)->0, at)),
    ensures
        watch.conclusion(spec, Some(point), None, displays, now) is Fire <==> now - at >= 250,
{
}

/// Something that never happened is overdue; otherwise it is once its whole period is
/// over: preparing after five seconds, reading the displays after two.
pub proof fn periods_run_out(last: u64, now: u64)
    requires
        last <= now,
    ensures
        is_overdue(None, now, PREPARE_RETRY),
        is_overdue(Some(last), now, PREPARE_RETRY) <==> now - last >= 5_000,
        is_overdue(Some(last), now, DISPLAY_REFRESH) <==> now - last >= 2_000,
{
}

} // verus!
