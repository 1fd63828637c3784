//! Hold-mode driver: one live pan or zoom per capture session.
use vstd::prelude::*;

use crate::binding::{Action, ButtonId};
use crate::capture_plan::{DispatchModel, DispatchPlan};
use crate::route::HidppSessionId;
use crate::value::{lemma_lookup_absent, lookup, Assoc, Value};

verus! {

/// How a held control was let go.
#[derive(Clone, Copy, Debug, PartialEq, Eq, Structural)]
pub enum HoldRelease {
    /// The user let go, after travelling past the click deadzone or not.
    Released { traveled: bool },
    /// Capture ended the stream with the control still held.
    Interrupted,
}

/// What one hold-mode transition asks of the injector.
#[derive(Clone, Copy, Debug, PartialEq, Eq, Structural)]
pub enum HoldCommand {
    PanBegin,
    /// Pan by so many sensor counts, at so many counts per inch.
    Pan { dx: i32, dy: i32, dpi: u16 },
    PanEnd,
    /// Zoom by so many sensor counts (up is positive), at so many counts per
    /// inch and so many percent of the default rate.
    Zoom { amount: i32, dpi: u16, sensitivity: u16 },
    ZoomEnd,
    /// A zoom control clicked without dragging.
    SmartZoom,
}

#[derive(Clone, Copy, Debug, PartialEq, Eq, Structural)]
pub enum HoldKind {
    Pan,
    Zoom,
}

impl HoldKind {
    pub open spec fn of(action: Action) -> Option<HoldKind> {
        match action {
            Action::Pan => Some(HoldKind::Pan),
            Action::Zoom => Some(HoldKind::Zoom),
            _ => None,
        }
    }

    pub fn from_action(action: &Action) -> (kind: Option<HoldKind>)
        ensures
            kind == HoldKind::of(*action),
    {
        match action {
            Action::Pan => Some(HoldKind::Pan),
            Action::Zoom => Some(HoldKind::Zoom),
            _ => None,
        }
    }
}

/// Feel settings, taken when a hold opens, so that a configuration change cannot
/// alter the scale under the user's hand.
#[derive(Clone, Copy, Debug, PartialEq, Eq, Structural)]
pub struct HoldFeel {
    pub zoom_sensitivity: u16,
    pub invert_pan: bool,
}

/// One capture session's hold.
#[derive(Clone, Copy, Debug, PartialEq, Eq, Structural)]
pub enum SessionHold {
    /// No hold; one may begin.
    Idle,
    Open { button: ButtonId, kind: HoldKind, dpi: u16, feel: HoldFeel },
    /// The session was cancelled. Every later event is ignored.
    Closed,
}

impl Value for SessionHold {
    type Model = SessionHold;

    open spec fn model(&self) -> SessionHold {
        *self
    }

    fn same(&self, other: &SessionHold) -> (same: bool) {
        *self == *other
    }

    fn copied(&self) -> (copy: SessionHold) {
        *self
    }
}

/// The command that ends a hold.
pub open spec fn ending(kind: HoldKind) -> HoldCommand {
    match kind {
        HoldKind::Pan => HoldCommand::PanEnd,
        HoldKind::Zoom => HoldCommand::ZoomEnd,
    }
}

fn end_command(kind: HoldKind) -> (command: HoldCommand)
    ensures
        command == ending(kind),
{
    match kind {
        HoldKind::Pan => HoldCommand::PanEnd,
        HoldKind::Zoom => HoldCommand::ZoomEnd,
    }
}

impl SessionHold {
    /// The hold that pressing a button opens: the button is bound to one, and the
    /// sensor's resolution is known.
    pub open spec fn opened(button: ButtonId, plan: DispatchModel) -> Option<SessionHold> {
        if plan.hold_bindings.dom().contains(button) && HoldKind::of(plan.hold_bindings[button]) is Some
            && plan.sensor_dpi is Some && plan.sensor_dpi->0 > 0 {
            Some(
                SessionHold::Open {
                    button,
                    kind: HoldKind::of(plan.hold_bindings[button])->0,
                    dpi: plan.sensor_dpi->0,
                    feel: HoldFeel {
                        zoom_sensitivity: plan.zoom_sensitivity,
                        invert_pan: plan.invert_pan,
                    },
                },
            )
        } else {
            None
        }
    }

    /// Whether exactly this button is held.
    pub open spec fn holds(self, button: ButtonId) -> bool {
        self matches SessionHold::Open { button: held, .. } && held == button
    }

    /// The command of a motion while this button is held. Motion that moves
    /// nothing has none.
    pub open spec fn moved(self, button: ButtonId, dx: i16, dy: i16) -> Option<HoldCommand> {
        match self {
            SessionHold::Open { button: held, kind: HoldKind::Pan, dpi, feel } if held == button
                && (dx != 0 || dy != 0) => Some(
                HoldCommand::Pan {
                    dx: (if feel.invert_pan { -dx } else { dx as int }) as i32,
                    dy: (if feel.invert_pan { -dy } else { dy as int }) as i32,
                    dpi,
                },
            ),
            SessionHold::Open { button: held, kind: HoldKind::Zoom, dpi, feel } if held == button
                && dy != 0 && feel.zoom_sensitivity != 0 => Some(
                HoldCommand::Zoom {
                    amount: (-dy) as i32,
                    dpi,
                    sensitivity: feel.zoom_sensitivity,
                },
            ),
            _ => None,
        }
    }

    /// The command of letting go of this button. A zoom that was never dragged is
    /// a click, and fires the discrete zoom; an interruption is no click.
    pub open spec fn released(self, button: ButtonId, release: HoldRelease) -> Option<HoldCommand> {
        match self {
            SessionHold::Open { button: held, kind, .. } if held == button => Some(
                if kind == HoldKind::Zoom && release == (HoldRelease::Released {
                    traveled: false,
                }) {
                    HoldCommand::SmartZoom
                } else {
                    ending(kind)
                },
            ),
            _ => None,
        }
    }

    /// The command that ends whatever is open.
    pub open spec fn closing(self) -> Option<HoldCommand> {
        match self {
            SessionHold::Open { kind, .. } => Some(ending(kind)),
            _ => None,
        }
    }
}

/// The commands that end whatever is open in each of the sessions.
pub open spec fn closings(entries: Seq<(HidppSessionId, SessionHold)>) -> Seq<HoldCommand>
    decreases entries.len(),
{
    if entries.len() == 0 {
        Seq::empty()
    } else {
        match entries.last().1.closing() {
            Some(command) => closings(entries.drop_last()).push(command),
            None => closings(entries.drop_last()),
        }
    }
}

/// Hold-mode state, by capture session.
#[derive(Debug)]
pub struct HoldSessions {
    pub by_session: Assoc<HidppSessionId, SessionHold>,
}

impl Default for HoldSessions {
    fn default() -> (holds: HoldSessions)
        ensures
            holds@ == Map::<(Seq<char>, u64), SessionHold>::empty(),
            holds.wf(),
    {
        HoldSessions { by_session: Assoc::new() }
    }
}

impl View for HoldSessions {
    type V = Map<(Seq<char>, u64), SessionHold>;

    open spec fn view(&self) -> Map<(Seq<char>, u64), SessionHold> {
        self.by_session@
    }
}

impl HoldSessions {
    /// Whether every session has one hold.
    pub open spec fn wf(self) -> bool {
        self.by_session.distinct()
    }

    /// A session's hold. One that was never seen is idle.
    pub open spec fn of(self, session: (Seq<char>, u64)) -> SessionHold {
        if self@.dom().contains(session) {
            self@[session]
        } else {
            SessionHold::Idle
        }
    }

    fn slot(&self, session: &HidppSessionId) -> (hold: SessionHold)
        ensures
            hold == self.of(session.model()),
    {
        match self.by_session.get(session) {
            Some(hold) => *hold,
            None => SessionHold::Idle,
        }
    }

    /// Open a hold if the session has none and is not closed, and `button` is
    /// bound to one. Zoom opens on its first motion, so only pan says so.
    pub fn begin(&mut self, session: &HidppSessionId, button: ButtonId, plan: &DispatchPlan) -> (command:
        Option<HoldCommand>)
        ensures
            ({
                let opened = SessionHold::opened(button, plan.model());
                if old(self).of(session.model()) == SessionHold::Idle && opened is Some {
                    &&& final(self)@ == old(self)@.insert(session.model(), opened->0)
                    &&& command == (if opened->0->kind == HoldKind::Pan {
                        Some(HoldCommand::PanBegin)
                    } else {
                        None
                    })
                } else {
                    &&& final(self)@ == old(self)@
                    &&& command is None
                }
            }),
            old(self).wf() ==> final(self).wf(),
    {
        if self.slot(session) != SessionHold::Idle {
            return None;
        }
        let kind: HoldKind = match plan.hold_bindings.get(&button) {
            Some(action) => match HoldKind::from_action(action) {
                Some(kind) => kind,
                None => {
                    return None;
                },
            },
            None => {
                return None;
            },
        };
        let dpi: u16 = match plan.sensor_dpi {
            Some(dpi) => dpi,
            None => 0,
        };
        if dpi == 0 {
            return None;
        }
        self.by_session.insert(
            session.copied(),
            SessionHold::Open {
                button,
                kind,
                dpi,
                feel: HoldFeel {
                    zoom_sensitivity: plan.zoom_sensitivity,
                    invert_pan: plan.invert_pan,
                },
            },
        );
        match kind {
            HoldKind::Pan => Some(HoldCommand::PanBegin),
            HoldKind::Zoom => None,
        }
    }

    /// Stream one motion report. Ignored unless exactly this button is held.
    pub fn motion(&self, session: &HidppSessionId, button: ButtonId, dx: i16, dy: i16) -> (command:
        Option<HoldCommand>)
        ensures
            command == self.of(session.model()).moved(button, dx, dy),
    {
        let x: i32 = dx as i32;
        let y: i32 = dy as i32;
        match self.slot(session) {
            SessionHold::Open { button: held, kind, dpi, feel } => {
                if held != button {
                    return None;
                }
                match kind {
                    HoldKind::Pan => {
                        if x == 0 && y == 0 {
                            None
                        } else if feel.invert_pan {
                            Some(HoldCommand::Pan { dx: 0 - x, dy: 0 - y, dpi })
                        } else {
                            Some(HoldCommand::Pan { dx: x, dy: y, dpi })
                        }
                    },
                    HoldKind::Zoom => {
                        if y == 0 || feel.zoom_sensitivity == 0 {
                            None
                        } else {
                            Some(
                                HoldCommand::Zoom {
                                    amount: 0 - y,
                                    dpi,
                                    sensitivity: feel.zoom_sensitivity,
                                },
                            )
                        }
                    },
                }
            },
            _ => None,
        }
    }

    /// End the live hold. A late end, after teardown or a completed hold, emits
    /// nothing.
    pub fn end(&mut self, session: &HidppSessionId, button: ButtonId, release: HoldRelease) -> (command:
        Option<HoldCommand>)
        ensures
            command == old(self).of(session.model()).released(button, release),
            final(self)@ == (if old(self).of(session.model()).holds(button) {
                old(self)@.insert(session.model(), SessionHold::Idle)
            } else {
                old(self)@
            }),
            old(self).wf() ==> final(self).wf(),
    {
        match self.slot(session) {
            SessionHold::Open { button: held, kind, .. } => {
                if held != button {
                    return None;
                }
                self.by_session.insert(session.copied(), SessionHold::Idle);
                match (kind, release) {
                    (HoldKind::Zoom, HoldRelease::Released { traveled: false }) => Some(
                        HoldCommand::SmartZoom,
                    ),
                    (kind, _) => Some(end_command(kind)),
                }
            },
            _ => None,
        }
    }

    /// End a live hold but let the session go on, for a profile switch or a
    /// refreshed plan.
    pub fn end_open(&mut self, session: &HidppSessionId) -> (command: Option<HoldCommand>)
        ensures
            command == old(self).of(session.model()).closing(),
            final(self)@ == (if old(self).of(session.model()) is Open {
                old(self)@.insert(session.model(), SessionHold::Idle)
            } else {
                old(self)@
            }),
            old(self).wf() ==> final(self).wf(),
    {
        match self.slot(session) {
            SessionHold::Open { kind, .. } => {
                self.by_session.insert(session.copied(), SessionHold::Idle);
                Some(end_command(kind))
            },
            _ => None,
        }
    }

    /// End any open hold and lock the session: a late begin must not start a hold
    /// that nothing will close.
    pub fn close_session(&mut self, session: &HidppSessionId) -> (command: Option<HoldCommand>)
        ensures
            command == old(self).of(session.model()).closing(),
            final(self)@ == old(self)@.insert(session.model(), SessionHold::Closed),
            old(self).wf() ==> final(self).wf(),
    {
        let command: Option<HoldCommand> = match self.slot(session) {
            SessionHold::Open { kind, .. } => Some(end_command(kind)),
            _ => None,
        };
        self.by_session.insert(session.copied(), SessionHold::Closed);
        command
    }

    /// End every open hold and lock every known session.
    pub fn close_all(&mut self) -> (commands: Vec<HoldCommand>)
        ensures
            commands@ == closings(old(self).by_session.entries@),
            final(self)@.dom() == old(self)@.dom(),
            forall|session: (Seq<char>, u64)|
                final(self)@.dom().contains(session) ==> #[trigger] final(self)@[session]
                    == SessionHold::Closed,
            old(self).wf() ==> final(self).wf(),
    {
        let mut commands: Vec<HoldCommand> = Vec::new();
        let mut i: usize = 0;
        while i < self.by_session.entries.len()
            invariant
                i <= self.by_session.entries@.len() == old(self).by_session.entries@.len(),
                commands@ == closings(old(self).by_session.entries@.take(i as int)),
                forall|j: int|
                    0 <= j < self.by_session.entries@.len() ==> (
                    #[trigger] self.by_session.entries@[j]).0 == old(self).by_session.entries@[j].0,
                forall|j: int|
                    0 <= j < i ==> (#[trigger] self.by_session.entries@[j]).1
                        == SessionHold::Closed,
                forall|j: int|
                    i <= j < self.by_session.entries@.len() ==> #[trigger] self.by_session.entries@[j]
                        == old(self).by_session.entries@[j],
            decreases self.by_session.entries@.len() - i,
        {
            proof {
                let all = old(self).by_session.entries@;
                assert(all.take(i + 1).drop_last() =~= all.take(i as int));
                assert(all.take(i + 1).last() == all[i as int]);
            }
            if let SessionHold::Open { kind, .. } = self.by_session.entries[i].1 {
                commands.push(end_command(kind));
            }
            self.by_session.entries[i].1 = SessionHold::Closed;
            i = i + 1;
        }
        proof {
            let before = old(self).by_session.entries@;
            let after = self.by_session.entries@;
            assert(before.take(i as int) =~= before);
            assert forall|session: (Seq<char>, u64)| #[trigger] self@.dom().contains(session)
                <==> old(self)@.dom().contains(session) by {
                lemma_lookup_absent(before, session);
                lemma_lookup_absent(after, session);
                if lookup(before, session) is Some {
                    let at = old(self).by_session.lemma_key(session);
                    assert(after[at].0 == before[at].0);
                }
                if lookup(after, session) is Some {
                    let at = self.by_session.lemma_key(session);
                    assert(after[at].0 == before[at].0);
                }
            }
            assert(self@.dom() =~= old(self)@.dom());
            assert forall|session: (Seq<char>, u64)| self@.dom().contains(session) implies
                #[trigger] self@[session] == SessionHold::Closed by {
                lemma_closed(after, session);
            }
            if old(self).wf() {
                assert forall|a: int, b: int| 0 <= a < b < after.len() implies (
                #[trigger] after[a]).0.model() != (#[trigger] after[b]).0.model() by {
                    assert(before[a].0.model() != before[b].0.model());
                }
            }
        }
        commands
    }
}

proof fn lemma_closed(entries: Seq<(HidppSessionId, SessionHold)>, session: (Seq<char>, u64))
    requires
        forall|i: int| 0 <= i < entries.len() ==> (#[trigger] entries[i]).1 == SessionHold::Closed,
        lookup(entries, session) is Some,
    ensures
        lookup(entries, session) == Some(SessionHold::Closed),
    decreases entries.len(),
{
    let before = entries.drop_last();
    assert(entries[entries.len() - 1].1 == SessionHold::Closed);
    if entries.last().0.model() != session {
        assert forall|i: int| 0 <= i < before.len() implies (#[trigger] before[i]).1
            == SessionHold::Closed by {
            assert(before[i] == entries[i]);
        }
        lemma_closed(before, session);
    }
}

// ── Laws ────────────────────────────────────────────────────────────────────

/// A closed session stays silent: no motion, release or refresh emits anything.
pub proof fn closed_sessions_stay_silent(button: ButtonId, dx: i16, dy: i16, release: HoldRelease)
    ensures
        SessionHold::Closed.moved(button, dx, dy) is None,
        SessionHold::Closed.released(button, release) is None,
        SessionHold::Closed.closing() is None,
{
}

/// A pan never reaches the zoom sink, nor a zoom the pan sink.
pub proof fn kinds_never_mix(hold: SessionHold, button: ButtonId, dx: i16, dy: i16)
    requires
        hold is Open,
    ensures
        hold.moved(button, dx, dy) is Some ==> (hold.moved(button, dx, dy)->0 is Pan
            <==> hold->kind == HoldKind::Pan),
        hold.closing() == Some(HoldCommand::PanEnd) <==> hold->kind == HoldKind::Pan,
{
}

/// Tearing a zoom down is never taken for a click: the discrete zoom comes only
/// from a release by the user, without travel.
pub proof fn only_a_click_is_a_smart_zoom(hold: SessionHold, button: ButtonId, release: HoldRelease)
    ensures
        hold.closing() != Some(HoldCommand::SmartZoom),
        hold.released(button, release) == Some(HoldCommand::SmartZoom) ==> release == (
        HoldRelease::Released { traveled: false }) && hold->kind == HoldKind::Zoom,
{
}

/// Inverting pan negates both axes, and nothing else.
pub proof fn inverting_pan_negates_both_axes(
    button: ButtonId,
    dpi: u16,
    sensitivity: u16,
    dx: i16,
    dy: i16,
)
    requires
        dx != 0 || dy != 0,
    ensures
        ({
            let natural = SessionHold::Open {
                button,
                kind: HoldKind::Pan,
                dpi,
                feel: HoldFeel { zoom_sensitivity: sensitivity, invert_pan: false },
            };
            let inverted = SessionHold::Open {
                button,
                kind: HoldKind::Pan,
                dpi,
                feel: HoldFeel { zoom_sensitivity: sensitivity, invert_pan: true },
            };
            &&& natural.moved(button, dx, dy)->0->Pan_dx == -inverted.moved(button, dx, dy)->0->Pan_dx
            &&& natural.moved(button, dx, dy)->0->Pan_dy == -inverted.moved(button, dx, dy)->0->Pan_dy
        }),
{
}

/// Pressing a control that is bound to panning opens a pan, and one that is bound to
/// zooming a zoom, at the sensor's resolution and with the plan's settings. A control
/// that is bound to anything else opens nothing, nor does any while the resolution is
/// not known.
pub proof fn holds_open_as_bound(button: ButtonId, plan: DispatchModel)
    ensures
        plan.hold_bindings.dom().contains(button) && plan.hold_bindings[button] == Action::Pan
            && (plan.sensor_dpi matches Some(dpi) && dpi > 0) ==> SessionHold::opened(button, plan)
            == Some(
            SessionHold::Open {
                button,
                kind: HoldKind::Pan,
                dpi: plan.sensor_dpi->0,
                feel: HoldFeel {
                    zoom_sensitivity: plan.zoom_sensitivity,
                    invert_pan: plan.invert_pan,
                },
            },
        ),
        plan.hold_bindings.dom().contains(button) && plan.hold_bindings[button] == Action::Zoom
            && (plan.sensor_dpi matches Some(dpi) && dpi > 0) ==> SessionHold::opened(button, plan)
            == Some(
            SessionHold::Open {
                button,
                kind: HoldKind::Zoom,
                dpi: plan.sensor_dpi->0,
                feel: HoldFeel {
                    zoom_sensitivity: plan.zoom_sensitivity,
                    invert_pan: plan.invert_pan,
                },
            },
        ),
        SessionHold::opened(button, plan) is Some ==> {
            &&& plan.hold_bindings.dom().contains(button)
            &&& plan.hold_bindings[button] == Action::Pan || plan.hold_bindings[button]
                == Action::Zoom
            &&& plan.sensor_dpi is Some && plan.sensor_dpi->0 != 0
        },
{
}

/// A pan follows the hand: it moves as far as the sensor did, on both axes, the same way
/// or, inverted, the other way. Only motion while its own button is held moves it.
pub proof fn pans_follow_the_hand(
    button: ButtonId,
    held: ButtonId,
    dpi: u16,
    feel: HoldFeel,
    dx: i16,
    dy: i16,
)
    ensures
        ({
            let pan = SessionHold::Open { button: held, kind: HoldKind::Pan, dpi, feel };
            let moved = pan.moved(button, dx, dy);
            &&& moved is Some <==> button == held && !(dx == 0 && dy == 0)
            &&& moved is Some ==> (moved->0 matches HoldCommand::Pan { dx: x, dy: y, dpi: at } && {
                &&& at == dpi
                &&& !feel.invert_pan ==> x == dx && y == dy
                &&& feel.invert_pan ==> x == -dx && y == -dy
            })
        }),
{
}

/// A zoom grows as the hand moves up and shrinks as it moves down, by as much as the
/// sensor moved; sideways motion does not zoom, nor does any at no sensitivity.
pub proof fn zooms_grow_upward(
    button: ButtonId,
    held: ButtonId,
    dpi: u16,
    feel: HoldFeel,
    dx: i16,
    dy: i16,
)
    ensures
        ({
            let zoom = SessionHold::Open { button: held, kind: HoldKind::Zoom, dpi, feel };
            let moved = zoom.moved(button, dx, dy);
            &&& moved is Some <==> button == held && dy != 0 && feel.zoom_sensitivity != 0
            &&& moved is Some ==> (moved->0 matches HoldCommand::Zoom {
                amount,
                dpi: at,
                sensitivity,
            } && {
                &&& at == dpi
                &&& sensitivity == feel.zoom_sensitivity
                &&& amount + dy == 0
                &&& dy < 0 <==> amount > 0
            })
        }),
{
}

/// Letting go of a hold's own button ends it by the command of its kind; only a zoom
/// that the user let go without travel ends in the discrete zoom. Another button ends
/// nothing, and nothing ends what is not open.
pub proof fn holds_end_by_their_kind(
    button: ButtonId,
    held: ButtonId,
    dpi: u16,
    feel: HoldFeel,
    release: HoldRelease,
)
    ensures
        ({
            let pan = SessionHold::Open { button: held, kind: HoldKind::Pan, dpi, feel };
            let zoom = SessionHold::Open { button: held, kind: HoldKind::Zoom, dpi, feel };
            &&& pan.closing() == Some(HoldCommand::PanEnd)
            &&& zoom.closing() == Some(HoldCommand::ZoomEnd)
            &&& pan.released(held, release) == Some(HoldCommand::PanEnd)
            &&& zoom.released(held, HoldRelease::Interrupted) == Some(HoldCommand::ZoomEnd)
            &&& zoom.released(held, HoldRelease::Released { traveled: true }) == Some(
                HoldCommand::ZoomEnd,
            )
            &&& zoom.released(held, HoldRelease::Released { traveled: false }) == Some(
                HoldCommand::SmartZoom,
            )
            &&& button != held ==> pan.released(button, release) is None && zoom.released(
                button,
                release,
            ) is None && !pan.holds(button) && !zoom.holds(button)
            &&& pan.holds(held) && zoom.holds(held)
            &&& !SessionHold::Idle.holds(button) && !SessionHold::Closed.holds(button)
            &&& SessionHold::Idle.released(button, release) is None
            &&& SessionHold::Idle.closing() is None
        }),
{
}

/// Closing every session ends each open hold once, by the command of its kind, in order.
pub proof fn closing_all_ends_each_hold(
    before: Seq<(HidppSessionId, SessionHold)>,
    entry: (HidppSessionId, SessionHold),
)
    ensures
        closings(Seq::empty()) == Seq::<HoldCommand>::empty(),
        closings(before.push(entry)) == (match entry.1 {
            SessionHold::Open { kind: HoldKind::Pan, .. } => closings(before).push(
                HoldCommand::PanEnd,
            ),
            SessionHold::Open { kind: HoldKind::Zoom, .. } => closings(before).push(
                HoldCommand::ZoomEnd,
            ),
            _ => closings(before),
        }),
{
    assert(before.push(entry).drop_last() =~= before);
}

/// A session that was never seen is idle, and so may open a hold; a seen one is as it
/// was left.
pub proof fn unseen_sessions_are_idle(holds: HoldSessions, session: (Seq<char>, u64))
    ensures
        !holds@.dom().contains(session) ==> holds.of(session) == SessionHold::Idle,
        holds@.dom().contains(session) ==> holds.of(session) == holds@[session],
{
}

} // verus!
