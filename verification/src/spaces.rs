//! Raw-motion gestures that the system renders as an interactive Space transition.
use vstd::prelude::*;

use crate::binding::{Action, ButtonId, GestureDirection};
use crate::capture_plan::{DispatchModel, DispatchPlan};
use crate::route::HidppSessionId;
use crate::value::{lemma_lookup_absent, lemma_lookup_remove, lookup, Assoc, Value};

verus! {

/// Where a native frame stands in its transition.
#[derive(Clone, Copy, Debug, PartialEq, Eq, Structural)]
pub enum InteractiveSpacePhase {
    Began,
    Changed,
    Ended,
    Cancelled,
}

/// One native frame of an active transition.
#[derive(Clone, Copy, Debug, PartialEq, Eq, Structural)]
pub struct SpaceSwipeFrame {
    /// Horizontal travel since the gesture began, positive toward the next Space.
    pub progress_x: i64,
    pub phase: InteractiveSpacePhase,
}

/// A transition in progress.
#[derive(Clone, Copy, Debug, PartialEq, Eq, Structural)]
pub struct ActiveSpaceTransition {
    /// Whether travel counts backwards, because the swipe is bound to the desktop
    /// on the other side.
    pub flipped: bool,
    /// What the gesture does where the transition cannot be shown.
    pub fallback: Action,
    pub began: bool,
    pub progress_x: i64,
}

impl Value for ActiveSpaceTransition {
    type Model = ActiveSpaceTransition;

    open spec fn model(&self) -> ActiveSpaceTransition {
        *self
    }

    fn same(&self, other: &ActiveSpaceTransition) -> (same: bool) {
        *self == *other
    }

    fn copied(&self) -> (copy: ActiveSpaceTransition) {
        *self
    }
}

/// Travel, as far as a counter can hold it.
pub open spec fn travelled(progress: int) -> int {
    if progress > i64::MAX {
        i64::MAX as int
    } else if progress < i64::MIN {
        i64::MIN as int
    } else {
        progress
    }
}

/// The transition that a resolved gesture opens: a swipe to the side that is
/// bound to the next or the previous desktop.
pub open spec fn opening(direction: GestureDirection, action: Action) -> Option<
    ActiveSpaceTransition,
> {
    let sideways = direction == GestureDirection::Left || direction == GestureDirection::Right;
    let desktop = action == Action::NextDesktop || action == Action::PreviousDesktop;
    if sideways && desktop {
        Some(
            ActiveSpaceTransition {
                flipped: (direction == GestureDirection::Right) != (action == Action::NextDesktop),
                fallback: action,
                began: false,
                progress_x: 0,
            },
        )
    } else {
        None
    }
}

impl ActiveSpaceTransition {
    /// The transition once a motion is in.
    pub open spec fn moved(self, delta_x: i32) -> ActiveSpaceTransition {
        ActiveSpaceTransition {
            began: true,
            progress_x: travelled(
                if self.flipped {
                    self.progress_x - delta_x
                } else {
                    self.progress_x + delta_x
                },
            ) as i64,
            ..self
        }
    }
}

fn step(progress: i64, delta_x: i32, flipped: bool) -> (next: i64)
    ensures
        next == travelled(
            if flipped {
                progress - delta_x
            } else {
                progress + delta_x
            },
        ),
{
    let delta: i64 = if flipped { 0 - (delta_x as i64) } else { delta_x as i64 };
    if delta > 0 && progress > i64::MAX - delta {
        i64::MAX
    } else if delta < 0 && progress < i64::MIN - delta {
        i64::MIN
    } else {
        progress + delta
    }
}

/// Whether the plan captures the button's motion, which a live transition needs.
pub open spec fn is_space_source(plan: DispatchModel, button: ButtonId) -> bool {
    plan.gesture_bindings.dom().contains(button) || plan.side_gesture_bindings.dom().contains(button)
}

/// Whether the plan captures the button's motion, which a live transition needs.
pub fn is_interactive_space_source(plan: &DispatchPlan, button: ButtonId) -> (eligible: bool)
    ensures
        eligible == is_space_source(plan.model(), button),
{
    plan.gesture_bindings.contains(&button) || plan.side_gesture_bindings.contains(&button)
}

/// A session's button.
pub type SpaceKey = ((Seq<char>, u64), ButtonId);

/// The transitions in progress, by session and button.
#[derive(Debug)]
pub struct InteractiveSpaceTransitions {
    pub active: Assoc<(HidppSessionId, ButtonId), ActiveSpaceTransition>,
}

impl Default for InteractiveSpaceTransitions {
    fn default() -> (transitions: InteractiveSpaceTransitions)
        ensures
            transitions@ == Map::<SpaceKey, ActiveSpaceTransition>::empty(),
            transitions.wf(),
    {
        InteractiveSpaceTransitions { active: Assoc::new() }
    }
}

impl View for InteractiveSpaceTransitions {
    type V = Map<SpaceKey, ActiveSpaceTransition>;

    open spec fn view(&self) -> Map<SpaceKey, ActiveSpaceTransition> {
        self.active@
    }
}

/// The frames that cancel a session's transitions.
pub open spec fn cancelled(
    entries: Seq<((HidppSessionId, ButtonId), ActiveSpaceTransition)>,
    session: (Seq<char>, u64),
) -> Seq<SpaceSwipeFrame>
    decreases entries.len(),
{
    if entries.len() == 0 {
        Seq::empty()
    } else {
        let before = cancelled(entries.drop_last(), session);
        if entries.last().0.0.model() == session {
            before.push(
                SpaceSwipeFrame {
                    progress_x: entries.last().1.progress_x,
                    phase: InteractiveSpacePhase::Cancelled,
                },
            )
        } else {
            before
        }
    }
}

/// The transitions that are not a session's, in order.
pub open spec fn others(
    entries: Seq<((HidppSessionId, ButtonId), ActiveSpaceTransition)>,
    session: (Seq<char>, u64),
) -> Seq<((HidppSessionId, ButtonId), ActiveSpaceTransition)>
    decreases entries.len(),
{
    if entries.len() == 0 {
        entries
    } else {
        let before = others(entries.drop_last(), session);
        if entries.last().0.0.model() == session {
            before
        } else {
            before.push(entries.last())
        }
    }
}

/// The map without the keys of a session.
pub open spec fn without_session<V>(map: Map<SpaceKey, V>, session: (Seq<char>, u64)) -> Map<
    SpaceKey,
    V,
> {
    Map::new(
        |key: SpaceKey| map.dom().contains(key) && key.0 != session,
        |key: SpaceKey| map[key],
    )
}

impl InteractiveSpaceTransitions {
    /// Whether every session and button has one transition.
    pub open spec fn wf(self) -> bool {
        self.active.distinct()
    }

    /// Open the transition of a resolved gesture. Whether it is one comes back.
    pub fn begin(
        &mut self,
        session: &HidppSessionId,
        button: ButtonId,
        direction: GestureDirection,
        action: &Action,
    ) -> (started: bool)
        ensures
            started == (opening(direction, *action) is Some),
            final(self)@ == (match opening(direction, *action) {
                Some(transition) => old(self)@.insert((session.model(), button), transition),
                None => old(self)@,
            }),
            old(self).wf() ==> final(self).wf(),
    {
        let rightward: bool = match direction {
            GestureDirection::Left => false,
            GestureDirection::Right => true,
            GestureDirection::Up | GestureDirection::Down | GestureDirection::Click => {
                return false;
            },
        };
        let next: bool = match action {
            Action::NextDesktop => true,
            Action::PreviousDesktop => false,
            _ => {
                return false;
            },
        };
        self.active.insert(
            (session.copied(), button),
            ActiveSpaceTransition {
                flipped: rightward != next,
                fallback: *action,
                began: false,
                progress_x: 0,
            },
        );
        true
    }

    /// Move a transition. Its first frame begins it.
    pub fn motion(&mut self, session: &HidppSessionId, button: ButtonId, delta_x: i32) -> (frame:
        Option<SpaceSwipeFrame>)
        ensures
            ({
                let key = (session.model(), button);
                if old(self)@.dom().contains(key) {
                    let moved = old(self)@[key].moved(delta_x);
                    &&& final(self)@ == old(self)@.insert(key, moved)
                    &&& frame == Some(
                        SpaceSwipeFrame {
                            progress_x: moved.progress_x,
                            phase: if old(self)@[key].began {
                                InteractiveSpacePhase::Changed
                            } else {
                                InteractiveSpacePhase::Began
                            },
                        },
                    )
                } else {
                    final(self)@ == old(self)@ && frame is None
                }
            }),
            old(self).wf() ==> final(self).wf(),
    {
        let key: (HidppSessionId, ButtonId) = (session.copied(), button);
        let transition: ActiveSpaceTransition = match self.active.get(&key) {
            Some(transition) => *transition,
            None => {
                return None;
            },
        };
        let progress_x: i64 = step(transition.progress_x, delta_x, transition.flipped);
        self.active.insert(
            key,
            ActiveSpaceTransition {
                flipped: transition.flipped,
                fallback: transition.fallback,
                began: true,
                progress_x,
            },
        );
        Some(
            SpaceSwipeFrame {
                progress_x,
                phase: if transition.began {
                    InteractiveSpacePhase::Changed
                } else {
                    InteractiveSpacePhase::Began
                },
            },
        )
    }

    /// What a transition's gesture does where it cannot be shown.
    pub fn fallback(&self, session: &HidppSessionId, button: ButtonId) -> (action: Option<Action>)
        ensures
            action == (if self@.dom().contains((session.model(), button)) {
                Some(self@[(session.model(), button)].fallback)
            } else {
                None
            }),
    {
        match self.active.get(&(session.copied(), button)) {
            Some(transition) => Some(transition.fallback),
            None => None,
        }
    }

    /// End a transition.
    pub fn end(&mut self, session: &HidppSessionId, button: ButtonId) -> (frame: Option<
        SpaceSwipeFrame,
    >)
        ensures
            final(self)@ == old(self)@.remove((session.model(), button)),
            frame == (if old(self)@.dom().contains((session.model(), button)) {
                Some(
                    SpaceSwipeFrame {
                        progress_x: old(self)@[(session.model(), button)].progress_x,
                        phase: InteractiveSpacePhase::Ended,
                    },
                )
            } else {
                None
            }),
            old(self).wf() ==> final(self).wf(),
    {
        match self.active.remove(&(session.copied(), button)) {
            Some(transition) => Some(
                SpaceSwipeFrame {
                    progress_x: transition.progress_x,
                    phase: InteractiveSpacePhase::Ended,
                },
            ),
            None => None,
        }
    }

    /// Cancel every transition of a session, and no other.
    pub fn cancel_session(&mut self, session: &HidppSessionId) -> (frames: Vec<SpaceSwipeFrame>)
        ensures
            frames@ == cancelled(old(self).active.entries@, session.model()),
            final(self).active.entries@ == others(old(self).active.entries@, session.model()),
            final(self)@ == without_session(old(self)@, session.model()),
            old(self).wf() ==> final(self).wf(),
    {
        let ghost all = self.active.entries@;
        let ghost mut seen: int = 0;
        let mut frames: Vec<SpaceSwipeFrame> = Vec::new();
        let mut i: usize = 0;
        assert(all.skip(0) =~= all);
        assert(all.take(0) =~= Seq::<((HidppSessionId, ButtonId), ActiveSpaceTransition)>::empty());
        assert(self.active.entries@.take(0) =~= others(all.take(0), session.model()));
        while i < self.active.entries.len()
            invariant
                0 <= seen <= all.len(),
                all == old(self).active.entries@,
                i <= self.active.entries@.len(),
                self.active.entries@.skip(i as int) == all.skip(seen),
                self.active.entries@.take(i as int) == others(all.take(seen), session.model()),
                frames@ == cancelled(all.take(seen), session.model()),
                forall|j: int|
                    0 <= j < i ==> (#[trigger] self.active.entries@[j]).0.0.model()
                        != session.model(),
                forall|key: SpaceKey|
                    key.0 != session.model() ==> #[trigger] lookup(self.active.entries@, key)
                        == lookup(all, key),
                old(self).wf() ==> self.wf(),
            decreases self.active.entries@.len() - i,
        {
            proof {
                let rest = self.active.entries@.skip(i as int);
                assert(rest.len() == self.active.entries@.len() - i);
                assert(all.skip(seen).len() == all.len() - seen);
                assert(rest[0] == self.active.entries@[i as int]);
                assert(all.skip(seen)[0] == all[seen]);
                assert(all.take(seen + 1).drop_last() =~= all.take(seen));
                assert(all.take(seen + 1).last() == all[seen]);
                assert(rest.skip(1) =~= self.active.entries@.skip(i + 1));
                assert(all.skip(seen).skip(1) =~= all.skip(seen + 1));
            }
            if self.active.entries[i].0.0.same(session) {
                let ghost before = self.active.entries@;
                proof {
                    assert forall|key: SpaceKey| key.0 != session.model() implies #[trigger] lookup(
                        before.remove(i as int),
                        key,
                    ) == lookup(all, key) by {
                        lemma_lookup_remove(before, i as int, key);
                    }
                }
                let (_, transition) = self.active.entries.remove(i);
                frames.push(
                    SpaceSwipeFrame {
                        progress_x: transition.progress_x,
                        phase: InteractiveSpacePhase::Cancelled,
                    },
                );
                assert(self.active.entries@.skip(i as int) =~= before.skip(i + 1));
                assert(self.active.entries@.take(i as int) =~= before.take(i as int));
            } else {
                i = i + 1;
                assert(self.active.entries@.take(i as int) =~= self.active.entries@.take(
                    i - 1,
                ).push(self.active.entries@[i - 1]));
            }
            proof {
                seen = seen + 1;
            }
        }
        proof {
            assert(all.skip(seen).len() == 0);
            assert(all.take(seen) =~= all);
            assert(self.active.entries@.take(i as int) =~= self.active.entries@);
            let after = without_session(old(self)@, session.model());
            assert forall|key: SpaceKey| #[trigger] self@.dom().contains(key)
                <==> after.dom().contains(key) by {
                if key.0 == session.model() {
                    lemma_lookup_absent(self.active.entries@, key);
                }
            }
            assert(self@ =~= after);
        }
        frames
    }
}

// ── Laws ────────────────────────────────────────────────────────────────────

/// Whichever way the swipe is mapped, travel in its own direction moves toward
/// the desktop that it is bound to, and travel back retracts it.
pub proof fn travel_follows_the_bound_desktop(
    direction: GestureDirection,
    action: Action,
    delta_x: i32,
)
    requires
        opening(direction, action) is Some,
        delta_x > 0 <==> direction == GestureDirection::Right,
        delta_x != 0,
    ensures
        action == Action::NextDesktop ==> opening(direction, action)->0.moved(delta_x).progress_x > 0,
        action == Action::PreviousDesktop ==> opening(direction, action)->0.moved(
            delta_x,
        ).progress_x < 0,
{
}

/// Motion there and back leaves the progress where it was, within the range of
/// the counter.
pub proof fn motion_there_and_back_is_no_progress(transition: ActiveSpaceTransition, delta_x: i32)
    requires
        i64::MIN / 2 < transition.progress_x < i64::MAX / 2,
        delta_x != i32::MIN,
    ensures
        transition.moved(delta_x).moved((-delta_x) as i32).progress_x == transition.progress_x,
{
}

/// A swipe to the side that is bound to a desktop opens a transition, and nothing else
/// does. It counts backwards where the swipe and the desktop are on opposite sides, and
/// starts from rest.
pub proof fn sideways_desktop_swipes_open_transitions(direction: GestureDirection, action: Action)
    ensures
        opening(direction, action) is Some <==> (direction == GestureDirection::Left || direction
            == GestureDirection::Right) && (action == Action::NextDesktop || action
            == Action::PreviousDesktop),
        opening(direction, action) matches Some(transition) ==> {
            &&& transition.fallback == action
            &&& !transition.began
            &&& transition.progress_x == 0
        },
        !opening(GestureDirection::Right, Action::NextDesktop)->0.flipped,
        !opening(GestureDirection::Left, Action::PreviousDesktop)->0.flipped,
        opening(GestureDirection::Left, Action::NextDesktop)->0.flipped,
        opening(GestureDirection::Right, Action::PreviousDesktop)->0.flipped,
{
}

/// Motion moves a transition by exactly its own travel, in the sense that the transition
/// counts, while the counter has room; it never runs over. What the transition is bound
/// to stays.
pub proof fn motion_moves_by_its_travel(transition: ActiveSpaceTransition, delta_x: i32)
    ensures
        ({
            let after = transition.moved(delta_x);
            let next = if transition.flipped {
                transition.progress_x - delta_x
            } else {
                transition.progress_x + delta_x
            };
            &&& i64::MIN <= next <= i64::MAX ==> after.progress_x == next
            &&& next > i64::MAX ==> after.progress_x == i64::MAX
            &&& next < i64::MIN ==> after.progress_x == i64::MIN
            &&& after.began
            &&& after.flipped == transition.flipped
            &&& after.fallback == transition.fallback
        }),
{
}

/// A control is followed for transitions exactly where it has a gesture map, as a
/// gesture control or as a side button.
pub proof fn gesture_maps_make_space_sources(plan: DispatchModel, button: ButtonId)
    ensures
        plan.gesture_bindings.dom().contains(button) ==> is_space_source(plan, button),
        plan.side_gesture_bindings.dom().contains(button) ==> is_space_source(plan, button),
        is_space_source(plan, button) ==> plan.gesture_bindings.dom().contains(button)
            || plan.side_gesture_bindings.dom().contains(button),
{
}

/// Cancelling a session closes each of its transitions with one frame, where the
/// transition stood, in order, and keeps each of the others.
pub proof fn cancelling_closes_each_transition(
    before: Seq<((HidppSessionId, ButtonId), ActiveSpaceTransition)>,
    entry: ((HidppSessionId, ButtonId), ActiveSpaceTransition),
    session: (Seq<char>, u64),
)
    ensures
        cancelled(before.push(entry), session) == (if entry.0.0.model() == session {
            cancelled(before, session).push(
                SpaceSwipeFrame {
                    progress_x: entry.1.progress_x,
                    phase: InteractiveSpacePhase::Cancelled,
                },
            )
        } else {
            cancelled(before, session)
        }),
        others(before.push(entry), session) == (if entry.0.0.model() == session {
            others(before, session)
        } else {
            others(before, session).push(entry)
        }),
        cancelled(before, session).len() + others(before, session).len() == before.len(),
    decreases before.len(),
{
    assert(before.push(entry).drop_last() =~= before);
    if before.len() > 0 {
        cancelling_closes_each_transition(before.drop_last(), before.last(), session);
        assert(before.drop_last().push(before.last()) =~= before);
    }
}

} // verus!
