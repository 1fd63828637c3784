//! Pair-planned native gesture streaming.
//!
//! An animation belongs to a gesture pair, not to one direction: the recognizer
//! commits one direction, but every later frame drives the pair's one shared
//! progress. A pair streams only where the system can honor every bound
//! direction, so that an animation never commits what the user did not bind.
use vstd::prelude::*;

use crate::binding::{Action, ButtonId};
use crate::value::Assoc;

verus! {

/// The system animation that a gesture drives.
#[derive(Clone, Copy, Debug, PartialEq, Eq, Structural)]
pub enum GestureMotion {
    Horizontal,
    Vertical,
    Pinch,
    Zoom,
}

/// How the injector is told that a gesture is over.
#[derive(Clone, Copy, Debug, PartialEq, Eq, Structural)]
pub enum GesturePhase {
    End,
    Cancel,
}

/// How a stream ends. A release may commit or spring back; an abort always
/// springs back.
#[derive(Clone, Copy, Debug, PartialEq, Eq, Structural)]
pub enum SwipeEnd {
    AtRelease,
    Cancelled,
}

impl SwipeEnd {
    pub fn as_gesture_phase(self) -> (phase: GesturePhase)
        ensures
            phase == (match self {
                SwipeEnd::AtRelease => GesturePhase::End,
                SwipeEnd::Cancelled => GesturePhase::Cancel,
            }),
    {
        match self {
            SwipeEnd::AtRelease => GesturePhase::End,
            SwipeEnd::Cancelled => GesturePhase::Cancel,
        }
    }
}

/// One step of a session's swipe stream. Progress is in parts of
/// [`SwipeStreamPlan::unit`].
#[derive(Clone, Copy, Debug, PartialEq, Eq, Structural)]
pub enum SwipeOutput {
    /// Nothing to stream for this frame.
    Idle,
    /// `progress` is the opening frame's travel; later frames stream deltas.
    Begin { motion: GestureMotion, progress: i128 },
    Advance { motion: GestureMotion, delta: i128 },
    Finish { motion: GestureMotion, end: SwipeEnd },
}

/// Direction along a pair's gesture axis.
#[derive(Clone, Copy, Debug, PartialEq, Eq, Structural)]
pub enum Side {
    /// Left, down, or closing.
    Negative,
    /// Right, up, or spreading.
    Positive,
}

impl Side {
    pub open spec fn other(self) -> Side {
        match self {
            Side::Positive => Side::Negative,
            Side::Negative => Side::Positive,
        }
    }

    pub fn opposite(self) -> (side: Side)
        ensures
            side == self.other(),
    {
        match self {
            Side::Positive => Side::Negative,
            Side::Negative => Side::Positive,
        }
    }
}

/// The quantity of a stroke that drives its pair's progress.
#[derive(Clone, Copy, Debug, PartialEq, Eq, Structural)]
pub enum GestureAxis {
    Horizontal,
    Vertical,
    Pinch,
}

/// The animation that commits an action, and the sign of progress at which.
pub open spec fn consumer(action: Action) -> Option<(GestureMotion, i8)> {
    match action {
        Action::NextDesktop => Some((GestureMotion::Horizontal, 1)),
        Action::PreviousDesktop => Some((GestureMotion::Horizontal, -1i8)),
        Action::MissionControl => Some((GestureMotion::Vertical, 1)),
        Action::AppExpose => Some((GestureMotion::Vertical, -1i8)),
        Action::ShowDesktop => Some((GestureMotion::Pinch, 1)),
        Action::LaunchpadShow => Some((GestureMotion::Pinch, -1i8)),
        Action::ZoomIn => Some((GestureMotion::Zoom, 1)),
        Action::ZoomOut => Some((GestureMotion::Zoom, -1i8)),
        _ => None,
    }
}

/// The animation that commits an action, and the sign of progress at which.
pub fn swipe_consumer(action: &Action) -> (found: Option<(GestureMotion, i8)>)
    ensures
        found == consumer(*action),
{
    match action {
        Action::NextDesktop => Some((GestureMotion::Horizontal, 1)),
        Action::PreviousDesktop => Some((GestureMotion::Horizontal, -1)),
        Action::MissionControl => Some((GestureMotion::Vertical, 1)),
        Action::AppExpose => Some((GestureMotion::Vertical, -1)),
        Action::ShowDesktop => Some((GestureMotion::Pinch, 1)),
        Action::LaunchpadShow => Some((GestureMotion::Pinch, -1)),
        Action::ZoomIn => Some((GestureMotion::Zoom, 1)),
        Action::ZoomOut => Some((GestureMotion::Zoom, -1)),
        _ => None,
    }
}

/// The two directions of a pair: its negative side and its positive side.
pub open spec fn is_pair(negative: ButtonId, positive: ButtonId, axis: GestureAxis) -> bool {
    match axis {
        GestureAxis::Horizontal => {
            ||| negative == ButtonId::TouchpadThreeFingerSwipeLeft && positive
                == ButtonId::TouchpadThreeFingerSwipeRight
            ||| negative == ButtonId::TouchpadFourFingerSwipeLeft && positive
                == ButtonId::TouchpadFourFingerSwipeRight
        },
        GestureAxis::Vertical => {
            ||| negative == ButtonId::TouchpadThreeFingerSwipeDown && positive
                == ButtonId::TouchpadThreeFingerSwipeUp
            ||| negative == ButtonId::TouchpadFourFingerSwipeDown && positive
                == ButtonId::TouchpadFourFingerSwipeUp
        },
        GestureAxis::Pinch => {
            ||| negative == ButtonId::TouchpadTwoFingerPinchIn && positive
                == ButtonId::TouchpadTwoFingerPinchOut
            ||| negative == ButtonId::TouchpadFourFingerPinchIn && positive
                == ButtonId::TouchpadFourFingerPinchOut
        },
    }
}

/// Whether `sibling` is the other direction of the pair in which `trigger` is the
/// one on `side`.
pub open spec fn is_sibling(
    trigger: ButtonId,
    sibling: ButtonId,
    axis: GestureAxis,
    side: Side,
) -> bool {
    match side {
        Side::Positive => is_pair(sibling, trigger, axis),
        Side::Negative => is_pair(trigger, sibling, axis),
    }
}

/// The sibling trigger on the same gesture axis, the pair's axis, and this
/// trigger's side along it. `None` for a trigger that belongs to no pair.
pub fn pair_sibling(trigger: ButtonId) -> (found: Option<(ButtonId, GestureAxis, Side)>)
    ensures
        found matches Some((sibling, axis, side)) ==> is_sibling(trigger, sibling, axis, side),
        found is None ==> forall|sibling: ButtonId, axis: GestureAxis, side: Side|
            !is_sibling(trigger, sibling, axis, side),
{
    match trigger {
        ButtonId::TouchpadThreeFingerSwipeRight => Some(
            (ButtonId::TouchpadThreeFingerSwipeLeft, GestureAxis::Horizontal, Side::Positive),
        ),
        ButtonId::TouchpadThreeFingerSwipeLeft => Some(
            (ButtonId::TouchpadThreeFingerSwipeRight, GestureAxis::Horizontal, Side::Negative),
        ),
        ButtonId::TouchpadThreeFingerSwipeUp => Some(
            (ButtonId::TouchpadThreeFingerSwipeDown, GestureAxis::Vertical, Side::Positive),
        ),
        ButtonId::TouchpadThreeFingerSwipeDown => Some(
            (ButtonId::TouchpadThreeFingerSwipeUp, GestureAxis::Vertical, Side::Negative),
        ),
        ButtonId::TouchpadFourFingerSwipeRight => Some(
            (ButtonId::TouchpadFourFingerSwipeLeft, GestureAxis::Horizontal, Side::Positive),
        ),
        ButtonId::TouchpadFourFingerSwipeLeft => Some(
            (ButtonId::TouchpadFourFingerSwipeRight, GestureAxis::Horizontal, Side::Negative),
        ),
        ButtonId::TouchpadFourFingerSwipeUp => Some(
            (ButtonId::TouchpadFourFingerSwipeDown, GestureAxis::Vertical, Side::Positive),
        ),
        ButtonId::TouchpadFourFingerSwipeDown => Some(
            (ButtonId::TouchpadFourFingerSwipeUp, GestureAxis::Vertical, Side::Negative),
        ),
        ButtonId::TouchpadTwoFingerPinchOut => Some(
            (ButtonId::TouchpadTwoFingerPinchIn, GestureAxis::Pinch, Side::Positive),
        ),
        ButtonId::TouchpadTwoFingerPinchIn => Some(
            (ButtonId::TouchpadTwoFingerPinchOut, GestureAxis::Pinch, Side::Negative),
        ),
        ButtonId::TouchpadFourFingerPinchOut => Some(
            (ButtonId::TouchpadFourFingerPinchIn, GestureAxis::Pinch, Side::Positive),
        ),
        ButtonId::TouchpadFourFingerPinchIn => Some(
            (ButtonId::TouchpadFourFingerPinchOut, GestureAxis::Pinch, Side::Negative),
        ),
        _ => None,
    }
}

/// A trigger has at most one sibling, on one axis and one side.
pub proof fn siblings_are_unique(
    trigger: ButtonId,
    a: (ButtonId, GestureAxis, Side),
    b: (ButtonId, GestureAxis, Side),
)
    requires
        is_sibling(trigger, a.0, a.1, a.2),
        is_sibling(trigger, b.0, b.1, b.2),
    ensures
        a == b,
{
}

/// The sibling of a trigger's sibling is the trigger, on the same axis and the
/// other side.
pub proof fn siblings_are_mutual(
    trigger: ButtonId,
    sibling: ButtonId,
    axis: GestureAxis,
    side: Side,
)
    requires
        is_sibling(trigger, sibling, axis, side),
    ensures
        is_sibling(sibling, trigger, axis, side.other()),
{
}

/// The travel that equals one unit of progress, in nanometres. Closing and
/// spreading a pinch have their own.
#[derive(Clone, Copy, Debug, PartialEq, Eq, Structural)]
pub enum AxisTravel {
    Linear(i128),
    Pinch { close: i128, spread: i128 },
}

/// One pad width, and one pad height.
pub const HORIZONTAL_PAD_TRAVEL: i128 = 117_000_000;

pub const VERTICAL_PAD_TRAVEL: i128 = 75_600_000;

/// A close runs over the short travel between resting spread and touching
/// fingers, a spread over the wide travel it has room for.
pub const TWO_FINGER_PINCH_CLOSE_TRAVEL: i128 = 15_000_000;

pub const TWO_FINGER_PINCH_OPEN_TRAVEL: i128 = 30_000_000;

pub const FOUR_FINGER_PINCH_CLOSE_TRAVEL: i128 = 10_000_000;

pub const FOUR_FINGER_PINCH_OPEN_TRAVEL: i128 = 25_000_000;

/// Progress past this is cut off: some 2^120 parts of a unit, which no stroke
/// comes near.
pub const PROGRESS_LIMIT: i128 = 1_329_227_995_784_915_872_903_807_060_280_344_576;

/// The travel of the pair that a trigger belongs to.
pub open spec fn travel_of(trigger: ButtonId, axis: GestureAxis) -> AxisTravel {
    match axis {
        GestureAxis::Horizontal => AxisTravel::Linear(HORIZONTAL_PAD_TRAVEL),
        GestureAxis::Vertical => AxisTravel::Linear(VERTICAL_PAD_TRAVEL),
        GestureAxis::Pinch => if trigger == ButtonId::TouchpadTwoFingerPinchIn || trigger
            == ButtonId::TouchpadTwoFingerPinchOut {
            AxisTravel::Pinch {
                close: TWO_FINGER_PINCH_CLOSE_TRAVEL,
                spread: TWO_FINGER_PINCH_OPEN_TRAVEL,
            }
        } else {
            AxisTravel::Pinch {
                close: FOUR_FINGER_PINCH_CLOSE_TRAVEL,
                spread: FOUR_FINGER_PINCH_OPEN_TRAVEL,
            }
        },
    }
}

impl AxisTravel {
    pub open spec fn wf(self) -> bool {
        match self {
            AxisTravel::Linear(travel) => 1 <= travel <= 1_000_000_000,
            AxisTravel::Pinch { close, spread } => 1 <= close <= 1_000_000_000 && 1 <= spread
                <= 1_000_000_000,
        }
    }

    /// The parts of a unit that one nanometre in the direction of `travel` is
    /// worth. A unit has as many parts as both directions divide.
    pub open spec fn weight(self, travel: int) -> int {
        match self {
            AxisTravel::Linear(_) => 1,
            AxisTravel::Pinch { close, spread } => if travel < 0 {
                spread as int
            } else {
                close as int
            },
        }
    }

    /// The parts of one unit of progress.
    pub open spec fn parts(self) -> int {
        match self {
            AxisTravel::Linear(travel) => travel as int,
            AxisTravel::Pinch { close, spread } => close * spread,
        }
    }

    fn weigh(self, travel: i128) -> (weight: i128)
        requires
            self.wf(),
        ensures
            weight == self.weight(travel as int),
            1 <= weight <= 1_000_000_000,
    {
        match self {
            AxisTravel::Linear(_) => 1,
            AxisTravel::Pinch { close, spread } => if travel < 0 {
                spread
            } else {
                close
            },
        }
    }
}

/// One pair's resolved streaming plan.
#[derive(Clone, Copy, Debug, PartialEq, Eq)]
pub struct SwipeStreamPlan {
    pub axis: GestureAxis,
    pub travel: AxisTravel,
    pub motion: GestureMotion,
    /// Whether travel maps onto progress negated, so that each bound side commits
    /// its own action.
    pub flipped: bool,
    /// The binding that each sign of progress commits. Progress stays at zero on
    /// the side of a missing one.
    pub positive: Option<(ButtonId, Action)>,
    pub negative: Option<(ButtonId, Action)>,
}

/// The side at which a commit sign lies, unflipped.
pub open spec fn side_of_sign(commit_sign: i8) -> Side {
    if commit_sign > 0 {
        Side::Positive
    } else {
        Side::Negative
    }
}

/// The finger side a commit sign belongs to: positive progress commits on the
/// pair's positive side unflipped, on the negative one flipped.
pub fn commit_side(commit_sign: i8) -> (side: Side)
    ensures
        side == side_of_sign(commit_sign),
{
    if commit_sign > 0 {
        Side::Positive
    } else {
        Side::Negative
    }
}

/// What a map binds to a button.
pub open spec fn bound(bindings: Map<ButtonId, Action>, button: ButtonId) -> Option<Action> {
    if bindings.dom().contains(button) {
        Some(bindings[button])
    } else {
        None
    }
}

/// Whether a side's binding, if it has one, can be streamed on the motion with
/// the mapping.
pub open spec fn honors(
    action: Option<Action>,
    side: Side,
    motion: GestureMotion,
    flipped: bool,
) -> bool {
    action matches Some(action) ==> (consumer(action) matches Some((own, sign)) && own == motion
        && flipped == (side != side_of_sign(sign)))
}

/// The binding of the pair that commits at a sign.
pub open spec fn commits(
    action: Option<Action>,
    button: ButtonId,
    positive: bool,
) -> Option<(ButtonId, Action)> {
    match action {
        Some(action) if consumer(action) is Some && ((consumer(action)->0).1 > 0) == positive => Some(
            (button, action),
        ),
        _ => None,
    }
}

/// Whether a plan is the one for the pair, given what its two sides are bound to:
/// it honors every bound side, some side is bound, and each sign commits the
/// binding that demands it.
pub open spec fn is_plan_for(
    plan: SwipeStreamPlan,
    trigger: ButtonId,
    sibling: ButtonId,
    axis: GestureAxis,
    side: Side,
    bindings: Map<ButtonId, Action>,
) -> bool {
    let own = bound(bindings, trigger);
    let other = bound(bindings, sibling);
    &&& own is Some || other is Some
    &&& honors(own, side, plan.motion, plan.flipped)
    &&& honors(other, side.other(), plan.motion, plan.flipped)
    &&& plan.axis == axis
    &&& plan.travel == travel_of(trigger, axis)
    &&& plan.positive == (match commits(own, trigger, true) {
        Some(binding) => Some(binding),
        None => commits(other, sibling, true),
    })
    &&& plan.negative == (match commits(own, trigger, false) {
        Some(binding) => Some(binding),
        None => commits(other, sibling, false),
    })
}

impl SwipeStreamPlan {
    pub open spec fn wf(self) -> bool {
        self.travel.wf()
    }

    /// The lowest progress that the pair's bindings allow.
    pub open spec fn lower(self) -> int {
        if self.negative is Some {
            -PROGRESS_LIMIT
        } else {
            0
        }
    }

    /// The highest progress that the pair's bindings allow.
    pub open spec fn upper(self) -> int {
        if self.positive is Some {
            PROGRESS_LIMIT as int
        } else {
            0
        }
    }

    /// Progress for some travel, in parts of a unit.
    pub open spec fn mapped(self, travel: int) -> int {
        if self.flipped {
            -(travel * self.travel.weight(travel))
        } else {
            travel * self.travel.weight(travel)
        }
    }

    /// Progress within the bounds that the bindings allow.
    pub open spec fn bounded(self, progress: int) -> int {
        if progress < self.lower() {
            self.lower()
        } else if progress > self.upper() {
            self.upper()
        } else {
            progress
        }
    }

    /// The parts of one unit of progress.
    pub fn unit(&self) -> (parts: i128)
        requires
            self.wf(),
        ensures
            parts == self.travel.parts(),
            parts >= 1,
    {
        match self.travel {
            AxisTravel::Linear(travel) => travel,
            AxisTravel::Pinch { close, spread } => {
                assert(1 <= close * spread <= 1_000_000_000_000_000_000) by (nonlinear_arith)
                    requires
                        1 <= close <= 1_000_000_000,
                        1 <= spread <= 1_000_000_000,
                ;
                close * spread
            },
        }
    }

    fn lower_bound(&self) -> (bound: i128)
        ensures
            bound == self.lower(),
    {
        if self.negative.is_some() {
            -PROGRESS_LIMIT
        } else {
            0
        }
    }

    fn upper_bound(&self) -> (bound: i128)
        ensures
            bound == self.upper(),
    {
        if self.positive.is_some() {
            PROGRESS_LIMIT
        } else {
            0
        }
    }

    fn map(&self, travel: i128) -> (progress: i128)
        requires
            self.wf(),
            -0x1_0000_0000_0000_0000 <= travel <= 0x1_0000_0000_0000_0000,
        ensures
            progress == self.mapped(travel as int),
            -PROGRESS_LIMIT <= progress <= PROGRESS_LIMIT,
    {
        let weight: i128 = self.travel.weigh(travel);
        assert(-0x1_0000_0000_0000_0000 * 1_000_000_000 <= travel * weight
            <= 0x1_0000_0000_0000_0000 * 1_000_000_000) by (nonlinear_arith)
            requires
                1 <= weight <= 1_000_000_000,
                -0x1_0000_0000_0000_0000 <= travel <= 0x1_0000_0000_0000_0000,
        ;
        let raw: i128 = travel * weight;
        if self.flipped {
            -raw
        } else {
            raw
        }
    }

    fn clamp(&self, progress: i128) -> (clamped: i128)
        ensures
            clamped == self.bounded(progress as int),
    {
        let lower: i128 = self.lower_bound();
        let upper: i128 = self.upper_bound();
        if progress < lower {
            lower
        } else if progress > upper {
            upper
        } else {
            progress
        }
    }

    /// Zoom streams decline the banked seed: a catch-up is a visible pop in
    /// content scale, unlike a reveal's positional animation.
    pub fn takes_banked_seed(&self) -> (takes: bool)
        ensures
            takes == (self.motion != GestureMotion::Zoom),
    {
        self.motion != GestureMotion::Zoom
    }

    /// Whether streaming this plan needs the system's swipe bridge. Zoom works
    /// wherever the system runs.
    pub fn needs_dock_swipe_bridge(&self) -> (needs: bool)
        ensures
            needs == (self.motion != GestureMotion::Zoom),
    {
        self.motion != GestureMotion::Zoom
    }

    /// Plan the pair that `trigger` belongs to, from a stroke's frozen bindings.
    /// `None` where the pair stays discrete: no binding, one that no animation
    /// commits, two motions, or two mappings.
    pub fn for_trigger(trigger: ButtonId, bindings: &Assoc<ButtonId, Action>) -> (plan: Option<
        SwipeStreamPlan,
    >)
        ensures
            plan matches Some(found) ==> found.wf() && exists|
                sibling: ButtonId,
                axis: GestureAxis,
                side: Side,
            |
                #![trigger is_sibling(trigger, sibling, axis, side)]
                is_sibling(trigger, sibling, axis, side) && is_plan_for(
                    found,
                    trigger,
                    sibling,
                    axis,
                    side,
                    bindings@,
                ),
            plan is None ==> forall|
                sibling: ButtonId,
                axis: GestureAxis,
                side: Side,
                other: SwipeStreamPlan,
            |
                #![trigger is_sibling(trigger, sibling, axis, side), is_plan_for(other, trigger, sibling, axis, side, bindings@)]
                is_sibling(trigger, sibling, axis, side) ==> !is_plan_for(
                    other,
                    trigger,
                    sibling,
                    axis,
                    side,
                    bindings@,
                ),
    {
        let (sibling, axis, side) = match pair_sibling(trigger) {
            Some(found) => found,
            None => {
                return None;
            },
        };
        proof {
            assert forall|s: ButtonId, a: GestureAxis, d: Side| is_sibling(trigger, s, a, d) implies s
                == sibling && a == axis && d == side by {
                siblings_are_unique(trigger, (s, a, d), (sibling, axis, side));
            }
        }
        let travel: AxisTravel = match axis {
            GestureAxis::Horizontal => AxisTravel::Linear(HORIZONTAL_PAD_TRAVEL),
            GestureAxis::Vertical => AxisTravel::Linear(VERTICAL_PAD_TRAVEL),
            GestureAxis::Pinch => match trigger {
                ButtonId::TouchpadTwoFingerPinchIn | ButtonId::TouchpadTwoFingerPinchOut => {
                    AxisTravel::Pinch {
                        close: TWO_FINGER_PINCH_CLOSE_TRAVEL,
                        spread: TWO_FINGER_PINCH_OPEN_TRAVEL,
                    }
                },
                _ => AxisTravel::Pinch {
                    close: FOUR_FINGER_PINCH_CLOSE_TRAVEL,
                    spread: FOUR_FINGER_PINCH_OPEN_TRAVEL,
                },
            },
        };
        let mut motion: Option<GestureMotion> = None;
        let mut demanded: Option<bool> = None;
        let mut positive: Option<(ButtonId, Action)> = None;
        let mut negative: Option<(ButtonId, Action)> = None;
        if let Some(action) = bindings.get(&trigger) {
            let (own_motion, sign) = match swipe_consumer(action) {
                Some(found) => found,
                None => {
                    return None;
                },
            };
            motion = Some(own_motion);
            demanded = Some(side != commit_side(sign));
            if sign > 0 {
                positive = Some((trigger, *action));
            } else {
                negative = Some((trigger, *action));
            }
        }
        if let Some(action) = bindings.get(&sibling) {
            let (other_motion, sign) = match swipe_consumer(action) {
                Some(found) => found,
                None => {
                    return None;
                },
            };
            let demand: bool = side.opposite() != commit_side(sign);
            if let Some(own_motion) = motion {
                if own_motion != other_motion {
                    return None;
                }
            }
            if let Some(own_demand) = demanded {
                if own_demand != demand {
                    return None;
                }
            }
            motion = Some(other_motion);
            demanded = Some(demand);
            if sign > 0 {
                positive = Some((sibling, *action));
            } else {
                negative = Some((sibling, *action));
            }
        }
        match (motion, demanded) {
            (Some(motion), Some(flipped)) => {
                let plan: SwipeStreamPlan = SwipeStreamPlan {
                    axis,
                    travel,
                    motion,
                    flipped,
                    positive,
                    negative,
                };
                assert(is_sibling(trigger, sibling, axis, side));
                assert(is_plan_for(plan, trigger, sibling, axis, side, bindings@));
                Some(plan)
            },
            _ => None,
        }
    }
}

/// A pair has one plan, whichever of its directions was committed.
pub proof fn a_pair_has_one_plan(
    plan: SwipeStreamPlan,
    trigger: ButtonId,
    sibling: ButtonId,
    axis: GestureAxis,
    side: Side,
    bindings: Map<ButtonId, Action>,
)
    requires
        is_sibling(trigger, sibling, axis, side),
        is_plan_for(plan, trigger, sibling, axis, side, bindings),
    ensures
        is_plan_for(plan, sibling, trigger, axis, side.other(), bindings),
{
}

/// A plan is settled by the pair and its bindings.
pub proof fn plans_are_unique(
    a: SwipeStreamPlan,
    b: SwipeStreamPlan,
    trigger: ButtonId,
    sibling: ButtonId,
    axis: GestureAxis,
    side: Side,
    bindings: Map<ButtonId, Action>,
)
    requires
        is_plan_for(a, trigger, sibling, axis, side, bindings),
        is_plan_for(b, trigger, sibling, axis, side, bindings),
    ensures
        a == b,
{
}

/// A bound side commits its own action: travel toward it makes progress of the
/// sign at which its binding commits, and that sign's slot holds the binding.
pub proof fn bound_sides_commit_their_own_action(
    plan: SwipeStreamPlan,
    trigger: ButtonId,
    sibling: ButtonId,
    axis: GestureAxis,
    side: Side,
    bindings: Map<ButtonId, Action>,
    travel: int,
)
    requires
        is_sibling(trigger, sibling, axis, side),
        is_plan_for(plan, trigger, sibling, axis, side, bindings),
        bindings.dom().contains(trigger),
        plan.wf(),
        travel != 0,
        travel > 0 <==> side == Side::Positive,
    ensures
        plan.mapped(travel) > 0 ==> plan.positive == Some((trigger, bindings[trigger])),
        plan.mapped(travel) < 0 ==> plan.negative == Some((trigger, bindings[trigger])),
        plan.mapped(travel) != 0,
{
    let weight = plan.travel.weight(travel);
    assert(weight >= 1);
    assert(travel > 0 ==> travel * weight > 0) by (nonlinear_arith)
        requires
            weight >= 1,
    ;
    assert(travel < 0 ==> travel * weight < 0) by (nonlinear_arith)
        requires
            weight >= 1,
    ;
}

// ── Frames ──────────────────────────────────────────────────────────────────

/// One finger on the pad, in micrometres.
#[derive(Clone, Copy, Debug, PartialEq, Eq, Structural)]
pub struct TouchContact {
    pub id: u8,
    pub x_um: i32,
    pub y_um: i32,
}

/// One report of all the fingers, with their mean distance from the centroid in
/// nanometres.
#[derive(Debug)]
pub struct TouchFrame {
    pub contacts: Vec<TouchContact>,
    pub spread_nm: i64,
}

/// Most that a spread can be, and that a bank of spreads can hold.
pub const SPREAD_LIMIT: i64 = 0x2000_0000_0000_0000;

impl TouchFrame {
    /// Whether some finger is down, and the sums fit their counters.
    pub open spec fn wf(self) -> bool {
        &&& 1 <= self.contacts@.len() <= 0xffff_ffff
        &&& 0 <= self.spread_nm <= SPREAD_LIMIT
    }
}

/// The sum of one coordinate over the contacts.
pub open spec fn sum_of(contacts: Seq<TouchContact>, x: bool) -> int
    decreases contacts.len(),
{
    if contacts.len() == 0 {
        0
    } else {
        sum_of(contacts.drop_last(), x) + (if x {
            contacts.last().x_um as int
        } else {
            contacts.last().y_um as int
        })
    }
}

/// A quotient without its fraction, rounded toward zero.
pub open spec fn quotient(value: int, count: int) -> int {
    if value >= 0 {
        value / count
    } else {
        -((-value) / count)
    }
}

/// The mean position of the contacts.
pub open spec fn centroid_of(contacts: Seq<TouchContact>) -> (int, int) {
    (
        quotient(sum_of(contacts, true), contacts.len() as int),
        quotient(sum_of(contacts, false), contacts.len() as int),
    )
}

/// The ids of the contacts.
pub open spec fn ids_of(contacts: Seq<TouchContact>) -> Seq<u8> {
    Seq::new(contacts.len(), |i: int| contacts[i].id)
}

proof fn lemma_sum_bound(contacts: Seq<TouchContact>, x: bool)
    ensures
        -0x8000_0000 * contacts.len() <= sum_of(contacts, x) <= 0x8000_0000 * contacts.len(),
    decreases contacts.len(),
{
    if contacts.len() > 0 {
        lemma_sum_bound(contacts.drop_last(), x);
    }
}

proof fn lemma_quotient_bound(value: int, count: int)
    requires
        count >= 1,
        -0x8000_0000 * count <= value <= 0x8000_0000 * count,
    ensures
        -0x8000_0000 <= quotient(value, count) <= 0x8000_0000,
{
    if value >= 0 {
        assert(0 <= value / count <= 0x8000_0000) by (nonlinear_arith)
            requires
                count >= 1,
                0 <= value <= 0x8000_0000 * count,
        ;
    } else {
        assert(0 <= (-value) / count <= 0x8000_0000) by (nonlinear_arith)
            requires
                count >= 1,
                0 <= -value <= 0x8000_0000 * count,
        ;
    }
}

fn divide(value: i64, count: u64) -> (mean: i64)
    requires
        1 <= count <= 0xffff_ffff,
        -0x8000_0000 * count <= value <= 0x8000_0000 * count,
    ensures
        mean == quotient(value as int, count as int),
        -0x8000_0000 <= mean <= 0x8000_0000,
{
    proof {
        lemma_quotient_bound(value as int, count as int);
    }
    if value >= 0 {
        let whole: u64 = (value as u64) / count;
        whole as i64
    } else {
        let whole: u64 = ((0 - value) as u64) / count;
        0 - (whole as i64)
    }
}

/// The mean position of the contacts, rounded toward zero.
pub fn frame_centroid(contacts: &Vec<TouchContact>) -> (centroid: (i64, i64))
    requires
        1 <= contacts@.len() <= 0xffff_ffff,
    ensures
        (centroid.0 as int, centroid.1 as int) == centroid_of(contacts@),
        -0x8000_0000 <= centroid.0 <= 0x8000_0000,
        -0x8000_0000 <= centroid.1 <= 0x8000_0000,
{
    let mut x: i64 = 0;
    let mut y: i64 = 0;
    let mut i: usize = 0;
    while i < contacts.len()
        invariant
            i <= contacts@.len() <= 0xffff_ffff,
            x == sum_of(contacts@.take(i as int), true),
            y == sum_of(contacts@.take(i as int), false),
        decreases contacts@.len() - i,
    {
        proof {
            assert(contacts@.take(i + 1).drop_last() =~= contacts@.take(i as int));
            lemma_sum_bound(contacts@.take(i as int), true);
            lemma_sum_bound(contacts@.take(i as int), false);
        }
        x = x + contacts[i].x_um as i64;
        y = y + contacts[i].y_um as i64;
        i = i + 1;
    }
    proof {
        assert(contacts@.take(i as int) =~= contacts@);
        lemma_sum_bound(contacts@, true);
        lemma_sum_bound(contacts@, false);
    }
    let count: u64 = contacts.len() as u64;
    (divide(x, count), divide(y, count))
}

fn contact_ids(contacts: &Vec<TouchContact>) -> (ids: Vec<u8>)
    ensures
        ids@ == ids_of(contacts@),
{
    let mut ids: Vec<u8> = Vec::new();
    let mut i: usize = 0;
    while i < contacts.len()
        invariant
            i <= contacts@.len(),
            ids@.len() == i,
            forall|j: int| 0 <= j < i ==> ids@[j] == contacts@[j].id,
        decreases contacts@.len() - i,
    {
        ids.push(contacts[i].id);
        i = i + 1;
    }
    assert(ids@ =~= ids_of(contacts@));
    ids
}

fn same_ids(a: &Vec<u8>, b: &Vec<u8>) -> (same: bool)
    ensures
        same == (a@ == b@),
{
    if a.len() != b.len() {
        return false;
    }
    let mut i: usize = 0;
    while i < a.len()
        invariant
            i <= a@.len() == b@.len(),
            forall|j: int| 0 <= j < i ==> a@[j] == b@[j],
        decreases a@.len() - i,
    {
        if a[i] != b[i] {
            return false;
        }
        i = i + 1;
    }
    assert(a@ =~= b@);
    true
}

// ── The stream ──────────────────────────────────────────────────────────────

/// A committed gesture that streams its pair's animation, anchored at the commit
/// frame and advanced by every later frame of the stroke.
#[derive(Debug)]
pub struct ActiveSwipe {
    pub plan: SwipeStreamPlan,
    /// The direction that the recognizer committed.
    pub committed: ButtonId,
    pub opened: bool,
    pub contact_ids: Vec<u8>,
    pub centroid_um: (i64, i64),
    pub spread_nm: i64,
    /// Progress since the stream was anchored, in parts of a unit.
    pub progress: i128,
}

impl ActiveSwipe {
    /// Whether the anchor is a real one, and the progress is one that the
    /// bindings allow.
    pub open spec fn wf(self) -> bool {
        &&& self.plan.wf()
        &&& -0x8000_0000 <= self.centroid_um.0 <= 0x8000_0000
        &&& -0x8000_0000 <= self.centroid_um.1 <= 0x8000_0000
        &&& 0 <= self.spread_nm <= SPREAD_LIMIT
        &&& self.plan.lower() <= self.progress <= self.plan.upper()
    }

    /// Travel of a frame along the pair's axis, in nanometres. A frame with other
    /// fingers only moves the anchor. The pad's y grows downward, progress upward.
    pub open spec fn travel(self, frame: TouchFrame) -> int {
        if ids_of(frame.contacts@) != self.contact_ids@ {
            0
        } else {
            match self.plan.axis {
                GestureAxis::Horizontal => (centroid_of(frame.contacts@).0 - self.centroid_um.0)
                    * 1000,
                GestureAxis::Vertical => -(centroid_of(frame.contacts@).1 - self.centroid_um.1)
                    * 1000,
                GestureAxis::Pinch => frame.spread_nm - self.spread_nm,
            }
        }
    }

    /// Progress once a frame is in: pulled back to zero on an unbound side, never
    /// past it.
    pub open spec fn advanced(self, frame: TouchFrame) -> int {
        self.plan.bounded(self.progress + self.plan.mapped(self.travel(frame)))
    }

    /// The progress that a stroke's banked spread opens the stream with.
    pub open spec fn seed(plan: SwipeStreamPlan, banked_nm: int) -> int {
        if plan.motion == GestureMotion::Zoom {
            0
        } else {
            plan.bounded(plan.mapped(banked_nm))
        }
    }

    /// Anchor the stream at the commit frame. Where the spread that the stroke
    /// banked maps to progress within bounds, the animation opens at once.
    pub fn new(frame: &TouchFrame, plan: SwipeStreamPlan, committed: ButtonId, banked_nm: i64) -> (anchored:
        (ActiveSwipe, Option<SwipeOutput>))
        requires
            frame.wf(),
            plan.wf(),
        ensures
            anchored.0.wf(),
            anchored.0.plan == plan,
            anchored.0.committed == committed,
            anchored.0.contact_ids@ == ids_of(frame.contacts@),
            (anchored.0.centroid_um.0 as int, anchored.0.centroid_um.1 as int) == centroid_of(
                frame.contacts@,
            ),
            anchored.0.spread_nm == frame.spread_nm,
            anchored.0.progress == ActiveSwipe::seed(plan, banked_nm as int),
            anchored.0.opened == (anchored.0.progress != 0),
            anchored.1 == (if anchored.0.opened {
                Some(SwipeOutput::Begin { motion: plan.motion, progress: anchored.0.progress })
            } else {
                None
            }),
    {
        let centroid: (i64, i64) = frame_centroid(&frame.contacts);
        let mut seed: i128 = 0;
        if plan.takes_banked_seed() {
            seed = plan.clamp(plan.map(banked_nm as i128));
        }
        let opened: bool = seed != 0;
        let swipe: ActiveSwipe = ActiveSwipe {
            plan,
            committed,
            opened,
            contact_ids: contact_ids(&frame.contacts),
            centroid_um: centroid,
            spread_nm: frame.spread_nm,
            progress: seed,
        };
        let begin: Option<SwipeOutput> = if opened {
            Some(SwipeOutput::Begin { motion: plan.motion, progress: seed })
        } else {
            None
        };
        (swipe, begin)
    }

    /// Fold one frame into the stream. A frame that does not move the progress
    /// emits nothing; the first one that does opens the animation.
    pub fn advance(&mut self, frame: &TouchFrame) -> (output: Option<SwipeOutput>)
        requires
            old(self).wf(),
            frame.wf(),
        ensures
            final(self).wf(),
            final(self).plan == old(self).plan,
            final(self).committed == old(self).committed,
            final(self).contact_ids@ == ids_of(frame.contacts@),
            (final(self).centroid_um.0 as int, final(self).centroid_um.1 as int) == centroid_of(
                frame.contacts@,
            ),
            final(self).spread_nm == frame.spread_nm,
            final(self).progress == old(self).advanced(*frame),
            final(self).opened == (old(self).opened || final(self).progress != old(self).progress),
            output == (if final(self).progress == old(self).progress {
                None
            } else if old(self).opened {
                Some(
                    SwipeOutput::Advance {
                        motion: old(self).plan.motion,
                        delta: (final(self).progress - old(self).progress) as i128,
                    },
                )
            } else {
                Some(
                    SwipeOutput::Begin {
                        motion: old(self).plan.motion,
                        progress: (final(self).progress - old(self).progress) as i128,
                    },
                )
            }),
    {
        let ids: Vec<u8> = contact_ids(&frame.contacts);
        let centroid: (i64, i64) = frame_centroid(&frame.contacts);
        let mut travel: i128 = 0;
        if same_ids(&ids, &self.contact_ids) {
            travel = match self.plan.axis {
                GestureAxis::Horizontal => ((centroid.0 - self.centroid_um.0) as i128) * 1000,
                GestureAxis::Vertical => -(((centroid.1 - self.centroid_um.1) as i128) * 1000),
                GestureAxis::Pinch => (frame.spread_nm - self.spread_nm) as i128,
            };
        }
        assert(travel == self.travel(*frame));
        let candidate: i128 = self.progress + self.plan.map(travel);
        let next: i128 = self.plan.clamp(candidate);
        let delta: i128 = next - self.progress;
        self.contact_ids = ids;
        self.centroid_um = centroid;
        self.spread_nm = frame.spread_nm;
        self.progress = next;
        if delta == 0 {
            return None;
        }
        if !self.opened {
            self.opened = true;
            return Some(SwipeOutput::Begin { motion: self.plan.motion, progress: delta });
        }
        Some(SwipeOutput::Advance { motion: self.plan.motion, delta })
    }

    /// The slot of the direction that the recognizer committed.
    pub open spec fn own_binding(self) -> Option<(ButtonId, Action)> {
        if self.plan.positive matches Some((button, _)) && button == self.committed {
            self.plan.positive
        } else if self.plan.negative matches Some((button, _)) && button == self.committed {
            self.plan.negative
        } else {
            None
        }
    }

    fn committed_binding(&self) -> (binding: Option<(ButtonId, Action)>)
        ensures
            binding == self.own_binding(),
    {
        if let Some((button, _)) = self.plan.positive {
            if button == self.committed {
                return self.plan.positive;
            }
        }
        if let Some((button, _)) = self.plan.negative {
            if button == self.committed {
                return self.plan.negative;
            }
        }
        None
    }

    /// Resolve the stroke's lift. An opened stream leaves it to the injector
    /// whether it commits; one that never opened fires its committed direction's
    /// binding discretely, so that an ultra-short stroke does not lose it.
    pub fn release(self) -> (end: (SwipeOutput, Option<(ButtonId, Action)>))
        ensures
            end == (if self.opened {
                (
                    SwipeOutput::Finish { motion: self.plan.motion, end: SwipeEnd::AtRelease },
                    None,
                )
            } else {
                (SwipeOutput::Idle, self.own_binding())
            }),
    {
        if !self.opened {
            return (SwipeOutput::Idle, self.committed_binding());
        }
        (SwipeOutput::Finish { motion: self.plan.motion, end: SwipeEnd::AtRelease }, None)
    }

    /// Session teardown always springs the animation back.
    pub fn terminate(self) -> (output: SwipeOutput)
        ensures
            output == (if self.opened {
                SwipeOutput::Finish { motion: self.plan.motion, end: SwipeEnd::Cancelled }
            } else {
                SwipeOutput::Idle
            }),
    {
        if !self.opened {
            return SwipeOutput::Idle;
        }
        SwipeOutput::Finish { motion: self.plan.motion, end: SwipeEnd::Cancelled }
    }

    /// The action that a failed beginning falls back to: the slot of the sign
    /// toward which the stream was opening.
    pub fn opening_binding(&self, opening_progress: i128) -> (binding: Option<(ButtonId, Action)>)
        ensures
            binding == (if opening_progress > 0 {
                self.plan.positive
            } else {
                self.plan.negative
            }),
    {
        if opening_progress > 0 {
            self.plan.positive
        } else {
            self.plan.negative
        }
    }
}

/// Banks a stroke's change of spread, frame by frame, so that a pinch can open
/// with the travel that the recognizer's threshold consumed.
#[derive(Debug)]
pub struct SpreadBank {
    /// The fingers of the last frame, and their spread.
    pub anchor: Option<(Vec<u8>, i64)>,
    pub banked_nm: i64,
}

/// What the bank can hold.
pub open spec fn bankable(value: int) -> int {
    if value > SPREAD_LIMIT {
        SPREAD_LIMIT as int
    } else if value < -SPREAD_LIMIT {
        -SPREAD_LIMIT
    } else {
        value
    }
}

impl Default for SpreadBank {
    fn default() -> (bank: SpreadBank)
        ensures
            bank.anchor is None,
            bank.banked_nm == 0,
            bank.wf(),
    {
        SpreadBank { anchor: None, banked_nm: 0 }
    }
}

impl SpreadBank {
    pub open spec fn wf(self) -> bool {
        &&& -SPREAD_LIMIT <= self.banked_nm <= SPREAD_LIMIT
        &&& self.anchor matches Some((_, spread)) ==> 0 <= spread <= SPREAD_LIMIT
    }

    /// What a frame adds. One with other fingers adds nothing, so that a finger
    /// that lands cannot fake travel.
    pub open spec fn gain(self, frame: TouchFrame) -> int {
        match self.anchor {
            Some((ids, spread)) if ids@ == ids_of(frame.contacts@) => frame.spread_nm - spread,
            _ => 0,
        }
    }

    /// Bank one frame.
    pub fn fold(&mut self, frame: &TouchFrame)
        requires
            old(self).wf(),
            frame.wf(),
        ensures
            final(self).wf(),
            final(self).anchor is Some,
            (final(self).anchor->0).0@ == ids_of(frame.contacts@),
            (final(self).anchor->0).1 == frame.spread_nm,
            final(self).banked_nm == bankable(old(self).banked_nm + old(self).gain(*frame)),
    {
        let ids: Vec<u8> = contact_ids(&frame.contacts);
        let mut gain: i64 = 0;
        if let Some((anchor_ids, spread)) = &self.anchor {
            if same_ids(anchor_ids, &ids) {
                gain = frame.spread_nm - *spread;
            }
        }
        let sum: i64 = self.banked_nm + gain;
        self.banked_nm = if sum > SPREAD_LIMIT {
            SPREAD_LIMIT
        } else if sum < -SPREAD_LIMIT {
            -SPREAD_LIMIT
        } else {
            sum
        };
        self.anchor = Some((ids, frame.spread_nm));
    }

    /// Withdraw what was banked.
    pub fn take(&mut self) -> (banked_nm: i64)
        ensures
            banked_nm == old(self).banked_nm,
            final(self).banked_nm == 0,
            final(self).anchor == old(self).anchor,
    {
        let banked_nm: i64 = self.banked_nm;
        self.banked_nm = 0;
        banked_nm
    }

    /// Forget the stroke.
    pub fn reset(&mut self)
        ensures
            final(self).anchor is None,
            final(self).banked_nm == 0,
    {
        self.anchor = None;
        self.banked_nm = 0;
    }
}

/// An unbound sign is never committed: whatever the frames, progress stays at or
/// on the bound side of zero.
pub proof fn unbound_signs_stay_at_zero(plan: SwipeStreamPlan, progress: int)
    ensures
        plan.positive is None ==> plan.bounded(progress) <= 0,
        plan.negative is None ==> plan.bounded(progress) >= 0,
{
}

/// The linear axes track the finger one to one: travel there and back within the
/// bounds leaves the progress where it was.
pub proof fn linear_travel_is_reversible(plan: SwipeStreamPlan, progress: int, travel: int)
    requires
        plan.travel is Linear,
        plan.lower() <= progress <= plan.upper(),
        plan.lower() <= progress + plan.mapped(travel) <= plan.upper(),
    ensures
        plan.bounded(plan.bounded(progress + plan.mapped(travel)) + plan.mapped(-travel)) == progress,
{
}

/// The positions of the fingers settle the centroid: it lies in every box that holds
/// them all.
pub proof fn the_centroid_lies_among_the_fingers(
    contacts: Seq<TouchContact>,
    left: int,
    right: int,
    top: int,
    bottom: int,
)
    requires
        contacts.len() >= 1,
        forall|i: int|
            0 <= i < contacts.len() ==> left <= (#[trigger] contacts[i]).x_um <= right && top
                <= contacts[i].y_um <= bottom,
    ensures
        left <= centroid_of(contacts).0 <= right,
        top <= centroid_of(contacts).1 <= bottom,
{
    let count = contacts.len() as int;
    lemma_sum_between(contacts, true, left, right);
    lemma_sum_between(contacts, false, top, bottom);
    lemma_quotient_between(sum_of(contacts, true), count, left, right);
    lemma_quotient_between(sum_of(contacts, false), count, top, bottom);
}

/// Every finger weighs the same: moving one of them by as many micrometres as there
/// are fingers moves the centroid the same way, by one micrometre, but for the
/// rounding toward zero.
pub proof fn every_finger_moves_the_centroid(
    before: Seq<TouchContact>,
    finger: int,
    after: TouchContact,
    steps: int,
)
    requires
        0 <= finger < before.len(),
        steps >= 0,
    ensures
        after.x_um - before[finger].x_um == steps * before.len() ==> steps - 1 <= centroid_of(
            before.update(finger, after),
        ).0 - centroid_of(before).0 <= steps,
        after.y_um - before[finger].y_um == steps * before.len() ==> steps - 1 <= centroid_of(
            before.update(finger, after),
        ).1 - centroid_of(before).1 <= steps,
{
    let count = before.len() as int;
    lemma_sum_update(before, finger, after, true);
    lemma_sum_update(before, finger, after, false);
    if after.x_um - before[finger].x_um == steps * count {
        lemma_quotient_shift(sum_of(before, true), count, steps);
    }
    if after.y_um - before[finger].y_um == steps * count {
        lemma_quotient_shift(sum_of(before, false), count, steps);
    }
}

proof fn lemma_sum_between(contacts: Seq<TouchContact>, x: bool, low: int, high: int)
    requires
        forall|i: int|
            0 <= i < contacts.len() ==> low <= (if x {
                (#[trigger] contacts[i]).x_um
            } else {
                contacts[i].y_um
            }) <= high,
    ensures
        low * contacts.len() <= sum_of(contacts, x) <= high * contacts.len(),
    decreases contacts.len(),
{
    if contacts.len() > 0 {
        let rest = contacts.drop_last();
        assert forall|i: int| 0 <= i < rest.len() implies low <= (if x {
            (#[trigger] rest[i]).x_um
        } else {
            rest[i].y_um
        }) <= high by {
            assert(rest[i] == contacts[i]);
        }
        lemma_sum_between(rest, x, low, high);
        let last = contacts[contacts.len() - 1];
        assert(low <= (if x {
            last.x_um
        } else {
            last.y_um
        }) <= high);
        assert(low * contacts.len() == low * rest.len() + low) by (nonlinear_arith)
            requires
                contacts.len() == rest.len() + 1,
        ;
        assert(high * contacts.len() == high * rest.len() + high) by (nonlinear_arith)
            requires
                contacts.len() == rest.len() + 1,
        ;
    }
}

proof fn lemma_quotient_between(value: int, count: int, low: int, high: int)
    requires
        count >= 1,
        low * count <= value <= high * count,
    ensures
        low <= quotient(value, count) <= high,
{
    if value >= 0 {
        assert(low <= value / count <= high) by (nonlinear_arith)
            requires
                count >= 1,
                low * count <= value <= high * count,
        ;
    } else {
        assert(-high <= (-value) / count <= -low) by (nonlinear_arith)
            requires
                count >= 1,
                low * count <= value <= high * count,
        ;
    }
}

proof fn lemma_quotient_shift(value: int, count: int, steps: int)
    requires
        count >= 1,
        steps >= 0,
    ensures
        steps - 1 <= quotient(value + steps * count, count) - quotient(value, count) <= steps,
{
    let moved = value + steps * count;
    assert(moved / count == value / count + steps) by (nonlinear_arith)
        requires
            count >= 1,
            moved == value + steps * count,
    ;
    assert((-moved) / count == (-value) / count - steps) by (nonlinear_arith)
        requires
            count >= 1,
            moved == value + steps * count,
    ;
    assert(-1 <= value / count + (-value) / count <= 0) by (nonlinear_arith)
        requires
            count >= 1,
    ;
    assert(steps * count >= 0) by (nonlinear_arith)
        requires
            count >= 1,
            steps >= 0,
    ;
}

proof fn lemma_sum_update(contacts: Seq<TouchContact>, finger: int, after: TouchContact, x: bool)
    requires
        0 <= finger < contacts.len(),
    ensures
        sum_of(contacts.update(finger, after), x) - sum_of(contacts, x) == (if x {
            after.x_um - contacts[finger].x_um
        } else {
            after.y_um - contacts[finger].y_um
        }),
    decreases contacts.len(),
{
    let moved = contacts.update(finger, after);
    if finger == contacts.len() - 1 {
        assert(moved.drop_last() =~= contacts.drop_last());
    } else {
        assert(moved.drop_last() =~= contacts.drop_last().update(finger, after));
        lemma_sum_update(contacts.drop_last(), finger, after, x);
    }
}

/// Whether a frame moves the fingers of a stream in the direction that a trigger names:
/// up the pad is toward smaller y, and a pinch opens as the fingers spread.
pub open spec fn moves_toward(trigger: ButtonId, swipe: ActiveSwipe, frame: TouchFrame) -> bool {
    let (x, y) = centroid_of(frame.contacts@);
    &&& ids_of(frame.contacts@) == swipe.contact_ids@
    &&& match trigger {
        ButtonId::TouchpadThreeFingerSwipeUp => y < swipe.centroid_um.1,
        ButtonId::TouchpadFourFingerSwipeUp => y < swipe.centroid_um.1,
        ButtonId::TouchpadThreeFingerSwipeDown => y > swipe.centroid_um.1,
        ButtonId::TouchpadFourFingerSwipeDown => y > swipe.centroid_um.1,
        ButtonId::TouchpadThreeFingerSwipeLeft => x < swipe.centroid_um.0,
        ButtonId::TouchpadFourFingerSwipeLeft => x < swipe.centroid_um.0,
        ButtonId::TouchpadThreeFingerSwipeRight => x > swipe.centroid_um.0,
        ButtonId::TouchpadFourFingerSwipeRight => x > swipe.centroid_um.0,
        ButtonId::TouchpadTwoFingerPinchIn => frame.spread_nm < swipe.spread_nm,
        ButtonId::TouchpadFourFingerPinchIn => frame.spread_nm < swipe.spread_nm,
        ButtonId::TouchpadTwoFingerPinchOut => frame.spread_nm > swipe.spread_nm,
        ButtonId::TouchpadFourFingerPinchOut => frame.spread_nm > swipe.spread_nm,
        _ => false,
    }
}

/// How far a frame moves the fingers along the axis of a trigger, in nanometres.
pub open spec fn distance(trigger: ButtonId, swipe: ActiveSwipe, frame: TouchFrame) -> int {
    let (x, y) = centroid_of(frame.contacts@);
    let (from_x, from_y) = swipe.centroid_um;
    match trigger {
        ButtonId::TouchpadThreeFingerSwipeUp => (from_y - y) * 1000,
        ButtonId::TouchpadFourFingerSwipeUp => (from_y - y) * 1000,
        ButtonId::TouchpadThreeFingerSwipeDown => (y - from_y) * 1000,
        ButtonId::TouchpadFourFingerSwipeDown => (y - from_y) * 1000,
        ButtonId::TouchpadThreeFingerSwipeLeft => (from_x - x) * 1000,
        ButtonId::TouchpadFourFingerSwipeLeft => (from_x - x) * 1000,
        ButtonId::TouchpadThreeFingerSwipeRight => (x - from_x) * 1000,
        ButtonId::TouchpadFourFingerSwipeRight => (x - from_x) * 1000,
        ButtonId::TouchpadTwoFingerPinchIn => swipe.spread_nm - frame.spread_nm,
        ButtonId::TouchpadFourFingerPinchIn => swipe.spread_nm - frame.spread_nm,
        ButtonId::TouchpadTwoFingerPinchOut => frame.spread_nm - swipe.spread_nm,
        ButtonId::TouchpadFourFingerPinchOut => frame.spread_nm - swipe.spread_nm,
        _ => 0,
    }
}

/// The distance in the direction of a trigger that makes one unit of progress, in
/// nanometres.
pub open spec fn unit_distance(trigger: ButtonId) -> int {
    match trigger {
        ButtonId::TouchpadThreeFingerSwipeUp => 75_600_000,
        ButtonId::TouchpadFourFingerSwipeUp => 75_600_000,
        ButtonId::TouchpadThreeFingerSwipeDown => 75_600_000,
        ButtonId::TouchpadFourFingerSwipeDown => 75_600_000,
        ButtonId::TouchpadTwoFingerPinchIn => 15_000_000,
        ButtonId::TouchpadTwoFingerPinchOut => 30_000_000,
        ButtonId::TouchpadFourFingerPinchIn => 10_000_000,
        ButtonId::TouchpadFourFingerPinchOut => 25_000_000,
        _ => 117_000_000,
    }
}

/// On a vertical pair, fingers that move up the pad travel forward and fingers that
/// move down travel back. On a horizontal one, right is forward and left is back; on a
/// pinch, spreading is forward and closing is back. Fingers that stay do not travel.
pub proof fn travel_follows_the_fingers(swipe: ActiveSwipe, frame: TouchFrame)
    requires
        ids_of(frame.contacts@) == swipe.contact_ids@,
    ensures
        swipe.plan.axis == GestureAxis::Vertical ==> {
            &&& swipe.travel(frame) > 0 <==> centroid_of(frame.contacts@).1 < swipe.centroid_um.1
            &&& swipe.travel(frame) < 0 <==> centroid_of(frame.contacts@).1 > swipe.centroid_um.1
        },
        swipe.plan.axis == GestureAxis::Horizontal ==> {
            &&& swipe.travel(frame) > 0 <==> centroid_of(frame.contacts@).0 > swipe.centroid_um.0
            &&& swipe.travel(frame) < 0 <==> centroid_of(frame.contacts@).0 < swipe.centroid_um.0
        },
        swipe.plan.axis == GestureAxis::Pinch ==> {
            &&& swipe.travel(frame) > 0 <==> frame.spread_nm > swipe.spread_nm
            &&& swipe.travel(frame) < 0 <==> frame.spread_nm < swipe.spread_nm
        },
{
}

/// Where every finger of a stroke moved up the pad by two micrometres or more, a
/// vertical pair travels forward; where every finger moved right by as much, a
/// horizontal one does. The opposite ways travel back.
pub proof fn travel_follows_every_finger(
    swipe: ActiveSwipe,
    before: Seq<TouchContact>,
    frame: TouchFrame,
)
    requires
        before.len() >= 1,
        swipe.contact_ids@ == ids_of(before),
        (swipe.centroid_um.0 as int, swipe.centroid_um.1 as int) == centroid_of(before),
        ids_of(frame.contacts@) == ids_of(before),
    ensures
        swipe.plan.axis == GestureAxis::Vertical && (forall|i: int|
            0 <= i < before.len() ==> (#[trigger] frame.contacts@[i]).y_um <= before[i].y_um - 2)
            ==> swipe.travel(frame) > 0,
        swipe.plan.axis == GestureAxis::Vertical && (forall|i: int|
            0 <= i < before.len() ==> (#[trigger] frame.contacts@[i]).y_um >= before[i].y_um + 2)
            ==> swipe.travel(frame) < 0,
        swipe.plan.axis == GestureAxis::Horizontal && (forall|i: int|
            0 <= i < before.len() ==> (#[trigger] frame.contacts@[i]).x_um >= before[i].x_um + 2)
            ==> swipe.travel(frame) > 0,
        swipe.plan.axis == GestureAxis::Horizontal && (forall|i: int|
            0 <= i < before.len() ==> (#[trigger] frame.contacts@[i]).x_um <= before[i].x_um - 2)
            ==> swipe.travel(frame) < 0,
{
    let after = frame.contacts@;
    assert(ids_of(after).len() == after.len() && ids_of(before).len() == before.len());
    if forall|i: int| 0 <= i < before.len() ==> (#[trigger] after[i]).y_um <= before[i].y_um - 2 {
        lemma_all_moved(after, before, false);
    }
    if forall|i: int| 0 <= i < before.len() ==> (#[trigger] after[i]).y_um >= before[i].y_um + 2 {
        assert forall|i: int| 0 <= i < before.len() implies (#[trigger] before[i]).y_um
            <= after[i].y_um - 2 by {
            assert(after[i].y_um >= before[i].y_um + 2);
        }
        lemma_all_moved(before, after, false);
    }
    if forall|i: int| 0 <= i < before.len() ==> (#[trigger] after[i]).x_um >= before[i].x_um + 2 {
        assert forall|i: int| 0 <= i < before.len() implies (#[trigger] before[i]).x_um
            <= after[i].x_um - 2 by {
            assert(after[i].x_um >= before[i].x_um + 2);
        }
        lemma_all_moved(before, after, true);
    }
    if forall|i: int| 0 <= i < before.len() ==> (#[trigger] after[i]).x_um <= before[i].x_um - 2 {
        lemma_all_moved(after, before, true);
    }
}

proof fn lemma_all_moved(low: Seq<TouchContact>, high: Seq<TouchContact>, x: bool)
    requires
        low.len() == high.len() >= 1,
        forall|i: int|
            0 <= i < low.len() ==> (if x {
                (#[trigger] low[i]).x_um <= high[i].x_um - 2
            } else {
                low[i].y_um <= high[i].y_um - 2
            }),
    ensures
        quotient(sum_of(low, x), low.len() as int) < quotient(sum_of(high, x), low.len() as int),
{
    lemma_sums_apart(low, high, x);
    let (a, b, count) = (sum_of(low, x), sum_of(high, x), low.len() as int);
    let c = b - 2 * count;
    assert(a <= c);
    lemma_quotient_monotone(a, c, count);
    lemma_quotient_shift(c, count, 2);
}

proof fn lemma_quotient_monotone(a: int, b: int, count: int)
    requires
        a <= b,
        count >= 1,
    ensures
        quotient(a, count) <= quotient(b, count),
{
    assert(a / count <= b / count) by (nonlinear_arith)
        requires
            a <= b,
            count >= 1,
    ;
    assert((-a) / count >= (-b) / count) by (nonlinear_arith)
        requires
            a <= b,
            count >= 1,
    ;
    assert(b >= 0 ==> b / count >= 0) by (nonlinear_arith)
        requires
            count >= 1,
    ;
    assert(a <= 0 ==> (-a) / count >= 0) by (nonlinear_arith)
        requires
            count >= 1,
    ;
}

proof fn lemma_sums_apart(low: Seq<TouchContact>, high: Seq<TouchContact>, x: bool)
    requires
        low.len() == high.len(),
        forall|i: int|
            0 <= i < low.len() ==> (if x {
                (#[trigger] low[i]).x_um <= high[i].x_um - 2
            } else {
                low[i].y_um <= high[i].y_um - 2
            }),
    ensures
        sum_of(low, x) <= sum_of(high, x) - 2 * low.len(),
    decreases low.len(),
{
    if low.len() > 0 {
        let (a, b) = (low.drop_last(), high.drop_last());
        assert forall|i: int| 0 <= i < a.len() implies (if x {
            (#[trigger] a[i]).x_um <= b[i].x_um - 2
        } else {
            a[i].y_um <= b[i].y_um - 2
        }) by {
            assert(a[i] == low[i] && b[i] == high[i]);
        }
        lemma_sums_apart(a, b, x);
        let last = low[low.len() - 1];
    }
}

/// Moving the fingers in the direction of a bound trigger drives the progress toward
/// the sign whose slot holds that trigger's binding, however the pair is mapped. While
/// the progress is off its limits, it changes by the distance in units of the trigger's
/// own travel: a pad width, a pad height, or the way that its pinch closes or opens.
pub proof fn fingers_drive_the_bound_direction(
    swipe: ActiveSwipe,
    frame: TouchFrame,
    trigger: ButtonId,
    sibling: ButtonId,
    axis: GestureAxis,
    side: Side,
    bindings: Map<ButtonId, Action>,
)
    requires
        swipe.wf(),
        is_sibling(trigger, sibling, axis, side),
        is_plan_for(swipe.plan, trigger, sibling, axis, side, bindings),
        bindings.dom().contains(trigger),
        moves_toward(trigger, swipe, frame),
    ensures
        ({
            let slot = Some((trigger, bindings[trigger]));
            let next = swipe.advanced(frame);
            let made = next - swipe.progress;
            ||| {
                &&& swipe.plan.positive == slot
                &&& made >= 0
                &&& swipe.progress < PROGRESS_LIMIT ==> made > 0
                &&& next < PROGRESS_LIMIT ==> made * unit_distance(trigger) == distance(
                    trigger,
                    swipe,
                    frame,
                ) * swipe.plan.travel.parts()
            }
            ||| {
                &&& swipe.plan.negative == slot
                &&& made <= 0
                &&& swipe.progress > -PROGRESS_LIMIT ==> made < 0
                &&& next > -PROGRESS_LIMIT ==> -made * unit_distance(trigger) == distance(
                    trigger,
                    swipe,
                    frame,
                ) * swipe.plan.travel.parts()
            }
        }),
{
    let travel = swipe.travel(frame);
    let weight = swipe.plan.travel.weight(travel);
    travel_follows_the_fingers(swipe, frame);
    bound_sides_commit_their_own_action(
        swipe.plan,
        trigger,
        sibling,
        axis,
        side,
        bindings,
        travel,
    );
    let mapped = swipe.plan.mapped(travel);
    let far = distance(trigger, swipe, frame);
    let unit = unit_distance(trigger);
    let parts = swipe.plan.travel.parts();
    assert(travel == far || travel == -far);
    assert(weight * unit == parts);
    assert(mapped == travel * weight || mapped == -(travel * weight));
    assert(far * weight * unit == far * parts) by (nonlinear_arith)
        requires
            weight * unit == parts,
    ;
    assert((-far) * weight == -(far * weight)) by (nonlinear_arith);
    assert(far * weight > 0) by (nonlinear_arith)
        requires
            far > 0,
            weight >= 1,
    ;
    assert(mapped == far * weight || mapped == -(far * weight));
}

/// Fingers that joined or left do not move the progress.
pub proof fn other_fingers_only_move_the_anchor(swipe: ActiveSwipe, frame: TouchFrame)
    requires
        swipe.wf(),
        ids_of(frame.contacts@) != swipe.contact_ids@,
    ensures
        swipe.advanced(frame) == swipe.progress,
{
    assert(swipe.plan.mapped(0) == 0) by {
        let weight = swipe.plan.travel.weight(0);
        assert(0 * weight == 0);
    }
}

/// Each action that an animation commits, with its motion: the two of a motion commit at
/// opposite signs. An action that no animation commits streams nowhere.
pub proof fn animations_commit_their_actions(action: Action)
    ensures
        consumer(Action::NextDesktop) == Some((GestureMotion::Horizontal, 1i8)),
        consumer(Action::PreviousDesktop) == Some((GestureMotion::Horizontal, -1i8)),
        consumer(Action::MissionControl) == Some((GestureMotion::Vertical, 1i8)),
        consumer(Action::AppExpose) == Some((GestureMotion::Vertical, -1i8)),
        consumer(Action::ShowDesktop) == Some((GestureMotion::Pinch, 1i8)),
        consumer(Action::LaunchpadShow) == Some((GestureMotion::Pinch, -1i8)),
        consumer(Action::ZoomIn) == Some((GestureMotion::Zoom, 1i8)),
        consumer(Action::ZoomOut) == Some((GestureMotion::Zoom, -1i8)),
        consumer(action) is Some ==> matches!(action, Action::NextDesktop | Action::PreviousDesktop
            | Action::MissionControl | Action::AppExpose | Action::ShowDesktop
            | Action::LaunchpadShow | Action::ZoomIn | Action::ZoomOut),
{
}

/// The directions of a stroke go in pairs: left with right, up with down, in with out,
/// for the same fingers. Right, up and out are the positive sides.
pub proof fn directions_pair_with_their_opposites(trigger: ButtonId)
    ensures
        is_sibling(
            ButtonId::TouchpadThreeFingerSwipeRight,
            ButtonId::TouchpadThreeFingerSwipeLeft,
            GestureAxis::Horizontal,
            Side::Positive,
        ),
        is_sibling(
            ButtonId::TouchpadFourFingerSwipeRight,
            ButtonId::TouchpadFourFingerSwipeLeft,
            GestureAxis::Horizontal,
            Side::Positive,
        ),
        is_sibling(
            ButtonId::TouchpadThreeFingerSwipeUp,
            ButtonId::TouchpadThreeFingerSwipeDown,
            GestureAxis::Vertical,
            Side::Positive,
        ),
        is_sibling(
            ButtonId::TouchpadFourFingerSwipeUp,
            ButtonId::TouchpadFourFingerSwipeDown,
            GestureAxis::Vertical,
            Side::Positive,
        ),
        is_sibling(
            ButtonId::TouchpadTwoFingerPinchOut,
            ButtonId::TouchpadTwoFingerPinchIn,
            GestureAxis::Pinch,
            Side::Positive,
        ),
        is_sibling(
            ButtonId::TouchpadFourFingerPinchOut,
            ButtonId::TouchpadFourFingerPinchIn,
            GestureAxis::Pinch,
            Side::Positive,
        ),
        (exists|sibling: ButtonId, axis: GestureAxis, side: Side|
            is_sibling(trigger, sibling, axis, side)) ==> matches!(trigger,
            ButtonId::TouchpadThreeFingerSwipeRight | ButtonId::TouchpadThreeFingerSwipeLeft
            | ButtonId::TouchpadThreeFingerSwipeUp | ButtonId::TouchpadThreeFingerSwipeDown
            | ButtonId::TouchpadFourFingerSwipeRight | ButtonId::TouchpadFourFingerSwipeLeft
            | ButtonId::TouchpadFourFingerSwipeUp | ButtonId::TouchpadFourFingerSwipeDown
            | ButtonId::TouchpadTwoFingerPinchOut | ButtonId::TouchpadTwoFingerPinchIn
            | ButtonId::TouchpadFourFingerPinchOut | ButtonId::TouchpadFourFingerPinchIn),
{
}

/// A pair streams exactly where every bound direction has an animation, all on one
/// motion, and two bound directions commit at opposite signs; an unbound pair does not.
pub proof fn pairs_stream_what_they_can_honor(
    trigger: ButtonId,
    sibling: ButtonId,
    axis: GestureAxis,
    side: Side,
    bindings: Map<ButtonId, Action>,
)
    requires
        is_sibling(trigger, sibling, axis, side),
    ensures
        (exists|plan: SwipeStreamPlan|
            #[trigger] is_plan_for(plan, trigger, sibling, axis, side, bindings)) <==> {
            let own = bindings.dom().contains(trigger);
            let other = bindings.dom().contains(sibling);
            &&& own || other
            &&& own ==> consumer(bindings[trigger]) is Some
            &&& other ==> consumer(bindings[sibling]) is Some
            &&& own && other ==> {
                let (motion, sign) = consumer(bindings[trigger])->0;
                let (other_motion, other_sign) = consumer(bindings[sibling])->0;
                motion == other_motion && sign == -other_sign
            }
        },
{
    let own = bound(bindings, trigger);
    let other = bound(bindings, sibling);
    let able = {
        &&& own is Some || other is Some
        &&& own is Some ==> consumer(own->0) is Some
        &&& other is Some ==> consumer(other->0) is Some
        &&& own is Some && other is Some ==> (consumer(own->0)->0).0 == (consumer(other->0)->0).0
            && (consumer(own->0)->0).1 == -(consumer(other->0)->0).1
    };
    if able {
        let (motion, flipped) = if own is Some {
            ((consumer(own->0)->0).0, side != side_of_sign((consumer(own->0)->0).1))
        } else {
            (
                (consumer(other->0)->0).0,
                side.other() != side_of_sign((consumer(other->0)->0).1),
            )
        };
        let plan = SwipeStreamPlan {
            axis,
            travel: travel_of(trigger, axis),
            motion,
            flipped,
            positive: match commits(own, trigger, true) {
                Some(binding) => Some(binding),
                None => commits(other, sibling, true),
            },
            negative: match commits(own, trigger, false) {
                Some(binding) => Some(binding),
                None => commits(other, sibling, false),
            },
        };
        assert(is_plan_for(plan, trigger, sibling, axis, side, bindings));
    }
}

/// A planned pair is mapped as its bindings ask: unflipped where the positive direction
/// commits at a positive sign or the negative one at a negative sign, flipped otherwise,
/// and a sign that no binding commits at stays empty.
pub proof fn bindings_settle_the_mapping(
    plan: SwipeStreamPlan,
    negative: ButtonId,
    positive: ButtonId,
    axis: GestureAxis,
    bindings: Map<ButtonId, Action>,
)
    requires
        is_pair(negative, positive, axis),
        is_plan_for(plan, positive, negative, axis, Side::Positive, bindings),
    ensures
        bindings.dom().contains(positive) ==> (consumer(bindings[positive]) matches Some(
            (motion, sign),
        ) && plan.motion == motion && plan.flipped == (sign < 0)),
        bindings.dom().contains(negative) ==> (consumer(bindings[negative]) matches Some(
            (motion, sign),
        ) && plan.motion == motion && plan.flipped == (sign > 0)),
        !plan.flipped ==> plan.positive == (if bindings.dom().contains(positive) {
            Some((positive, bindings[positive]))
        } else {
            None
        }) && plan.negative == (if bindings.dom().contains(negative) {
            Some((negative, bindings[negative]))
        } else {
            None
        }),
        plan.flipped ==> plan.positive == (if bindings.dom().contains(negative) {
            Some((negative, bindings[negative]))
        } else {
            None
        }) && plan.negative == (if bindings.dom().contains(positive) {
            Some((positive, bindings[positive]))
        } else {
            None
        }),
{
}

/// A stroke that never opened fires the binding of the direction that was committed,
/// and nothing where that direction is unbound.
pub proof fn unopened_strokes_fire_their_own_binding(
    swipe: ActiveSwipe,
    trigger: ButtonId,
    sibling: ButtonId,
    axis: GestureAxis,
    side: Side,
    bindings: Map<ButtonId, Action>,
)
    requires
        is_sibling(trigger, sibling, axis, side),
        is_plan_for(swipe.plan, trigger, sibling, axis, side, bindings),
        swipe.committed == trigger,
    ensures
        swipe.own_binding() == (if bindings.dom().contains(trigger) {
            Some((trigger, bindings[trigger]))
        } else {
            None
        }),
{
}

/// The spread that a pinch banked opens its stream at once, toward the binding of the
/// direction in which the fingers moved; a zoom never opens with it.
pub proof fn banked_spread_opens_the_bound_direction(
    plan: SwipeStreamPlan,
    trigger: ButtonId,
    sibling: ButtonId,
    side: Side,
    bindings: Map<ButtonId, Action>,
    banked_nm: int,
)
    requires
        plan.wf(),
        is_sibling(trigger, sibling, GestureAxis::Pinch, side),
        is_plan_for(plan, trigger, sibling, GestureAxis::Pinch, side, bindings),
        bindings.dom().contains(trigger),
        -SPREAD_LIMIT <= banked_nm <= SPREAD_LIMIT,
        banked_nm != 0,
        banked_nm > 0 <==> (trigger == ButtonId::TouchpadTwoFingerPinchOut || trigger
            == ButtonId::TouchpadFourFingerPinchOut),
    ensures
        plan.motion == GestureMotion::Zoom ==> ActiveSwipe::seed(plan, banked_nm) == 0,
        plan.motion != GestureMotion::Zoom ==> {
            let seed = ActiveSwipe::seed(plan, banked_nm);
            let far = if banked_nm > 0 {
                banked_nm
            } else {
                -banked_nm
            };
            ||| {
                &&& plan.positive == Some((trigger, bindings[trigger]))
                &&& seed > 0
                &&& seed * unit_distance(trigger) == far * plan.travel.parts()
            }
            ||| {
                &&& plan.negative == Some((trigger, bindings[trigger]))
                &&& seed < 0
                &&& -seed * unit_distance(trigger) == far * plan.travel.parts()
            }
        },
{
    bound_sides_commit_their_own_action(
        plan,
        trigger,
        sibling,
        GestureAxis::Pinch,
        side,
        bindings,
        banked_nm,
    );
    let weight = plan.travel.weight(banked_nm);
    let unit = unit_distance(trigger);
    let parts = plan.travel.parts();
    let far = if banked_nm > 0 {
        banked_nm
    } else {
        -banked_nm
    };
    assert(weight * unit == parts) by {
        assert(plan.travel == travel_of(trigger, GestureAxis::Pinch));
        assert(weight == 30_000_000 && unit == 15_000_000 || weight == 15_000_000 && unit
            == 30_000_000 || weight == 25_000_000 && unit == 10_000_000 || weight == 10_000_000
            && unit == 25_000_000);
    }
    assert(far * weight * unit == far * parts) by (nonlinear_arith)
        requires
            weight * unit == parts,
    ;
    assert((-far) * weight == -(far * weight)) by (nonlinear_arith);
    assert(0 < far * weight <= 0x2000_0000_0000_0000 * 1_000_000_000) by (nonlinear_arith)
        requires
            0 < far <= 0x2000_0000_0000_0000,
            1 <= weight <= 1_000_000_000,
    ;
}

/// What a bank holds is how far the spread went from its first frame to its last, as
/// long as the fingers stay the same: frames between them count once.
pub proof fn banked_spread_adds_up(bank: SpreadBank, middle: SpreadBank, first: TouchFrame, second: TouchFrame)
    requires
        bank.wf(),
        bank.anchor matches Some((ids, _)) && ids@ == ids_of(first.contacts@),
        middle.anchor matches Some((ids, spread)) && ids@ == ids_of(first.contacts@) && spread
            == first.spread_nm,
        ids_of(second.contacts@) == ids_of(first.contacts@),
    ensures
        bank.gain(first) + middle.gain(second) == second.spread_nm - (bank.anchor->0).1,
        bank.gain(first) == first.spread_nm - (bank.anchor->0).1,
{
}

/// Other fingers bank nothing, and neither does the first frame of a stroke.
pub proof fn other_fingers_bank_nothing(bank: SpreadBank, frame: TouchFrame)
    requires
        bank.anchor matches Some((ids, _)) ==> ids@ != ids_of(frame.contacts@),
    ensures
        bank.gain(frame) == 0,
{
}

/// A bank holds what it is given, as far as it has room, and never more.
pub proof fn banks_keep_what_fits(value: int)
    ensures
        -SPREAD_LIMIT <= value <= SPREAD_LIMIT ==> bankable(value) == value,
        value > SPREAD_LIMIT ==> bankable(value) == SPREAD_LIMIT,
        value < -SPREAD_LIMIT ==> bankable(value) == -SPREAD_LIMIT,
{
}

/// Two frames have the same fingers exactly where they report the same ids in the same
/// order.
pub proof fn fingers_are_known_by_their_ids(a: Seq<TouchContact>, b: Seq<TouchContact>)
    ensures
        ids_of(a) == ids_of(b) <==> a.len() == b.len() && forall|i: int|
            0 <= i < a.len() ==> (#[trigger] a[i]).id == b[i].id,
{
    if ids_of(a) == ids_of(b) {
        assert(ids_of(a).len() == ids_of(b).len());
        assert forall|i: int| 0 <= i < a.len() implies (#[trigger] a[i]).id == b[i].id by {
            assert(ids_of(a)[i] == ids_of(b)[i]);
        }
    }
    if a.len() == b.len() && forall|i: int| 0 <= i < a.len() ==> (#[trigger] a[i]).id == b[i].id {
        assert(ids_of(a) =~= ids_of(b));
    }
}

} // verus!
