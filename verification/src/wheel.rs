//! Thumb-wheel binding state for one captured session.
//!
//! Each physical rotation direction owns an independent state machine. Within
//! one direction, continuous scrolling and discrete actions exclude each other.
//! Another binding or sensitivity discards what the previous one earned.
use vstd::prelude::*;

use crate::binding::{Action, ButtonId, ThumbwheelSensitivity};
use crate::value::Value;

verus! {

/// Idle gap after which a partly accumulated discrete action is forgotten. In
/// milliseconds.
pub const ACTION_DECAY: u64 = 300;

/// Least gap between two fires of the same discrete action, so that one flick
/// triggers once. In milliseconds.
pub const ACTION_COOLDOWN: u64 = 200;

/// Most times that one captured event may fire a repeatable action.
pub const MAX_REPEATS_PER_EVENT: u32 = 20;

/// Physical sign of one captured rotation.
#[derive(Clone, Copy, Debug, PartialEq, Eq, Structural)]
pub enum PhysicalDirection {
    Up,
    Down,
}

/// One captured wheel rotation that is not zero, split into its direction and
/// its size.
#[derive(Clone, Copy, Debug, PartialEq, Eq, Structural)]
pub struct WheelRotation {
    pub direction: PhysicalDirection,
    pub magnitude: i32,
}

impl WheelRotation {
    pub open spec fn wf(self) -> bool {
        1 <= self.magnitude <= 32768
    }

    /// Decode the signed increment count. Zero carries no rotation.
    pub fn from_increments(increments: i16) -> (rotation: Option<WheelRotation>)
        ensures
            rotation is None <==> increments == 0,
            rotation is Some ==> rotation->0.wf() && rotation->0 == (WheelRotation {
                direction: if increments > 0 {
                    PhysicalDirection::Up
                } else {
                    PhysicalDirection::Down
                },
                magnitude: if increments > 0 {
                    increments as i32
                } else {
                    (-increments) as i32
                },
            }),
    {
        let wide: i32 = increments as i32;
        if wide > 0 {
            Some(WheelRotation { direction: PhysicalDirection::Up, magnitude: wide })
        } else if wide < 0 {
            Some(WheelRotation { direction: PhysicalDirection::Down, magnitude: 0 - wide })
        } else {
            None
        }
    }

    pub open spec fn key(self) -> ButtonId {
        match self.direction {
            PhysicalDirection::Up => ButtonId::ThumbwheelScrollUp,
            PhysicalDirection::Down => ButtonId::ThumbwheelScrollDown,
        }
    }

    /// Binding key for this physical direction.
    pub fn button(self) -> (button: ButtonId)
        ensures
            button == self.key(),
    {
        match self.direction {
            PhysicalDirection::Up => ButtonId::ThumbwheelScrollUp,
            PhysicalDirection::Down => ButtonId::ThumbwheelScrollDown,
        }
    }
}

/// Scroll ticks per revolution, natively and while diverted. A device that does
/// not say has none while diverted, and an increment counts as one native tick.
#[derive(Clone, Copy, Debug, PartialEq, Eq, Structural)]
pub struct WheelResolution {
    pub native: u16,
    pub diverted: u16,
}

/// Device-native scroll scale combined with the user's sensitivity.
#[derive(Clone, Copy, Debug, PartialEq, Eq, Structural)]
pub struct ScrollScale {
    pub resolution: WheelResolution,
    pub sensitivity: ThumbwheelSensitivity,
}

impl ScrollScale {
    /// Pair one captured event's device resolution with the active setting.
    pub fn new(resolution: WheelResolution, sensitivity: ThumbwheelSensitivity) -> (scale:
        ScrollScale)
        ensures
            scale == (ScrollScale { resolution, sensitivity }),
    {
        ScrollScale { resolution, sensitivity }
    }

    /// Whether increments scroll at all on this scale.
    pub open spec fn moves(self) -> bool {
        (self.resolution.native != 0 || self.resolution.diverted == 0)
            && self.sensitivity.percent != 0
    }
}

/// Axis and sign of a continuous-scroll action.
#[derive(Clone, Copy, Debug, PartialEq, Eq, Structural)]
pub enum ScrollBinding {
    Up,
    Down,
    Right,
    Left,
}

impl ScrollBinding {
    pub open spec fn of(action: Action) -> Option<ScrollBinding> {
        match action {
            Action::ScrollUp => Some(ScrollBinding::Up),
            Action::ScrollDown => Some(ScrollBinding::Down),
            Action::HorizontalScrollRight => Some(ScrollBinding::Right),
            Action::HorizontalScrollLeft => Some(ScrollBinding::Left),
            _ => None,
        }
    }

    pub fn from_action(action: &Action) -> (binding: Option<ScrollBinding>)
        ensures
            binding == ScrollBinding::of(*action),
    {
        match action {
            Action::ScrollUp => Some(ScrollBinding::Up),
            Action::ScrollDown => Some(ScrollBinding::Down),
            Action::HorizontalScrollRight => Some(ScrollBinding::Right),
            Action::HorizontalScrollLeft => Some(ScrollBinding::Left),
            _ => None,
        }
    }
}

/// Identity of one continuous-scroll mode.
#[derive(Clone, Copy, Debug, PartialEq, Eq, Structural)]
pub struct ScrollContext {
    pub binding: ScrollBinding,
    pub scale: ScrollScale,
}

/// State of one physical wheel direction.
#[derive(Clone, Copy, Debug, PartialEq, Eq, Structural)]
pub enum WheelState {
    /// No binding has retained state.
    Idle,
    /// Continuous scrolling under one axis, resolution and sensitivity.
    Scroll(ScrollContext),
    /// Progress and timing retained for one discrete binding.
    Action {
        action: Action,
        sensitivity: ThumbwheelSensitivity,
        increments: i32,
        last_event: u64,
        last_fired: Option<u64>,
    },
}

/// What advancing one direction should produce.
#[derive(Clone, Copy, Debug, PartialEq, Eq, Structural)]
pub enum WheelOutput {
    /// Below threshold or suppressed.
    Idle,
    /// Scroll by so many increments, on the scale, along the axis.
    Scroll { binding: ScrollBinding, increments: i32, scale: ScrollScale },
    /// Fire the direction's bound action this many times.
    FireAction(u32),
}

/// Whether an action tracks the distance of a swipe, like a volume knob, and may
/// so fire more than once from one event.
pub open spec fn repeatable(action: Action) -> bool {
    action == Action::VolumeUp || action == Action::VolumeDown
}

fn is_repeatable(action: &Action) -> (yes: bool)
    ensures
        yes == repeatable(*action),
{
    matches!(action, Action::VolumeUp | Action::VolumeDown)
}

/// Milliseconds since a time that may lie ahead.
pub open spec fn since(now: u64, then_at: u64) -> int {
    if now >= then_at {
        now - then_at
    } else {
        0
    }
}

/// A count, as far as a counter can hold it.
pub open spec fn capped(value: int) -> int {
    if value > i32::MAX {
        i32::MAX as int
    } else {
        value
    }
}

fn add_capped(progress: i32, magnitude: i32) -> (total: i32)
    requires
        progress >= 0,
        magnitude >= 0,
    ensures
        total == capped(progress + magnitude),
{
    if progress > i32::MAX - magnitude {
        i32::MAX
    } else {
        progress + magnitude
    }
}

impl WheelState {
    /// Whether progress is a count.
    pub open spec fn wf(self) -> bool {
        self matches WheelState::Action { increments, .. } ==> increments >= 0
    }

    /// Whether the state was earned by exactly this binding.
    pub open spec fn is_of(self, action: Action, sensitivity: ThumbwheelSensitivity) -> bool {
        self matches WheelState::Action { action: a, sensitivity: s, .. } && a == action && s
            == sensitivity
    }

    /// Progress toward the next fire, as it counts at `now`.
    pub open spec fn earned(self, action: Action, sensitivity: ThumbwheelSensitivity, now: u64) -> int {
        match self {
            WheelState::Action { increments, last_event, .. } if self.is_of(action, sensitivity)
                && since(now, last_event) <= ACTION_DECAY => increments as int,
            _ => 0,
        }
    }

    /// When the binding last fired.
    pub open spec fn fired(self, action: Action, sensitivity: ThumbwheelSensitivity) -> Option<u64> {
        match self {
            WheelState::Action { last_fired, .. } if self.is_of(action, sensitivity) => last_fired,
            _ => None,
        }
    }

    /// Whether the binding fired too recently to fire again.
    pub open spec fn cools(self, action: Action, sensitivity: ThumbwheelSensitivity, now: u64) -> bool {
        self.fired(action, sensitivity) matches Some(at) && since(now, at) < ACTION_COOLDOWN
    }

    /// Progress once the rotation is in. A one-shot action earns nothing while it
    /// cools down.
    pub open spec fn total(
        self,
        action: Action,
        magnitude: int,
        sensitivity: ThumbwheelSensitivity,
        now: u64,
    ) -> int {
        if !repeatable(action) && self.cools(action, sensitivity, now) {
            self.earned(action, sensitivity, now)
        } else {
            capped(self.earned(action, sensitivity, now) + magnitude)
        }
    }

    /// How often the rotation fires the action: a repeatable one once for every
    /// threshold passed, up to the cap; a one-shot one at most once.
    pub open spec fn fires(
        self,
        action: Action,
        magnitude: int,
        sensitivity: ThumbwheelSensitivity,
        now: u64,
    ) -> int {
        let crossed = self.total(action, magnitude, sensitivity, now) / sensitivity.threshold as int;
        if repeatable(action) {
            if crossed > MAX_REPEATS_PER_EVENT {
                MAX_REPEATS_PER_EVENT as int
            } else {
                crossed
            }
        } else if self.cools(action, sensitivity, now) || crossed == 0 {
            0
        } else {
            1
        }
    }

    /// Progress kept for later: a repeatable action keeps what it did not use, a
    /// one-shot one starts over.
    pub open spec fn left(
        self,
        action: Action,
        magnitude: int,
        sensitivity: ThumbwheelSensitivity,
        now: u64,
    ) -> int {
        let total = self.total(action, magnitude, sensitivity, now);
        let fires = self.fires(action, magnitude, sensitivity, now);
        if repeatable(action) {
            total - fires * sensitivity.threshold
        } else if fires > 0 {
            0
        } else {
            total
        }
    }

    /// The state once a rotation bound to an action is in.
    pub open spec fn acted(
        self,
        action: Action,
        magnitude: int,
        sensitivity: ThumbwheelSensitivity,
        now: u64,
    ) -> WheelState {
        WheelState::Action {
            action,
            sensitivity,
            increments: self.left(action, magnitude, sensitivity, now) as i32,
            last_event: now,
            last_fired: if self.fires(action, magnitude, sensitivity, now) > 0 {
                Some(now)
            } else {
                self.fired(action, sensitivity)
            },
        }
    }

    /// What the rotation produces.
    pub open spec fn output(self, action: Action, magnitude: int, scale: ScrollScale, now: u64) -> WheelOutput {
        if action == Action::Nothing {
            WheelOutput::Idle
        } else if ScrollBinding::of(action) is Some {
            if scale.moves() {
                WheelOutput::Scroll {
                    binding: ScrollBinding::of(action)->0,
                    increments: magnitude as i32,
                    scale,
                }
            } else {
                WheelOutput::Idle
            }
        } else if self.fires(action, magnitude, scale.sensitivity, now) > 0 {
            WheelOutput::FireAction(self.fires(action, magnitude, scale.sensitivity, now) as u32)
        } else {
            WheelOutput::Idle
        }
    }

    /// The state once the rotation is in.
    pub open spec fn after(self, action: Action, magnitude: int, scale: ScrollScale, now: u64) -> WheelState {
        if action == Action::Nothing {
            WheelState::Idle
        } else if ScrollBinding::of(action) is Some {
            WheelState::Scroll(ScrollContext { binding: ScrollBinding::of(action)->0, scale })
        } else {
            self.acted(action, magnitude, scale.sensitivity, now)
        }
    }
}

proof fn lemma_quotient(total: int, threshold: int)
    requires
        total >= 0,
        threshold >= 1,
    ensures
        0 <= total / threshold <= total,
        0 <= (total / threshold) * threshold <= total,
        total < threshold <==> total / threshold == 0,
        forall|n: int| 0 <= n <= total / threshold ==> 0 <= #[trigger] (n * threshold) <= total,
{
    assert(0 <= total / threshold <= total && 0 <= (total / threshold) * threshold <= total) by (
    nonlinear_arith)
        requires
            total >= 0,
            threshold >= 1,
    ;
    assert(total < threshold <==> total / threshold == 0) by (nonlinear_arith)
        requires
            total >= 0,
            threshold >= 1,
    ;
    assert forall|n: int| 0 <= n <= total / threshold implies 0 <= #[trigger] (n * threshold)
        <= total by {
        assert(0 <= n * threshold <= (total / threshold) * threshold) by (nonlinear_arith)
            requires
                0 <= n <= total / threshold,
                threshold >= 1,
        ;
    }
}

/// Running state for one physical rotation direction.
#[derive(Clone, Copy, Debug, PartialEq, Eq, Structural)]
pub struct WheelDirection {
    pub state: WheelState,
}

impl WheelDirection {
    /// Advance this direction for its current effective binding.
    pub fn advance(&mut self, action: &Action, magnitude: i32, scale: ScrollScale, now: u64) -> (output:
        WheelOutput)
        requires
            old(self).state.wf(),
            1 <= magnitude <= 32768,
            scale.sensitivity.wf(),
        ensures
            output == old(self).state.output(*action, magnitude as int, scale, now),
            final(self).state == old(self).state.after(*action, magnitude as int, scale, now),
            final(self).state.wf(),
    {
        if matches!(action, Action::Nothing) {
            self.state = WheelState::Idle;
            return WheelOutput::Idle;
        }
        if let Some(binding) = ScrollBinding::from_action(action) {
            return self.advance_scroll(binding, magnitude, scale);
        }
        self.advance_action(action, magnitude, scale.sensitivity, now)
    }

    /// Emit continuous scroll at once. Only the mode is kept, so that a return to
    /// a discrete action starts fresh.
    fn advance_scroll(&mut self, binding: ScrollBinding, magnitude: i32, scale: ScrollScale) -> (output:
        WheelOutput)
        ensures
            final(self).state == WheelState::Scroll(ScrollContext { binding, scale }),
            output == (if scale.moves() {
                WheelOutput::Scroll { binding, increments: magnitude, scale }
            } else {
                WheelOutput::Idle
            }),
    {
        self.state = WheelState::Scroll(ScrollContext { binding, scale });
        let still: bool = scale.resolution.native == 0 && scale.resolution.diverted != 0;
        if still || scale.sensitivity.percent == 0 {
            WheelOutput::Idle
        } else {
            WheelOutput::Scroll { binding, increments: magnitude, scale }
        }
    }

    /// Accumulate one discrete action. Progress, decay and cooldown all belong to
    /// the exact action and sensitivity that earned them.
    pub fn advance_action(
        &mut self,
        action: &Action,
        magnitude: i32,
        sensitivity: ThumbwheelSensitivity,
        now: u64,
    ) -> (output: WheelOutput)
        requires
            old(self).state.wf(),
            1 <= magnitude <= 32768,
            sensitivity.wf(),
        ensures
            final(self).state == old(self).state.acted(*action, magnitude as int, sensitivity, now),
            final(self).state.wf(),
            output == (if old(self).state.fires(*action, magnitude as int, sensitivity, now) > 0 {
                WheelOutput::FireAction(
                    old(self).state.fires(*action, magnitude as int, sensitivity, now) as u32,
                )
            } else {
                WheelOutput::Idle
            }),
    {
        let ghost before = self.state;
        let (kept, last_event, last_fired): (i32, Option<u64>, Option<u64>) = match self.state {
            WheelState::Action {
                action: own,
                sensitivity: scale,
                increments,
                last_event,
                last_fired,
            } => if own == *action && scale == sensitivity {
                (increments, Some(last_event), last_fired)
            } else {
                (0, None, None)
            },
            _ => (0, None, None),
        };
        let stale: bool = match last_event {
            Some(at) => now.saturating_sub(at) > ACTION_DECAY,
            None => false,
        };
        let mut increments: i32 = if stale { 0 } else { kept };
        assert(increments == before.earned(*action, sensitivity, now));
        let threshold: i32 = sensitivity.action_threshold();
        let repeats: u32;
        if is_repeatable(action) {
            increments = add_capped(increments, magnitude);
            proof {
                lemma_quotient(increments as int, threshold as int);
            }
            let crossed: u32 = (increments as u32) / (threshold as u32);
            repeats = if crossed > MAX_REPEATS_PER_EVENT { MAX_REPEATS_PER_EVENT } else { crossed };
            assert(0 <= repeats * threshold <= increments);
            let used: u32 = repeats * (threshold as u32);
            increments = increments - (used as i32);
        } else {
            let cooling_down: bool = match last_fired {
                Some(at) => now.saturating_sub(at) < ACTION_COOLDOWN,
                None => false,
            };
            if cooling_down {
                repeats = 0;
            } else {
                increments = add_capped(increments, magnitude);
                proof {
                    lemma_quotient(increments as int, threshold as int);
                }
                if increments >= threshold {
                    increments = 0;
                    repeats = 1;
                } else {
                    repeats = 0;
                }
            }
        }
        let last_fired: Option<u64> = if repeats > 0 { Some(now) } else { last_fired };
        self.state = WheelState::Action {
            action: *action,
            sensitivity,
            increments,
            last_event: now,
            last_fired,
        };
        if repeats > 0 {
            WheelOutput::FireAction(repeats)
        } else {
            WheelOutput::Idle
        }
    }
}

/// Per-direction wheel state. Turning the wheel back must not cancel progress
/// already earned in the other direction.
#[derive(Clone, Copy, Debug, PartialEq, Eq, Structural)]
pub struct WheelAccumulators {
    pub up: WheelDirection,
    pub down: WheelDirection,
}

impl Default for WheelAccumulators {
    fn default() -> (wheels: WheelAccumulators)
        ensures
            wheels == (WheelAccumulators {
                up: WheelDirection { state: WheelState::Idle },
                down: WheelDirection { state: WheelState::Idle },
            }),
            wheels.wf(),
    {
        WheelAccumulators {
            up: WheelDirection { state: WheelState::Idle },
            down: WheelDirection { state: WheelState::Idle },
        }
    }
}

impl Value for WheelAccumulators {
    type Model = WheelAccumulators;

    open spec fn model(&self) -> WheelAccumulators {
        *self
    }

    fn same(&self, other: &WheelAccumulators) -> (same: bool) {
        *self == *other
    }

    fn copied(&self) -> (copy: WheelAccumulators) {
        *self
    }
}

impl WheelAccumulators {
    pub open spec fn wf(self) -> bool {
        self.up.state.wf() && self.down.state.wf()
    }

    /// The state of the direction that a rotation turns.
    pub open spec fn of(self, rotation: WheelRotation) -> WheelState {
        match rotation.direction {
            PhysicalDirection::Up => self.up.state,
            PhysicalDirection::Down => self.down.state,
        }
    }

    /// Both directions once the rotation is in.
    pub open spec fn after(
        self,
        rotation: WheelRotation,
        action: Action,
        scale: ScrollScale,
        now: u64,
    ) -> WheelAccumulators {
        let state = self.of(rotation).after(action, rotation.magnitude as int, scale, now);
        match rotation.direction {
            PhysicalDirection::Up => WheelAccumulators { up: WheelDirection { state }, ..self },
            PhysicalDirection::Down => WheelAccumulators { down: WheelDirection { state }, ..self },
        }
    }

    /// Advance the state of `rotation`'s physical direction.
    pub fn advance(
        &mut self,
        rotation: WheelRotation,
        action: &Action,
        scale: ScrollScale,
        now: u64,
    ) -> (output: WheelOutput)
        requires
            old(self).wf(),
            rotation.wf(),
            scale.sensitivity.wf(),
        ensures
            final(self).wf(),
            output == old(self).of(rotation).output(*action, rotation.magnitude as int, scale, now),
            *final(self) == old(self).after(rotation, *action, scale, now),
    {
        match rotation.direction {
            PhysicalDirection::Up => self.up.advance(action, rotation.magnitude, scale, now),
            PhysicalDirection::Down => self.down.advance(action, rotation.magnitude, scale, now),
        }
    }
}

// ── Laws ────────────────────────────────────────────────────────────────────

/// One event fires an action at most [`MAX_REPEATS_PER_EVENT`] times, and one
/// that is not repeatable at most once.
pub proof fn fires_are_bounded(
    state: WheelState,
    action: Action,
    magnitude: int,
    sensitivity: ThumbwheelSensitivity,
    now: u64,
)
    requires
        state.wf(),
        1 <= magnitude <= 32768,
        sensitivity.wf(),
    ensures
        0 <= state.fires(action, magnitude, sensitivity, now) <= MAX_REPEATS_PER_EVENT,
        !repeatable(action) ==> state.fires(action, magnitude, sensitivity, now) <= 1,
{
    lemma_quotient(state.total(action, magnitude, sensitivity, now), sensitivity.threshold as int);
}

/// A one-shot action that just fired does not fire again until the cooldown is
/// over, however far the wheel turns.
pub proof fn a_flick_fires_once(
    state: WheelState,
    action: Action,
    first: int,
    second: int,
    sensitivity: ThumbwheelSensitivity,
    at: u64,
    later: u64,
)
    requires
        state.wf(),
        sensitivity.wf(),
        !repeatable(action),
        state.fires(action, first, sensitivity, at) > 0,
        since(later, at) < ACTION_COOLDOWN,
    ensures
        state.acted(action, first, sensitivity, at).fires(action, second, sensitivity, later) == 0,
{
}

/// Another action, or another sensitivity, starts with no progress and no
/// cooldown.
pub proof fn another_binding_starts_fresh(
    state: WheelState,
    action: Action,
    sensitivity: ThumbwheelSensitivity,
    now: u64,
)
    requires
        !state.is_of(action, sensitivity),
    ensures
        state.earned(action, sensitivity, now) == 0,
        !state.cools(action, sensitivity, now),
{
}

/// Turning one way leaves the other way's state alone.
pub proof fn directions_are_independent(
    wheels: WheelAccumulators,
    rotation: WheelRotation,
    action: Action,
    scale: ScrollScale,
    now: u64,
)
    ensures
        rotation.direction == PhysicalDirection::Up ==> wheels.after(
            rotation,
            action,
            scale,
            now,
        ).down == wheels.down,
        rotation.direction == PhysicalDirection::Down ==> wheels.after(
            rotation,
            action,
            scale,
            now,
        ).up == wheels.up,
{
}

/// A series of reports of one direction: how far the wheel turned, and when.
pub type Reports = Seq<(int, u64)>;

/// Whether the reports are of a device: each turns the wheel, and time does not run
/// backward.
pub open spec fn is_series(reports: Reports) -> bool {
    &&& forall|i: int| 0 <= i < reports.len() ==> 1 <= (#[trigger] reports[i]).0 <= 32768
    &&& forall|i: int, j: int|
        0 <= i <= j < reports.len() ==> (#[trigger] reports[i]).1 <= (#[trigger] reports[j]).1
}

/// The state once a series of reports under one binding is in.
pub open spec fn run(state: WheelState, action: Action, scale: ScrollScale, reports: Reports) -> WheelState
    decreases reports.len(),
{
    if reports.len() == 0 {
        state
    } else {
        run(state, action, scale, reports.drop_last()).after(
            action,
            reports.last().0,
            scale,
            reports.last().1,
        )
    }
}

/// How often an output fires.
pub open spec fn fires_of(output: WheelOutput) -> int {
    match output {
        WheelOutput::FireAction(times) => times as int,
        _ => 0,
    }
}

/// How often one report of a series fires.
pub open spec fn fired_at(
    state: WheelState,
    action: Action,
    scale: ScrollScale,
    reports: Reports,
    i: int,
) -> int {
    fires_of(
        run(state, action, scale, reports.take(i)).output(
            action,
            reports[i].0,
            scale,
            reports[i].1,
        ),
    )
}

/// How often a series of reports fires in all.
pub open spec fn fired_in_all(
    state: WheelState,
    action: Action,
    scale: ScrollScale,
    reports: Reports,
) -> int
    decreases reports.len(),
{
    if reports.len() == 0 {
        0
    } else {
        fired_in_all(state, action, scale, reports.drop_last()) + fired_at(
            state,
            action,
            scale,
            reports,
            reports.len() - 1,
        )
    }
}

/// How far a series of reports turns the wheel.
pub open spec fn travel(reports: Reports) -> int
    decreases reports.len(),
{
    if reports.len() == 0 {
        0
    } else {
        travel(reports.drop_last()) + reports.last().0
    }
}

proof fn lemma_series_prefix(reports: Reports)
    requires
        is_series(reports),
        reports.len() > 0,
    ensures
        is_series(reports.drop_last()),
        reports.take(reports.len() - 1) == reports.drop_last(),
{
    let before = reports.drop_last();
    assert(reports.take(reports.len() - 1) =~= before);
    assert forall|i: int| 0 <= i < before.len() implies 1 <= (#[trigger] before[i]).0 <= 32768 by {
        assert(before[i] == reports[i]);
    }
    assert forall|i: int, j: int| 0 <= i <= j < before.len() implies (#[trigger] before[i]).1 <= (
    #[trigger] before[j]).1 by {
        assert(before[i] == reports[i] && before[j] == reports[j]);
    }
}

/// A volume knob: however a swipe is split into reports, a repeatable action fires
/// once for every threshold of the whole travel, as long as no pause discards
/// progress and no report reaches the cap. What is left over counts toward the next
/// fire.
pub proof fn repeats_follow_the_travel(
    state: WheelState,
    action: Action,
    scale: ScrollScale,
    reports: Reports,
)
    requires
        !state.is_of(action, scale.sensitivity),
        repeatable(action),
        scale.sensitivity.wf(),
        scale.sensitivity.threshold <= i32::MAX - 32768,
        is_series(reports),
        forall|i: int|
            0 < i < reports.len() ==> (#[trigger] reports[i]).1 - reports[i - 1].1 <= ACTION_DECAY,
        forall|i: int|
            0 <= i < reports.len() ==> #[trigger] fired_at(state, action, scale, reports, i)
                < MAX_REPEATS_PER_EVENT,
    ensures
        fired_in_all(state, action, scale, reports) == travel(reports)
            / scale.sensitivity.threshold as int,
        reports.len() > 0 ==> (run(state, action, scale, reports) matches WheelState::Action {
            increments,
            ..
        } && increments == travel(reports) % scale.sensitivity.threshold as int),
{
    let threshold = scale.sensitivity.threshold as int;
    lemma_repeats(state, action, scale, reports);
    let fired = fired_in_all(state, action, scale, reports);
    let rest = travel(reports) - fired * threshold;
    vstd::arithmetic::div_mod::lemma_fundamental_div_mod_converse(
        travel(reports),
        threshold,
        fired,
        rest,
    );
}

/// What a run of a repeatable action leaves: the travel that its fires did not use.
proof fn lemma_repeats(state: WheelState, action: Action, scale: ScrollScale, reports: Reports)
    requires
        !state.is_of(action, scale.sensitivity),
        repeatable(action),
        scale.sensitivity.wf(),
        scale.sensitivity.threshold <= i32::MAX - 32768,
        is_series(reports),
        forall|i: int|
            0 < i < reports.len() ==> (#[trigger] reports[i]).1 - reports[i - 1].1 <= ACTION_DECAY,
        forall|i: int|
            0 <= i < reports.len() ==> #[trigger] fired_at(state, action, scale, reports, i)
                < MAX_REPEATS_PER_EVENT,
    ensures
        ({
            let threshold = scale.sensitivity.threshold as int;
            let left = travel(reports) - fired_in_all(state, action, scale, reports) * threshold;
            &&& 0 <= left < threshold
            &&& reports.len() > 0 ==> {
                let after = run(state, action, scale, reports);
                &&& after.is_of(action, scale.sensitivity)
                &&& after->increments == left
                &&& after->last_event == reports.last().1
            }
        }),
    decreases reports.len(),
{
    let threshold = scale.sensitivity.threshold as int;
    if reports.len() > 0 {
        let before = reports.drop_last();
        let (magnitude, now) = reports.last();
        lemma_series_prefix(reports);
        assert forall|i: int| 0 < i < before.len() implies (#[trigger] before[i]).1 - before[i - 1].1
            <= ACTION_DECAY by {
            assert(reports[i].1 - reports[i - 1].1 <= ACTION_DECAY);
        }
        assert forall|i: int| 0 <= i < before.len() implies #[trigger] fired_at(
            state,
            action,
            scale,
            before,
            i,
        ) < MAX_REPEATS_PER_EVENT by {
            assert(before.take(i) =~= reports.take(i));
            assert(fired_at(state, action, scale, reports, i) < MAX_REPEATS_PER_EVENT);
        }
        lemma_repeats(state, action, scale, before);
        let own = run(state, action, scale, before);
        let fired = fired_in_all(state, action, scale, before);
        let earned = travel(before) - fired * threshold;
        let at = reports.len() - 1;
        assert(fired_at(state, action, scale, reports, at) < MAX_REPEATS_PER_EVENT);
        assert(reports[at] == reports.last());
        if before.len() > 0 {
            assert(reports[at].1 - reports[at - 1].1 <= ACTION_DECAY);
            assert(before.last() == reports[at - 1]);
            assert(reports[at - 1].1 <= reports[at].1);
        } else {
            assert(fired * threshold == 0) by (nonlinear_arith)
                requires
                    fired == 0,
            ;
        }
        assert(own.earned(action, scale.sensitivity, now) == earned);
        let total = earned + magnitude;
        assert(own.total(action, magnitude, scale.sensitivity, now) == total);
        lemma_quotient(total, threshold);
        let crossed = total / threshold;
        let now_fired = own.fires(action, magnitude, scale.sensitivity, now);
        assert(fired_at(state, action, scale, reports, at) == now_fired);
        assert(now_fired == crossed);
        vstd::arithmetic::div_mod::lemma_fundamental_div_mod(total, threshold);
        assert(0 <= total % threshold < threshold) by (nonlinear_arith)
            requires
                threshold >= 1,
        ;
        assert(total - crossed * threshold == total % threshold) by (nonlinear_arith)
            requires
                total == threshold * (total / threshold) + total % threshold,
                crossed == total / threshold,
        ;
        assert((fired + crossed) * threshold == fired * threshold + crossed * threshold)
            by (nonlinear_arith);
    } else {
        assert(0 * threshold == 0);
    }
}

/// Whether an action fires at most once however far the wheel turns at once.
pub open spec fn one_shot(action: Action) -> bool {
    action != Action::Nothing && ScrollBinding::of(action) is None && !repeatable(action)
}

/// Whether a report comes too soon after one that fired.
pub open spec fn is_cooling(
    state: WheelState,
    action: Action,
    scale: ScrollScale,
    reports: Reports,
    i: int,
) -> bool {
    exists|j: int|
        0 <= j < i && #[trigger] fired_at(state, action, scale, reports, j) > 0 && reports[i].1
            - reports[j].1 < ACTION_COOLDOWN
}

/// The travel that counts at a report: its own and that of the reports before it,
/// back to the last fire or the last pause that was too long, without those that came
/// too soon after a fire.
pub open spec fn counted(
    state: WheelState,
    action: Action,
    scale: ScrollScale,
    reports: Reports,
    i: int,
) -> int
    decreases i,
{
    let before = if i <= 0 || fired_at(state, action, scale, reports, i - 1) > 0 || reports[i].1
        - reports[i - 1].1 > ACTION_DECAY {
        0
    } else {
        counted(state, action, scale, reports, i - 1)
    };
    if is_cooling(state, action, scale, reports, i) {
        before
    } else {
        before + reports[i].0
    }
}

/// A report fires a one-shot action exactly where the travel that counts reaches the
/// threshold and no fire is too recent, and then once.
pub proof fn one_shot_fires_on_counted_travel(
    state: WheelState,
    action: Action,
    scale: ScrollScale,
    reports: Reports,
    i: int,
)
    requires
        !state.is_of(action, scale.sensitivity),
        one_shot(action),
        scale.sensitivity.wf(),
        is_series(reports),
        0 <= i < reports.len(),
    ensures
        fired_at(state, action, scale, reports, i) == (if !is_cooling(
            state,
            action,
            scale,
            reports,
            i,
        ) && counted(state, action, scale, reports, i) >= scale.sensitivity.threshold {
            1int
        } else {
            0int
        }),
{
    lemma_one_shot(state, action, scale, reports, i);
}

/// Two fires of a one-shot action are at least the cooldown apart, however far the
/// wheel turns between them.
pub proof fn one_shot_fires_keep_their_distance(
    state: WheelState,
    action: Action,
    scale: ScrollScale,
    reports: Reports,
    first: int,
    second: int,
)
    requires
        !state.is_of(action, scale.sensitivity),
        one_shot(action),
        scale.sensitivity.wf(),
        is_series(reports),
        0 <= first < second < reports.len(),
        fired_at(state, action, scale, reports, first) > 0,
        fired_at(state, action, scale, reports, second) > 0,
    ensures
        fired_at(state, action, scale, reports, first) == 1,
        fired_at(state, action, scale, reports, second) == 1,
        reports[second].1 - reports[first].1 >= ACTION_COOLDOWN,
        counted(state, action, scale, reports, second) >= scale.sensitivity.threshold,
{
    one_shot_fires_on_counted_travel(state, action, scale, reports, first);
    one_shot_fires_on_counted_travel(state, action, scale, reports, second);
}

/// When a series last fired before a report.
spec fn is_last_fire(
    state: WheelState,
    action: Action,
    scale: ScrollScale,
    reports: Reports,
    i: int,
    last: Option<u64>,
) -> bool {
    match last {
        Some(at) => {
            &&& exists|j: int|
                0 <= j < i && #[trigger] fired_at(state, action, scale, reports, j) > 0
                    && reports[j].1 == at
            &&& forall|j: int|
                0 <= j < i && #[trigger] fired_at(state, action, scale, reports, j) > 0
                    ==> reports[j].1 <= at
        },
        None => forall|j: int|
            0 <= j < i ==> #[trigger] fired_at(state, action, scale, reports, j) <= 0,
    }
}

/// What a run of a one-shot action keeps before a report, and what the report does.
proof fn lemma_one_shot(
    state: WheelState,
    action: Action,
    scale: ScrollScale,
    reports: Reports,
    i: int,
)
    requires
        !state.is_of(action, scale.sensitivity),
        one_shot(action),
        scale.sensitivity.wf(),
        is_series(reports),
        0 <= i < reports.len(),
    ensures
        ({
            let fires = !is_cooling(state, action, scale, reports, i) && counted(
                state,
                action,
                scale,
                reports,
                i,
            ) >= scale.sensitivity.threshold;
            let after = run(state, action, scale, reports.take(i + 1));
            &&& fired_at(state, action, scale, reports, i) == (if fires {
                1int
            } else {
                0int
            })
            &&& after.is_of(action, scale.sensitivity)
            &&& after->last_event == reports[i].1
            &&& after->increments == (if fires {
                0int
            } else {
                counted(state, action, scale, reports, i)
            })
            &&& 0 <= after->increments < scale.sensitivity.threshold
            &&& is_last_fire(state, action, scale, reports, i + 1, after->last_fired)
        }),
    decreases i,
{
    let (magnitude, now) = reports[i];
    let own = run(state, action, scale, reports.take(i));
    let threshold = scale.sensitivity.threshold as int;
    let longer = reports.take(i + 1);
    assert(longer.drop_last() =~= reports.take(i));
    assert(longer.last() == reports[i]);
    let last = own.fired(action, scale.sensitivity);
    if i > 0 {
        lemma_one_shot(state, action, scale, reports, i - 1);
        assert(reports[i - 1].1 <= reports[i].1);
    } else {
        assert(reports.take(0) =~= Seq::<(int, u64)>::empty());
    }
    assert(is_last_fire(state, action, scale, reports, i, last));
    assert(own.cools(action, scale.sensitivity, now) == is_cooling(state, action, scale, reports, i))
        by {
        if let Some(at) = last {
            let j = choose|j: int|
                0 <= j < i && #[trigger] fired_at(state, action, scale, reports, j) > 0
                    && reports[j].1 == at;
            assert(reports[j].1 <= reports[i].1);
            if is_cooling(state, action, scale, reports, i) {
                let k = choose|k: int|
                    0 <= k < i && #[trigger] fired_at(state, action, scale, reports, k) > 0
                        && reports[i].1 - reports[k].1 < ACTION_COOLDOWN;
                assert(reports[k].1 <= at);
            }
        }
    }
    let cooling = is_cooling(state, action, scale, reports, i);
    let before = own.earned(action, scale.sensitivity, now);
    let total = own.total(action, magnitude, scale.sensitivity, now);
    let all = counted(state, action, scale, reports, i);
    assert(0 <= before < threshold);
    assert(all == (if cooling { before } else { before + magnitude }));
    assert(total == capped(all));
    lemma_quotient(total, threshold);
    let fires = own.fires(action, magnitude, scale.sensitivity, now);
    assert(fires == (if !cooling && all >= threshold { 1int } else { 0int }));
    assert(fired_at(state, action, scale, reports, i) == fires);
    let after = run(state, action, scale, longer);
    assert(after == own.acted(action, magnitude, scale.sensitivity, now));
    assert(is_last_fire(state, action, scale, reports, i + 1, after->last_fired)) by {
        if fires > 0 {
            assert forall|j: int|
                0 <= j < i + 1 && #[trigger] fired_at(state, action, scale, reports, j) > 0 implies
                reports[j].1 <= now by {
                assert(reports[j].1 <= reports[i].1);
            }
        } else if let Some(at) = last {
            let j = choose|j: int|
                0 <= j < i && #[trigger] fired_at(state, action, scale, reports, j) > 0
                    && reports[j].1 == at;
            assert(fired_at(state, action, scale, reports, j) > 0);
        }
    }
}

/// The four scroll actions scroll along the axis and in the sense that they name, by as
/// many increments as the wheel turned, whichever way it turned. On a scale that does
/// not move they come to nothing, and so does no action.
pub proof fn scroll_actions_scroll_as_they_name(
    wheels: WheelAccumulators,
    rotation: WheelRotation,
    scale: ScrollScale,
    now: u64,
)
    ensures
        ({
            let magnitude = rotation.magnitude as int;
            let state = wheels.of(rotation);
            let increments = rotation.magnitude;
            let moves = scale.sensitivity.percent != 0 && (scale.resolution.native != 0
                || scale.resolution.diverted == 0);
            &&& moves ==> {
                &&& state.output(Action::HorizontalScrollRight, magnitude, scale, now) == (
                WheelOutput::Scroll { binding: ScrollBinding::Right, increments, scale })
                &&& state.output(Action::HorizontalScrollLeft, magnitude, scale, now) == (
                WheelOutput::Scroll { binding: ScrollBinding::Left, increments, scale })
                &&& state.output(Action::ScrollUp, magnitude, scale, now) == (
                WheelOutput::Scroll { binding: ScrollBinding::Up, increments, scale })
                &&& state.output(Action::ScrollDown, magnitude, scale, now) == (
                WheelOutput::Scroll { binding: ScrollBinding::Down, increments, scale })
            }
            &&& !moves ==> {
                &&& state.output(Action::HorizontalScrollRight, magnitude, scale, now)
                    == WheelOutput::Idle
                &&& state.output(Action::HorizontalScrollLeft, magnitude, scale, now)
                    == WheelOutput::Idle
                &&& state.output(Action::ScrollUp, magnitude, scale, now) == WheelOutput::Idle
                &&& state.output(Action::ScrollDown, magnitude, scale, now) == WheelOutput::Idle
            }
            &&& state.output(Action::Nothing, magnitude, scale, now) == WheelOutput::Idle
        }),
{
}

/// Two different scroll actions never scroll the same way, and an action that does not
/// scroll never comes out as scrolling.
pub proof fn scroll_directions_are_distinct(
    state: WheelState,
    a: Action,
    b: Action,
    magnitude: int,
    scale: ScrollScale,
    now: u64,
)
    requires
        a != b,
        state.output(a, magnitude, scale, now) is Scroll,
        state.output(b, magnitude, scale, now) is Scroll,
    ensures
        state.output(a, magnitude, scale, now)->binding != state.output(
            b,
            magnitude,
            scale,
            now,
        )->binding,
        a == Action::ScrollUp || a == Action::ScrollDown || a == Action::HorizontalScrollRight || a
            == Action::HorizontalScrollLeft,
{
}

/// Every rotation turns the state of its own direction, and each direction has its own
/// binding key.
pub proof fn rotations_turn_their_own_direction(
    wheels: WheelAccumulators,
    magnitude: i32,
    action: Action,
    scale: ScrollScale,
    now: u64,
)
    ensures
        ({
            let up = WheelRotation { direction: PhysicalDirection::Up, magnitude };
            let down = WheelRotation { direction: PhysicalDirection::Down, magnitude };
            &&& up.key() == ButtonId::ThumbwheelScrollUp
            &&& down.key() == ButtonId::ThumbwheelScrollDown
            &&& wheels.of(up) == wheels.up.state
            &&& wheels.of(down) == wheels.down.state
            &&& wheels.after(up, action, scale, now).up.state == wheels.up.state.after(
                action,
                magnitude as int,
                scale,
                now,
            )
            &&& wheels.after(down, action, scale, now).down.state == wheels.down.state.after(
                action,
                magnitude as int,
                scale,
                now,
            )
        }),
{
}

/// Only the two volume actions repeat within one event.
pub proof fn only_volume_repeats(action: Action)
    ensures
        repeatable(action) <==> action == Action::VolumeUp || action == Action::VolumeDown,
{
}

/// Scrolling, and no action at all, discard what a discrete action had earned and
/// whether it had just fired: coming back to it starts fresh.
pub proof fn scrolling_discards_progress(
    state: WheelState,
    between: Action,
    action: Action,
    first: int,
    scale: ScrollScale,
    at: u64,
    now: u64,
)
    requires
        between == Action::Nothing || between == Action::ScrollUp || between == Action::ScrollDown
            || between == Action::HorizontalScrollRight || between == Action::HorizontalScrollLeft,
    ensures
        state.after(between, first, scale, at).earned(action, scale.sensitivity, now) == 0,
        !state.after(between, first, scale, at).cools(action, scale.sensitivity, now),
{
}

/// Progress short of a fire is kept for three hundred milliseconds and then forgotten,
/// and counts only toward the action and the sensitivity that earned it.
pub proof fn progress_is_kept_for_its_binding(
    state: WheelState,
    action: Action,
    magnitude: int,
    scale: ScrollScale,
    at: u64,
    now: u64,
    other: Action,
    other_sensitivity: ThumbwheelSensitivity,
)
    requires
        !state.is_of(action, scale.sensitivity),
        1 <= magnitude <= 32768,
        magnitude < scale.sensitivity.threshold,
        at <= now,
        action != Action::Nothing && action != Action::ScrollUp && action != Action::ScrollDown
            && action != Action::HorizontalScrollRight && action != Action::HorizontalScrollLeft,
    ensures
        ({
            let after = state.after(action, magnitude, scale, at);
            &&& state.output(action, magnitude, scale, at) == WheelOutput::Idle
            &&& now - at <= 300 ==> after.earned(action, scale.sensitivity, now) == magnitude
            &&& now - at > 300 ==> after.earned(action, scale.sensitivity, now) == 0
            &&& other != action || other_sensitivity != scale.sensitivity ==> after.earned(
                other,
                other_sensitivity,
                now,
            ) == 0
        }),
{
    lemma_quotient(magnitude, scale.sensitivity.threshold as int);
}

/// A one-shot action cools down for two hundred milliseconds after it fired; from then
/// on a turn past the threshold fires it again.
pub proof fn one_shots_cool_down(
    state: WheelState,
    action: Action,
    magnitude: int,
    sensitivity: ThumbwheelSensitivity,
    at: u64,
    now: u64,
)
    requires
        sensitivity.wf(),
        state.wf(),
        action != Action::VolumeUp && action != Action::VolumeDown,
        state.fires(action, magnitude, sensitivity, at) > 0,
        sensitivity.threshold <= magnitude <= 32768,
        at <= now,
    ensures
        state.acted(action, magnitude, sensitivity, at).fires(action, magnitude, sensitivity, now)
            == (if now - at < 200 {
            0int
        } else {
            1int
        }),
{
    let after = state.acted(action, magnitude, sensitivity, at);
    lemma_quotient(after.total(action, magnitude, sensitivity, now), sensitivity.threshold as int);
}

/// Time since an instant is the difference, and none to one that lies ahead.
pub proof fn time_runs_forward(now: u64, at: u64)
    ensures
        now >= at ==> since(now, at) == now - at,
        now < at ==> since(now, at) == 0,
{
}

/// Progress counts on up to the counter's end and stays there.
pub proof fn progress_has_an_end(value: int)
    ensures
        value <= 0x7fff_ffff ==> capped(value) == value,
        value > 0x7fff_ffff ==> capped(value) == 0x7fff_ffff,
{
}

} // verus!
