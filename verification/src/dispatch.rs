//! Resolve captured inputs against the plan of the device they came from.
use vstd::prelude::*;

use crate::binding::{Action, Binding, ButtonId, GestureDirection, ThumbwheelSensitivity,
    default_binding, wheel_default};
use crate::capture_plan::{DispatchModel, DispatchPlan};
use crate::route::HidppSessionId;
use crate::spaces::{ActiveSpaceTransition, InteractiveSpacePhase, InteractiveSpaceTransitions,
    SpaceKey, SpaceSwipeFrame, cancelled, is_space_source, opening, others,
    without_session};
use crate::value::{Assoc, Value, lemma_lookup_absent, lemma_lookup_remove, lookup};
use crate::wheel::{ScrollBinding, ScrollScale, WheelAccumulators, WheelDirection, WheelOutput,
    WheelResolution, WheelRotation, WheelState};

verus! {

/// One input that a capture session reported.
#[derive(Clone, Copy, Debug, PartialEq, Eq, Structural)]
pub enum CapturedInput {
    /// A gesture was resolved.
    Gesture(ButtonId, GestureDirection),
    /// A control that is held with its motion diverted moved.
    GestureMotion { button: ButtonId, delta_x: i32, delta_y: i32 },
    ButtonDown(ButtonId),
    ButtonUp(ButtonId),
    /// A press and a release in one.
    ButtonPulse(ButtonId),
    /// The thumb wheel turned.
    Scroll { increments: i16, resolution: WheelResolution },
    /// The device said which way its thumb wheel counts.
    ThumbwheelDirection { positive_is_forward: bool },
}

/// What an input asks of the outputs.
#[derive(Clone, Copy, Debug, PartialEq, Eq, Structural)]
pub enum DispatchOutput {
    Nothing,
    /// Note which way the device's thumb wheel counts.
    RecordPolarity { positive_is_forward: bool },
    /// Begin a press. Where `followed`, the press is reported back by
    /// [`InputDispatcher::pressed`].
    ButtonDown { button: ButtonId, binding: Option<Binding>, followed: bool },
    /// End a press.
    ButtonUp { button: ButtonId },
    ButtonPulse { button: ButtonId, binding: Option<Binding> },
    /// Scroll by so many increments of a scale.
    Scroll { axis: ScrollBinding, increments: i32, scale: ScrollScale },
    /// Perform the action so many times.
    Fire { action: Action, times: u32 },
    /// Perform the action if the press is still active.
    FireWhilePressed { press: u64, action: Action },
}

/// What an input comes to: a frame of a Space transition, and an output.
#[derive(Clone, Copy, Debug, PartialEq, Eq, Structural)]
pub struct Dispatched {
    pub frame: Option<SpaceSwipeFrame>,
    pub output: DispatchOutput,
}

/// The thumb wheel's configuration under one plan.
#[derive(Clone, Copy, Debug, PartialEq, Eq, Structural)]
pub struct WheelConfiguration {
    pub up: Action,
    pub down: Action,
    pub sensitivity: ThumbwheelSensitivity,
}

/// What a plan does for one direction of the wheel.
pub open spec fn wheel_action(plan: DispatchModel, button: ButtonId) -> Action {
    if plan.bindings.dom().contains(button) {
        plan.bindings[button].on_click()
    } else {
        wheel_default(button)
    }
}

fn direction_action(plan: &DispatchPlan, button: ButtonId) -> (action: Action)
    ensures
        action == wheel_action(plan.model(), button),
{
    match plan.bindings.get(&button) {
        Some(binding) => binding.click_action(),
        None => default_binding(button),
    }
}

impl WheelConfiguration {
    pub open spec fn of(plan: DispatchModel) -> WheelConfiguration {
        WheelConfiguration {
            up: wheel_action(plan, ButtonId::ThumbwheelScrollUp),
            down: wheel_action(plan, ButtonId::ThumbwheelScrollDown),
            sensitivity: plan.thumbwheel_sensitivity,
        }
    }

    /// Resolve both directions' bindings and their shared sensitivity.
    pub fn for_plan(plan: &DispatchPlan) -> (configuration: WheelConfiguration)
        ensures
            configuration == WheelConfiguration::of(plan.model()),
    {
        WheelConfiguration {
            up: direction_action(plan, ButtonId::ThumbwheelScrollUp),
            down: direction_action(plan, ButtonId::ThumbwheelScrollDown),
            sensitivity: plan.thumbwheel_sensitivity,
        }
    }

    /// The action of the direction in which the wheel turned.
    pub open spec fn bound_to(self, rotation: WheelRotation) -> Action {
        if rotation.key() == ButtonId::ThumbwheelScrollUp {
            self.up
        } else {
            self.down
        }
    }

    pub fn action(&self, rotation: WheelRotation) -> (action: Action)
        ensures
            action == self.bound_to(rotation),
    {
        match rotation.button() {
            ButtonId::ThumbwheelScrollUp => self.up,
            _ => self.down,
        }
    }
}

/// The presses of gesture controls that are under way, by session and button.
/// Whether a press is still active is for the outputs to say.
#[derive(Debug)]
pub struct GesturePresses {
    pub tokens: Assoc<(HidppSessionId, ButtonId), u64>,
}

impl View for GesturePresses {
    type V = Map<SpaceKey, u64>;

    open spec fn view(&self) -> Map<SpaceKey, u64> {
        self.tokens@
    }
}

impl GesturePresses {
    pub fn new() -> (presses: GesturePresses)
        ensures
            presses@ == Map::<SpaceKey, u64>::empty(),
    {
        GesturePresses { tokens: Assoc::new() }
    }

    pub fn start(&mut self, session: &HidppSessionId, button: ButtonId, press: u64)
        ensures
            final(self)@ == old(self)@.insert((session.model(), button), press),
    {
        self.tokens.insert((session.copied(), button), press);
    }

    pub fn get(&self, session: &HidppSessionId, button: ButtonId) -> (press: Option<u64>)
        ensures
            press == (if self@.dom().contains((session.model(), button)) {
                Some(self@[(session.model(), button)])
            } else {
                None
            }),
    {
        match self.tokens.get(&(session.copied(), button)) {
            Some(press) => Some(*press),
            None => None,
        }
    }

    pub fn end(&mut self, session: &HidppSessionId, button: ButtonId)
        ensures
            final(self)@ == old(self)@.remove((session.model(), button)),
    {
        let _ = self.tokens.remove(&(session.copied(), button));
    }

    /// Forget every press of a session, and no other.
    pub fn cancel_session(&mut self, session: &HidppSessionId)
        ensures
            final(self)@ == without_session(old(self)@, session.model()),
    {
        let ghost all = self.tokens.entries@;
        let mut i: usize = 0;
        while i < self.tokens.entries.len()
            invariant
                i <= self.tokens.entries@.len(),
                forall|j: int|
                    0 <= j < i ==> (#[trigger] self.tokens.entries@[j]).0.0.model()
                        != session.model(),
                forall|key: SpaceKey|
                    key.0 != session.model() ==> #[trigger] lookup(self.tokens.entries@, key)
                        == lookup(all, key),
            decreases self.tokens.entries@.len() - i,
        {
            if self.tokens.entries[i].0.0.same(session) {
                proof {
                    let before = self.tokens.entries@;
                    assert forall|key: SpaceKey| key.0 != session.model() implies #[trigger] lookup(
                        before.remove(i as int),
                        key,
                    ) == lookup(all, key) by {
                        lemma_lookup_remove(before, i as int, key);
                    }
                }
                let _ = self.tokens.entries.remove(i);
            } else {
                i = i + 1;
            }
        }
        proof {
            let after = without_session(old(self)@, session.model());
            assert forall|key: SpaceKey| #[trigger] self@.dom().contains(key)
                <==> after.dom().contains(key) by {
                if key.0 == session.model() {
                    lemma_lookup_absent(self.tokens.entries@, key);
                }
            }
            assert(self@ =~= after);
        }
    }
}

/// The state of the thumb wheels, by session. A replacement session inherits
/// nothing, and a stale completion takes nothing from it.
#[derive(Debug)]
pub struct SessionWheels {
    pub by_session: Assoc<HidppSessionId, WheelAccumulators>,
}

impl View for SessionWheels {
    type V = Map<(Seq<char>, u64), WheelAccumulators>;

    open spec fn view(&self) -> Map<(Seq<char>, u64), WheelAccumulators> {
        self.by_session@
    }
}

/// A wheel that has not turned.
pub open spec fn fresh_wheels() -> WheelAccumulators {
    WheelAccumulators {
        up: WheelDirection { state: WheelState::Idle },
        down: WheelDirection { state: WheelState::Idle },
    }
}

/// A session's wheel.
pub open spec fn wheels_of(
    wheels: Map<(Seq<char>, u64), WheelAccumulators>,
    session: (Seq<char>, u64),
) -> WheelAccumulators {
    if wheels.dom().contains(session) {
        wheels[session]
    } else {
        fresh_wheels()
    }
}

impl SessionWheels {
    pub open spec fn wf(self) -> bool {
        forall|session: (Seq<char>, u64)| #[trigger]
            self@.dom().contains(session) ==> self@[session].wf()
    }

    pub fn new() -> (wheels: SessionWheels)
        ensures
            wheels@ == Map::<(Seq<char>, u64), WheelAccumulators>::empty(),
            wheels.wf(),
    {
        SessionWheels { by_session: Assoc::new() }
    }

    /// Advance a session's wheel.
    pub fn advance(
        &mut self,
        session: &HidppSessionId,
        rotation: WheelRotation,
        action: &Action,
        scale: ScrollScale,
        now: u64,
    ) -> (output: WheelOutput)
        requires
            old(self).wf(),
            rotation.wf(),
            scale.sensitivity.wf(),
        ensures
            final(self).wf(),
            output == wheels_of(old(self)@, session.model()).of(rotation).output(
                *action,
                rotation.magnitude as int,
                scale,
                now,
            ),
            final(self)@ == old(self)@.insert(
                session.model(),
                wheels_of(old(self)@, session.model()).after(rotation, *action, scale, now),
            ),
    {
        let mut wheels: WheelAccumulators = match self.by_session.get(session) {
            Some(wheels) => *wheels,
            None => WheelAccumulators {
                up: WheelDirection { state: WheelState::Idle },
                down: WheelDirection { state: WheelState::Idle },
            },
        };
        assert(wheels == wheels_of(self@, session.model()));
        assert(wheels.wf());
        let output: WheelOutput = wheels.advance(rotation, action, scale, now);
        self.by_session.insert(session.copied(), wheels);
        output
    }

    pub fn contains(&self, session: &HidppSessionId) -> (found: bool)
        ensures
            found == self@.dom().contains(session.model()),
    {
        self.by_session.contains(session)
    }

    pub fn cancel_session(&mut self, session: &HidppSessionId)
        ensures
            final(self)@ == old(self)@.remove(session.model()),
            old(self).wf() ==> final(self).wf(),
    {
        let _ = self.by_session.remove(session);
        proof {
            if old(self).wf() {
                assert forall|other: (Seq<char>, u64)| #[trigger]
                    self@.dom().contains(other) implies self@[other].wf() by {
                    assert(old(self)@.dom().contains(other));
                }
            }
        }
    }
}

/// What an [`InputDispatcher`] holds.
pub struct DispatcherModel {
    pub wheels: Map<(Seq<char>, u64), WheelAccumulators>,
    pub presses: Map<SpaceKey, u64>,
    pub spaces: Map<SpaceKey, ActiveSpaceTransition>,
}

/// The action that a plan binds to a gesture. A button's own map comes before its
/// side-button map.
pub open spec fn gesture_action(
    plan: DispatchModel,
    button: ButtonId,
    direction: GestureDirection,
) -> Option<Action> {
    if plan.gesture_bindings.dom().contains(button) {
        if plan.gesture_bindings[button].dom().contains(direction) {
            Some(plan.gesture_bindings[button][direction])
        } else {
            None
        }
    } else if plan.side_gesture_bindings.dom().contains(button)
        && plan.side_gesture_bindings[button].dom().contains(direction) {
        Some(plan.side_gesture_bindings[button][direction])
    } else {
        None
    }
}

/// What a plan binds to a button.
pub open spec fn binding_of(plan: DispatchModel, button: ButtonId) -> Option<Binding> {
    if plan.bindings.dom().contains(button) {
        Some(plan.bindings[button])
    } else {
        None
    }
}

impl DispatcherModel {
    /// Without anything of a session.
    pub open spec fn forgets(self, session: (Seq<char>, u64)) -> DispatcherModel {
        DispatcherModel {
            wheels: self.wheels.remove(session),
            presses: without_session(self.presses, session),
            spaces: without_session(self.spaces, session),
        }
    }

    /// The press of a gesture control.
    pub open spec fn press(self, session: (Seq<char>, u64), button: ButtonId) -> Option<u64> {
        if self.presses.dom().contains((session, button)) {
            Some(self.presses[(session, button)])
        } else {
            None
        }
    }

    /// The Space transition that a resolved gesture opens.
    pub open spec fn space_opened(
        self,
        session: (Seq<char>, u64),
        plan: DispatchModel,
        button: ButtonId,
        direction: GestureDirection,
        spaces_supported: bool,
    ) -> Option<ActiveSpaceTransition> {
        if self.press(session, button) is Some && spaces_supported && gesture_action(
            plan,
            button,
            direction,
        ) is Some {
            opening(direction, gesture_action(plan, button, direction)->0)
        } else {
            None
        }
    }

    /// What is held once an input is in.
    pub open spec fn after(
        self,
        session: (Seq<char>, u64),
        plan: DispatchModel,
        input: CapturedInput,
        spaces_supported: bool,
        now: u64,
    ) -> DispatcherModel {
        match input {
            CapturedInput::Gesture(button, direction) => match self.space_opened(
                session,
                plan,
                button,
                direction,
                spaces_supported,
            ) {
                Some(transition) => DispatcherModel {
                    spaces: self.spaces.insert((session, button), transition),
                    ..self
                },
                None => self,
            },
            CapturedInput::GestureMotion { button, delta_x, .. } => if self.spaces.dom().contains(
                (session, button),
            ) {
                DispatcherModel {
                    spaces: self.spaces.insert(
                        (session, button),
                        self.spaces[(session, button)].moved(delta_x),
                    ),
                    ..self
                }
            } else {
                self
            },
            CapturedInput::ButtonUp(button) => DispatcherModel {
                presses: self.presses.remove((session, button)),
                spaces: self.spaces.remove((session, button)),
                ..self
            },
            CapturedInput::Scroll { increments, resolution } => {
                let rotation = rotation_of(increments);
                if rotation is None {
                    self
                } else {
                    let configuration = WheelConfiguration::of(plan);
                    DispatcherModel {
                        wheels: self.wheels.insert(
                            session,
                            wheels_of(self.wheels, session).after(
                                rotation->0,
                                configuration.bound_to(rotation->0),
                                ScrollScale { resolution, sensitivity: configuration.sensitivity },
                                now,
                            ),
                        ),
                        ..self
                    }
                }
            },
            _ => self,
        }
    }

    /// What an input comes to.
    pub open spec fn dispatched(
        self,
        session: (Seq<char>, u64),
        plan: DispatchModel,
        input: CapturedInput,
        spaces_supported: bool,
        now: u64,
    ) -> Dispatched {
        match input {
            CapturedInput::Gesture(button, direction) => Dispatched {
                frame: None,
                output: if self.press(session, button) is Some && gesture_action(
                    plan,
                    button,
                    direction,
                ) is Some && self.space_opened(
                    session,
                    plan,
                    button,
                    direction,
                    spaces_supported,
                ) is None {
                    DispatchOutput::FireWhilePressed {
                        press: self.press(session, button)->0,
                        action: gesture_action(plan, button, direction)->0,
                    }
                } else {
                    DispatchOutput::Nothing
                },
            },
            CapturedInput::GestureMotion { button, delta_x, .. } => Dispatched {
                frame: if self.spaces.dom().contains((session, button)) {
                    Some(
                        SpaceSwipeFrame {
                            progress_x: self.spaces[(session, button)].moved(delta_x).progress_x,
                            phase: if self.spaces[(session, button)].began {
                                InteractiveSpacePhase::Changed
                            } else {
                                InteractiveSpacePhase::Began
                            },
                        },
                    )
                } else {
                    None
                },
                output: DispatchOutput::Nothing,
            },
            CapturedInput::ButtonDown(button) => Dispatched {
                frame: None,
                output: DispatchOutput::ButtonDown {
                    button,
                    binding: if is_space_source(plan, button) {
                        None
                    } else {
                        binding_of(plan, button)
                    },
                    followed: is_space_source(plan, button),
                },
            },
            CapturedInput::ButtonUp(button) => Dispatched {
                frame: if self.spaces.dom().contains((session, button)) {
                    Some(
                        SpaceSwipeFrame {
                            progress_x: self.spaces[(session, button)].progress_x,
                            phase: InteractiveSpacePhase::Ended,
                        },
                    )
                } else {
                    None
                },
                output: DispatchOutput::ButtonUp { button },
            },
            CapturedInput::ButtonPulse(button) => Dispatched {
                frame: None,
                output: DispatchOutput::ButtonPulse { button, binding: binding_of(plan, button) },
            },
            CapturedInput::Scroll { increments, resolution } => Dispatched {
                frame: None,
                output: {
                    let rotation = rotation_of(increments);
                    if rotation is None {
                        DispatchOutput::Nothing
                    } else {
                        let configuration = WheelConfiguration::of(plan);
                        let action = configuration.bound_to(rotation->0);
                        wheel_output(
                            wheels_of(self.wheels, session).of(rotation->0).output(
                                action,
                                rotation->0.magnitude as int,
                                ScrollScale { resolution, sensitivity: configuration.sensitivity },
                                now,
                            ),
                            action,
                        )
                    }
                },
            },
            CapturedInput::ThumbwheelDirection { positive_is_forward } => Dispatched {
                frame: None,
                output: DispatchOutput::RecordPolarity { positive_is_forward },
            },
        }
    }
}

/// The rotation of an increment count.
pub open spec fn rotation_of(increments: i16) -> Option<WheelRotation> {
    if increments == 0 {
        None
    } else {
        Some(
            WheelRotation {
                direction: if increments > 0 {
                    crate::wheel::PhysicalDirection::Up
                } else {
                    crate::wheel::PhysicalDirection::Down
                },
                magnitude: if increments > 0 {
                    increments as i32
                } else {
                    (-increments) as i32
                },
            },
        )
    }
}

/// What the wheel's output asks for.
pub open spec fn wheel_output(output: WheelOutput, action: Action) -> DispatchOutput {
    match output {
        WheelOutput::Idle => DispatchOutput::Nothing,
        WheelOutput::Scroll { binding, increments, scale } => DispatchOutput::Scroll {
            axis: binding,
            increments,
            scale,
        },
        WheelOutput::FireAction(times) => DispatchOutput::Fire { action, times },
    }
}

/// Input routing, and the per-session state kept between inputs.
#[derive(Debug)]
pub struct InputDispatcher {
    pub wheels: SessionWheels,
    pub gesture_presses: GesturePresses,
    pub space_transitions: InteractiveSpaceTransitions,
}

impl View for InputDispatcher {
    type V = DispatcherModel;

    open spec fn view(&self) -> DispatcherModel {
        DispatcherModel {
            wheels: self.wheels@,
            presses: self.gesture_presses@,
            spaces: self.space_transitions@,
        }
    }
}

impl InputDispatcher {
    pub open spec fn wf(self) -> bool {
        self.wheels.wf()
    }

    pub fn new() -> (dispatcher: InputDispatcher)
        ensures
            dispatcher.wf(),
            dispatcher@ == (DispatcherModel {
                wheels: Map::empty(),
                presses: Map::empty(),
                spaces: Map::empty(),
            }),
    {
        InputDispatcher {
            wheels: SessionWheels::new(),
            gesture_presses: GesturePresses::new(),
            space_transitions: InteractiveSpaceTransitions { active: Assoc::new() },
        }
    }

    /// Cancel everything kept for one capture session. The frames that close its
    /// Space transitions come back.
    pub fn cancel_session(&mut self, session: &HidppSessionId) -> (frames: Vec<SpaceSwipeFrame>)
        ensures
            final(self)@ == old(self)@.forgets(session.model()),
            frames@ == cancelled(
                old(self).space_transitions.active.entries@,
                session.model(),
            ),
            final(self).space_transitions.active.entries@ == others(
                old(self).space_transitions.active.entries@,
                session.model(),
            ),
            old(self).wf() ==> final(self).wf(),
    {
        let frames: Vec<SpaceSwipeFrame> = self.space_transitions.cancel_session(session);
        self.wheels.cancel_session(session);
        self.gesture_presses.cancel_session(session);
        frames
    }

    /// Note how a followed press began: under a token, or not at all.
    pub fn pressed(&mut self, session: &HidppSessionId, button: ButtonId, press: Option<u64>)
        ensures
            final(self)@ == (DispatcherModel {
                presses: match press {
                    Some(token) => old(self)@.presses.insert((session.model(), button), token),
                    None => old(self)@.presses.remove((session.model(), button)),
                },
                ..old(self)@
            }),
            old(self).wf() ==> final(self).wf(),
    {
        match press {
            Some(token) => self.gesture_presses.start(session, button, token),
            None => self.gesture_presses.end(session, button),
        }
    }

    /// A frame of a Space transition could not be shown. The session's
    /// transitions are cancelled; where the very first frame failed, the gesture
    /// falls back to its action, if the press is still known.
    pub fn space_frame_failed(
        &mut self,
        session: &HidppSessionId,
        button: ButtonId,
        frame: SpaceSwipeFrame,
    ) -> (closed: (Vec<SpaceSwipeFrame>, DispatchOutput))
        ensures
            final(self)@ == (DispatcherModel {
                spaces: without_session(old(self)@.spaces, session.model()),
                ..old(self)@
            }),
            closed.0@ == cancelled(
                old(self).space_transitions.active.entries@,
                session.model(),
            ),
            closed.1 == (if frame.phase == InteractiveSpacePhase::Began
                && old(self)@.spaces.dom().contains((session.model(), button)) && old(self)@.press(
                session.model(),
                button,
            ) is Some {
                DispatchOutput::FireWhilePressed {
                    press: old(self)@.press(session.model(), button)->0,
                    action: old(self)@.spaces[(session.model(), button)].fallback,
                }
            } else {
                DispatchOutput::Nothing
            }),
            old(self).wf() ==> final(self).wf(),
    {
        let fallback: Option<Action> = if frame.phase == InteractiveSpacePhase::Began {
            self.space_transitions.fallback(session, button)
        } else {
            None
        };
        let press: Option<u64> = self.gesture_presses.get(session, button);
        let frames: Vec<SpaceSwipeFrame> = self.space_transitions.cancel_session(session);
        match (fallback, press) {
            (Some(action), Some(press)) => (
                frames,
                DispatchOutput::FireWhilePressed { press, action },
            ),
            _ => (frames, DispatchOutput::Nothing),
        }
    }

    /// Route one captured input of a session.
    pub fn dispatch(
        &mut self,
        session: &HidppSessionId,
        plan: &DispatchPlan,
        input: CapturedInput,
        spaces_supported: bool,
        now: u64,
    ) -> (dispatched: Dispatched)
        requires
            old(self).wf(),
            plan.thumbwheel_sensitivity.wf(),
        ensures
            final(self).wf(),
            dispatched == old(self)@.dispatched(
                session.model(),
                plan.model(),
                input,
                spaces_supported,
                now,
            ),
            final(self)@ == old(self)@.after(
                session.model(),
                plan.model(),
                input,
                spaces_supported,
                now,
            ),
    {
        match input {
            CapturedInput::Gesture(button, direction) => {
                let output: DispatchOutput = self.dispatch_gesture(
                    session,
                    plan,
                    button,
                    direction,
                    spaces_supported,
                );
                Dispatched { frame: None, output }
            },
            CapturedInput::GestureMotion { button, delta_x, .. } => {
                let frame: Option<SpaceSwipeFrame> = self.space_transitions.motion(
                    session,
                    button,
                    delta_x,
                );
                Dispatched { frame, output: DispatchOutput::Nothing }
            },
            CapturedInput::ButtonDown(button) => {
                let followed: bool = plan.gesture_bindings.contains(&button)
                    || plan.side_gesture_bindings.contains(&button);
                let binding: Option<Binding> = if followed {
                    None
                } else {
                    find_binding(plan, button)
                };
                Dispatched {
                    frame: None,
                    output: DispatchOutput::ButtonDown { button, binding, followed },
                }
            },
            CapturedInput::ButtonUp(button) => {
                let frame: Option<SpaceSwipeFrame> = self.space_transitions.end(session, button);
                self.gesture_presses.end(session, button);
                Dispatched { frame, output: DispatchOutput::ButtonUp { button } }
            },
            CapturedInput::ButtonPulse(button) => Dispatched {
                frame: None,
                output: DispatchOutput::ButtonPulse { button, binding: find_binding(plan, button) },
            },
            CapturedInput::Scroll { increments, resolution } => {
                let rotation: WheelRotation = match WheelRotation::from_increments(increments) {
                    Some(rotation) => rotation,
                    None => {
                        return Dispatched { frame: None, output: DispatchOutput::Nothing };
                    },
                };
                assert(rotation_of(increments) == Some(rotation));
                let configuration: WheelConfiguration = WheelConfiguration::for_plan(plan);
                let action: Action = configuration.action(rotation);
                let scale: ScrollScale = ScrollScale::new(resolution, configuration.sensitivity);
                let output: DispatchOutput = match self.wheels.advance(
                    session,
                    rotation,
                    &action,
                    scale,
                    now,
                ) {
                    WheelOutput::Idle => DispatchOutput::Nothing,
                    WheelOutput::Scroll { binding, increments, scale } => DispatchOutput::Scroll {
                        axis: binding,
                        increments,
                        scale,
                    },
                    WheelOutput::FireAction(times) => DispatchOutput::Fire { action, times },
                };
                Dispatched { frame: None, output }
            },
            CapturedInput::ThumbwheelDirection { positive_is_forward } => Dispatched {
                frame: None,
                output: DispatchOutput::RecordPolarity { positive_is_forward },
            },
        }
    }

    fn dispatch_gesture(
        &mut self,
        session: &HidppSessionId,
        plan: &DispatchPlan,
        button: ButtonId,
        direction: GestureDirection,
        spaces_supported: bool,
    ) -> (output: DispatchOutput)
        ensures
            output == old(self)@.dispatched(
                session.model(),
                plan.model(),
                CapturedInput::Gesture(button, direction),
                spaces_supported,
                0,
            ).output,
            final(self)@ == old(self)@.after(
                session.model(),
                plan.model(),
                CapturedInput::Gesture(button, direction),
                spaces_supported,
                0,
            ),
            final(self).wheels == old(self).wheels,
    {
        let press: u64 = match self.gesture_presses.get(session, button) {
            Some(press) => press,
            None => {
                return DispatchOutput::Nothing;
            },
        };
        let action: Action = match find_gesture(plan, button, direction) {
            Some(action) => action,
            None => {
                return DispatchOutput::Nothing;
            },
        };
        if spaces_supported && self.space_transitions.begin(session, button, direction, &action) {
            return DispatchOutput::Nothing;
        }
        DispatchOutput::FireWhilePressed { press, action }
    }
}

fn find_binding(plan: &DispatchPlan, button: ButtonId) -> (binding: Option<Binding>)
    ensures
        binding == binding_of(plan.model(), button),
{
    match plan.bindings.get(&button) {
        Some(binding) => Some(*binding),
        None => None,
    }
}

fn find_gesture(plan: &DispatchPlan, button: ButtonId, direction: GestureDirection) -> (action: Option<
    Action,
>)
    ensures
        action == gesture_action(plan.model(), button, direction),
{
    if let Some(map) = plan.gesture_bindings.get(&button) {
        return match map.get(&direction) {
            Some(action) => Some(*action),
            None => None,
        };
    }
    match plan.side_gesture_bindings.get(&button) {
        Some(map) => match map.get(&direction) {
            Some(action) => Some(*action),
            None => None,
        },
        None => None,
    }
}

// ── Laws ────────────────────────────────────────────────────────────────────

/// Cancelling a session leaves every other session's state alone.
pub proof fn cancelling_touches_one_session(
    dispatcher: DispatcherModel,
    session: (Seq<char>, u64),
    other: (Seq<char>, u64),
    button: ButtonId,
)
    requires
        other != session,
    ensures
        wheels_of(dispatcher.forgets(session).wheels, other) == wheels_of(dispatcher.wheels, other),
        dispatcher.forgets(session).press(other, button) == dispatcher.press(other, button),
        dispatcher.forgets(session).spaces.dom().contains((other, button))
            == dispatcher.spaces.dom().contains((other, button)),
        dispatcher.spaces.dom().contains((other, button)) ==> dispatcher.forgets(
            session,
        ).spaces[(other, button)] == dispatcher.spaces[(other, button)],
{
}

/// After cancelling, nothing of the session is left: its wheel is fresh, it has
/// no press and no transition.
pub proof fn cancelling_forgets_everything(
    dispatcher: DispatcherModel,
    session: (Seq<char>, u64),
    button: ButtonId,
)
    ensures
        wheels_of(dispatcher.forgets(session).wheels, session) == fresh_wheels(),
        dispatcher.forgets(session).press(session, button) is None,
        !dispatcher.forgets(session).spaces.dom().contains((session, button)),
{
}

/// A gesture whose press is not under way does nothing, whatever is bound to it.
pub proof fn gestures_need_their_press(
    dispatcher: DispatcherModel,
    session: (Seq<char>, u64),
    plan: DispatchModel,
    button: ButtonId,
    direction: GestureDirection,
    spaces_supported: bool,
    now: u64,
)
    requires
        dispatcher.press(session, button) is None,
    ensures
        dispatcher.dispatched(
            session,
            plan,
            CapturedInput::Gesture(button, direction),
            spaces_supported,
            now,
        ).output == DispatchOutput::Nothing,
        dispatcher.after(
            session,
            plan,
            CapturedInput::Gesture(button, direction),
            spaces_supported,
            now,
        ) == dispatcher,
{
}

/// A gesture control never also fires its single-action binding on the press.
pub proof fn gesture_controls_do_not_fire_on_press(
    dispatcher: DispatcherModel,
    session: (Seq<char>, u64),
    plan: DispatchModel,
    button: ButtonId,
    spaces_supported: bool,
    now: u64,
)
    requires
        is_space_source(plan, button),
    ensures
        dispatcher.dispatched(
            session,
            plan,
            CapturedInput::ButtonDown(button),
            spaces_supported,
            now,
        ).output == (DispatchOutput::ButtonDown { button, binding: None, followed: true }),
{
}

/// With a press under way, a gesture in a direction that the plan binds for the button
/// performs exactly the bound action: in the gesture map, or, where the button is not in
/// that map, in the side-button map. It fires while the press is active, or it opens the
/// Space transition that stands for it and falls back to it.
pub proof fn bound_gestures_perform_their_action(
    dispatcher: DispatcherModel,
    session: (Seq<char>, u64),
    plan: DispatchModel,
    button: ButtonId,
    direction: GestureDirection,
    action: Action,
    spaces_supported: bool,
    now: u64,
)
    requires
        dispatcher.presses.dom().contains((session, button)),
        if plan.gesture_bindings.dom().contains(button) {
            plan.gesture_bindings[button].dom().contains(direction)
                && plan.gesture_bindings[button][direction] == action
        } else {
            plan.side_gesture_bindings.dom().contains(button)
                && plan.side_gesture_bindings[button].dom().contains(direction)
                && plan.side_gesture_bindings[button][direction] == action
        },
    ensures
        ({
            let input = CapturedInput::Gesture(button, direction);
            let came = dispatcher.dispatched(session, plan, input, spaces_supported, now);
            let next = dispatcher.after(session, plan, input, spaces_supported, now);
            let sideways = direction == GestureDirection::Left || direction
                == GestureDirection::Right;
            let desktop = action == Action::NextDesktop || action == Action::PreviousDesktop;
            &&& came.frame is None
            &&& if spaces_supported && sideways && desktop {
                &&& came.output == DispatchOutput::Nothing
                &&& next.spaces.dom().contains((session, button))
                &&& next.spaces[(session, button)].fallback == action
                &&& !next.spaces[(session, button)].began
                &&& next.spaces[(session, button)].progress_x == 0
            } else {
                &&& came.output == (DispatchOutput::FireWhilePressed {
                    press: dispatcher.presses[(session, button)],
                    action,
                })
                &&& next == dispatcher
            }
        }),
{
}

/// A gesture in a direction that the plan does not bind for the button does nothing. A
/// button in the gesture map never falls through to the side-button map.
pub proof fn unbound_gestures_do_nothing(
    dispatcher: DispatcherModel,
    session: (Seq<char>, u64),
    plan: DispatchModel,
    button: ButtonId,
    direction: GestureDirection,
    spaces_supported: bool,
    now: u64,
)
    requires
        if plan.gesture_bindings.dom().contains(button) {
            !plan.gesture_bindings[button].dom().contains(direction)
        } else {
            !plan.side_gesture_bindings.dom().contains(button)
                || !plan.side_gesture_bindings[button].dom().contains(direction)
        },
    ensures
        ({
            let input = CapturedInput::Gesture(button, direction);
            let came = dispatcher.dispatched(session, plan, input, spaces_supported, now);
            &&& came == (Dispatched { frame: None, output: DispatchOutput::Nothing })
            &&& dispatcher.after(session, plan, input, spaces_supported, now) == dispatcher
        }),
{
}

/// A press or a pulse of a control carries exactly what the plan binds to it. A control
/// with a gesture map, of either kind, carries nothing when it is pressed and is
/// followed; every other control is not.
pub proof fn presses_carry_their_binding(
    dispatcher: DispatcherModel,
    session: (Seq<char>, u64),
    plan: DispatchModel,
    button: ButtonId,
    spaces_supported: bool,
    now: u64,
)
    ensures
        ({
            let down = dispatcher.dispatched(
                session,
                plan,
                CapturedInput::ButtonDown(button),
                spaces_supported,
                now,
            );
            let pulse = dispatcher.dispatched(
                session,
                plan,
                CapturedInput::ButtonPulse(button),
                spaces_supported,
                now,
            );
            let up = dispatcher.dispatched(
                session,
                plan,
                CapturedInput::ButtonUp(button),
                spaces_supported,
                now,
            );
            let bound = plan.bindings.dom().contains(button);
            let gestures = plan.gesture_bindings.dom().contains(button)
                || plan.side_gesture_bindings.dom().contains(button);
            &&& down.frame is None && pulse.frame is None
            &&& gestures ==> down.output == (DispatchOutput::ButtonDown {
                button,
                binding: None,
                followed: true,
            })
            &&& !gestures && bound ==> down.output == (DispatchOutput::ButtonDown {
                button,
                binding: Some(plan.bindings[button]),
                followed: false,
            })
            &&& !gestures && !bound ==> down.output == (DispatchOutput::ButtonDown {
                button,
                binding: None,
                followed: false,
            })
            &&& bound ==> pulse.output == (DispatchOutput::ButtonPulse {
                button,
                binding: Some(plan.bindings[button]),
            })
            &&& !bound ==> pulse.output == (DispatchOutput::ButtonPulse { button, binding: None })
            &&& up.output == (DispatchOutput::ButtonUp { button })
        }),
{
}

/// A release ends the button's press and its transition, and touches no other button's.
/// A press, a pulse and a report of the wheel's polarity change nothing that is held.
pub proof fn releases_end_their_own_press(
    dispatcher: DispatcherModel,
    session: (Seq<char>, u64),
    plan: DispatchModel,
    button: ButtonId,
    other: SpaceKey,
    spaces_supported: bool,
    now: u64,
)
    requires
        other != (session, button),
    ensures
        ({
            let next = dispatcher.after(
                session,
                plan,
                CapturedInput::ButtonUp(button),
                spaces_supported,
                now,
            );
            &&& !next.presses.dom().contains((session, button))
            &&& !next.spaces.dom().contains((session, button))
            &&& next.presses.dom().contains(other) == dispatcher.presses.dom().contains(other)
            &&& next.presses.dom().contains(other) ==> next.presses[other]
                == dispatcher.presses[other]
            &&& next.spaces.dom().contains(other) == dispatcher.spaces.dom().contains(other)
            &&& next.spaces.dom().contains(other) ==> next.spaces[other] == dispatcher.spaces[other]
            &&& next.wheels == dispatcher.wheels
        }),
        dispatcher.after(
            session,
            plan,
            CapturedInput::ButtonDown(button),
            spaces_supported,
            now,
        ) == dispatcher,
        dispatcher.after(
            session,
            plan,
            CapturedInput::ButtonPulse(button),
            spaces_supported,
            now,
        ) == dispatcher,
{
}

/// The frames of a transition tell its story: the first motion begins it, every later
/// one changes it, and the release ends it where the last motion left it. Each motion
/// moves it by its own horizontal part, and a button without a transition shows none.
pub proof fn transitions_begin_change_and_end(
    dispatcher: DispatcherModel,
    session: (Seq<char>, u64),
    plan: DispatchModel,
    button: ButtonId,
    delta_x: i32,
    delta_y: i32,
    spaces_supported: bool,
    now: u64,
)
    ensures
        ({
            let key = (session, button);
            let motion = CapturedInput::GestureMotion { button, delta_x, delta_y };
            let up = CapturedInput::ButtonUp(button);
            let came = dispatcher.dispatched(session, plan, motion, spaces_supported, now);
            let next = dispatcher.after(session, plan, motion, spaces_supported, now);
            let again = next.dispatched(session, plan, motion, spaces_supported, now);
            let ended = next.dispatched(session, plan, up, spaces_supported, now);
            &&& came.output == DispatchOutput::Nothing
            &&& dispatcher.spaces.dom().contains(key) ==> {
                let before = dispatcher.spaces[key];
                &&& came.frame is Some && again.frame is Some
                &&& !before.began ==> came.frame->0.phase == InteractiveSpacePhase::Began
                &&& before.began ==> came.frame->0.phase == InteractiveSpacePhase::Changed
                &&& again.frame->0.phase == InteractiveSpacePhase::Changed
                &&& ended.frame == Some(
                    SpaceSwipeFrame {
                        progress_x: came.frame->0.progress_x,
                        phase: InteractiveSpacePhase::Ended,
                    },
                )
                &&& -0x4000_0000_0000_0000 <= before.progress_x <= 0x4000_0000_0000_0000 ==> {
                    let gone = came.frame->0.progress_x - before.progress_x;
                    gone == if before.flipped {
                        -delta_x
                    } else {
                        delta_x as int
                    }
                }
                &&& next.spaces[key].fallback == before.fallback
                &&& next.spaces[key].flipped == before.flipped
            }
            &&& !dispatcher.spaces.dom().contains(key) ==> {
                &&& came.frame is None
                &&& next == dispatcher
                &&& dispatcher.dispatched(session, plan, up, spaces_supported, now).frame is None
            }
        }),
{
}

/// A wheel that the user left unbound scrolls sideways: turned up to the right, turned
/// down to the left, by as many increments as it turned.
pub proof fn unbound_wheels_scroll_sideways(
    dispatcher: DispatcherModel,
    session: (Seq<char>, u64),
    plan: DispatchModel,
    increments: i16,
    resolution: WheelResolution,
    spaces_supported: bool,
    now: u64,
)
    requires
        !plan.bindings.dom().contains(ButtonId::ThumbwheelScrollUp),
        !plan.bindings.dom().contains(ButtonId::ThumbwheelScrollDown),
        resolution.native != 0,
        plan.thumbwheel_sensitivity.percent != 0,
    ensures
        ({
            let came = dispatcher.dispatched(
                session,
                plan,
                CapturedInput::Scroll { increments, resolution },
                spaces_supported,
                now,
            );
            let scale = ScrollScale { resolution, sensitivity: plan.thumbwheel_sensitivity };
            &&& came.frame is None
            &&& increments > 0 ==> came.output == (DispatchOutput::Scroll {
                axis: ScrollBinding::Right,
                increments: increments as i32,
                scale,
            })
            &&& increments < 0 ==> came.output == (DispatchOutput::Scroll {
                axis: ScrollBinding::Left,
                increments: (-increments) as i32,
                scale,
            })
            &&& increments == 0 ==> came.output == DispatchOutput::Nothing
        }),
{
}

/// A wheel that is bound to scrolling scrolls the way its binding for the direction
/// names, and a wheel that is bound to nothing comes to nothing.
pub proof fn bound_wheels_scroll_as_bound(
    dispatcher: DispatcherModel,
    session: (Seq<char>, u64),
    plan: DispatchModel,
    increments: i16,
    resolution: WheelResolution,
    spaces_supported: bool,
    now: u64,
)
    requires
        increments != 0,
        resolution.native != 0,
        plan.thumbwheel_sensitivity.percent != 0,
        plan.bindings.dom().contains(
            if increments > 0 {
                ButtonId::ThumbwheelScrollUp
            } else {
                ButtonId::ThumbwheelScrollDown
            },
        ),
    ensures
        ({
            let came = dispatcher.dispatched(
                session,
                plan,
                CapturedInput::Scroll { increments, resolution },
                spaces_supported,
                now,
            );
            let scale = ScrollScale { resolution, sensitivity: plan.thumbwheel_sensitivity };
            let turned = (if increments > 0 {
                increments as int
            } else {
                -increments
            }) as i32;
            let bound = if increments > 0 {
                plan.bindings[ButtonId::ThumbwheelScrollUp]
            } else {
                plan.bindings[ButtonId::ThumbwheelScrollDown]
            };
            let action = match bound {
                Binding::Single(action) => action,
                Binding::Threshold { click, .. } => click,
            };
            &&& action == Action::ScrollUp ==> came.output == (DispatchOutput::Scroll {
                axis: ScrollBinding::Up,
                increments: turned,
                scale,
            })
            &&& action == Action::ScrollDown ==> came.output == (DispatchOutput::Scroll {
                axis: ScrollBinding::Down,
                increments: turned,
                scale,
            })
            &&& action == Action::HorizontalScrollRight ==> came.output == (
            DispatchOutput::Scroll { axis: ScrollBinding::Right, increments: turned, scale })
            &&& action == Action::HorizontalScrollLeft ==> came.output == (
            DispatchOutput::Scroll { axis: ScrollBinding::Left, increments: turned, scale })
            &&& action == Action::Nothing ==> came.output == DispatchOutput::Nothing
            &&& came.output matches DispatchOutput::Fire { action: fired, times } ==> fired == action
                && times >= 1
        }),
{
}

/// On a session's first turn of the wheel, an action fires as soon as the turn reaches
/// the threshold: a volume action once for every threshold, up to twenty times, another
/// action once. A shorter turn comes to nothing.
pub proof fn a_first_turn_fires_past_the_threshold(
    dispatcher: DispatcherModel,
    session: (Seq<char>, u64),
    plan: DispatchModel,
    increments: i16,
    resolution: WheelResolution,
    action: Action,
    spaces_supported: bool,
    now: u64,
)
    requires
        !dispatcher.wheels.dom().contains(session),
        increments != 0,
        plan.thumbwheel_sensitivity.threshold >= 1,
        plan.bindings.dom().contains(
            if increments > 0 {
                ButtonId::ThumbwheelScrollUp
            } else {
                ButtonId::ThumbwheelScrollDown
            },
        ),
        plan.bindings[if increments > 0 {
            ButtonId::ThumbwheelScrollUp
        } else {
            ButtonId::ThumbwheelScrollDown
        }] == Binding::Single(action),
        action != Action::Nothing && action != Action::ScrollUp && action != Action::ScrollDown
            && action != Action::HorizontalScrollRight && action != Action::HorizontalScrollLeft,
    ensures
        ({
            let came = dispatcher.dispatched(
                session,
                plan,
                CapturedInput::Scroll { increments, resolution },
                spaces_supported,
                now,
            );
            let turned = if increments > 0 {
                increments as int
            } else {
                -increments
            };
            let threshold = plan.thumbwheel_sensitivity.threshold as int;
            let knob = action == Action::VolumeUp || action == Action::VolumeDown;
            &&& turned < threshold ==> came.output == DispatchOutput::Nothing
            &&& turned >= threshold && !knob ==> came.output == (DispatchOutput::Fire {
                action,
                times: 1,
            })
            &&& turned >= threshold && knob ==> (came.output matches DispatchOutput::Fire {
                action: fired,
                times,
            } && fired == action && 1 <= times <= 20 && times * threshold <= turned && (times < 20
                ==> turned < (times + 1) * threshold))
        }),
{
    let turned = if increments > 0 {
        increments as int
    } else {
        -increments
    };
    let threshold = plan.thumbwheel_sensitivity.threshold as int;
    let crossed = turned / threshold;
    assert(crossed * threshold <= turned < (crossed + 1) * threshold) by (nonlinear_arith)
        requires
            threshold >= 1,
            turned >= 0,
            crossed == turned / threshold,
    ;
    assert(turned < threshold <==> crossed == 0) by (nonlinear_arith)
        requires
            threshold >= 1,
            turned >= 0,
            crossed == turned / threshold,
    ;
    assert(0 <= crossed <= turned) by (nonlinear_arith)
        requires
            threshold >= 1,
            turned >= 0,
            crossed == turned / threshold,
    ;
    assert(crossed >= 20 ==> 20 * threshold <= turned) by (nonlinear_arith)
        requires
            crossed * threshold <= turned,
            threshold >= 1,
    ;
}

} // verus!
