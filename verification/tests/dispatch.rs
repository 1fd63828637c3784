use openlogi_agent::binding::{Action, Binding, ButtonId, GestureDirection, ThumbwheelSensitivity};
use openlogi_agent::capture_plan::DispatchPlan;
use openlogi_agent::dispatch::{
    CapturedInput, DispatchOutput, InputDispatcher, SessionWheels, WheelConfiguration,
};
use openlogi_agent::route::HidppSessionId;
use openlogi_agent::spaces::{
    is_interactive_space_source, InteractiveSpacePhase, InteractiveSpaceTransitions,
    SpaceSwipeFrame,
};
use openlogi_agent::value::Assoc;
use openlogi_agent::wheel::{
    PhysicalDirection, ScrollBinding, ScrollScale, WheelAccumulators, WheelOutput,
    WheelResolution, WheelRotation, ACTION_COOLDOWN, ACTION_DECAY, MAX_REPEATS_PER_EVENT,
};

const UNKNOWN: WheelResolution = WheelResolution {
    native: 0,
    diverted: 0,
};

fn rotation(magnitude: i32) -> WheelRotation {
    let increments = i16::try_from(magnitude).expect("test magnitude fits in i16");
    WheelRotation::from_increments(increments).expect("non-zero test rotation")
}

fn sensitivity() -> ThumbwheelSensitivity {
    ThumbwheelSensitivity::default()
}

fn scale() -> ScrollScale {
    ScrollScale::new(UNKNOWN, sensitivity())
}

#[test]
fn every_hidpp_raw_xy_gesture_source_is_an_interactive_space_candidate() {
    let mut plan = DispatchPlan::unbound("mouse-a");
    plan.gesture_bindings
        .insert(ButtonId::GestureButton, Assoc::new());
    plan.side_gesture_bindings
        .insert(ButtonId::Forward, Assoc::new());

    assert!(is_interactive_space_source(&plan, ButtonId::GestureButton));
    assert!(is_interactive_space_source(&plan, ButtonId::Forward));
    assert!(
        !is_interactive_space_source(&plan, ButtonId::MiddleClick),
        "OS-hook-only buttons must stay on the one-shot path"
    );
}

#[test]
fn interactive_space_transition_uses_the_bound_desktop_direction_and_tracks_reversal() {
    let session = HidppSessionId::with_epoch("mouse-a", 7);
    let mut transitions = InteractiveSpaceTransitions::default();

    assert!(transitions.begin(
        &session,
        ButtonId::GestureButton,
        GestureDirection::Left,
        &Action::NextDesktop,
    ));
    assert_eq!(
        transitions.motion(&session, ButtonId::GestureButton, -120),
        Some(SpaceSwipeFrame {
            progress_x: 120,
            phase: InteractiveSpacePhase::Began,
        }),
        "a custom left → next mapping must still begin in the next-Space direction"
    );
    assert_eq!(
        transitions.motion(&session, ButtonId::GestureButton, 20),
        Some(SpaceSwipeFrame {
            progress_x: 100,
            phase: InteractiveSpacePhase::Changed,
        }),
        "reversing the held gesture must retract transition progress"
    );
    assert_eq!(
        transitions.end(&session, ButtonId::GestureButton),
        Some(SpaceSwipeFrame {
            progress_x: 100,
            phase: InteractiveSpacePhase::Ended,
        })
    );
}

#[test]
fn interactive_space_transition_cancels_only_the_matching_capture_session() {
    let old = HidppSessionId::with_epoch("mouse-a", 7);
    let replacement = HidppSessionId::with_epoch("mouse-a", 8);
    let mut transitions = InteractiveSpaceTransitions::default();

    assert!(transitions.begin(
        &old,
        ButtonId::GestureButton,
        GestureDirection::Right,
        &Action::NextDesktop,
    ));
    assert!(transitions.begin(
        &replacement,
        ButtonId::GestureButton,
        GestureDirection::Right,
        &Action::PreviousDesktop,
    ));
    assert_eq!(
        transitions.cancel_session(&old),
        vec![SpaceSwipeFrame {
            progress_x: 0,
            phase: InteractiveSpacePhase::Cancelled,
        }]
    );
    assert!(
        transitions
            .motion(&replacement, ButtonId::GestureButton, 30)
            .is_some(),
        "cancelling a stale epoch must not erase its replacement transition"
    );
}

#[test]
fn interactive_space_transition_rejects_non_desktop_actions() {
    let session = HidppSessionId::with_epoch("mouse-a", 7);
    let mut transitions = InteractiveSpaceTransitions::default();

    assert!(!transitions.begin(
        &session,
        ButtonId::GestureButton,
        GestureDirection::Right,
        &Action::NextTab,
    ));
    assert!(
        transitions
            .motion(&session, ButtonId::GestureButton, 120)
            .is_none(),
        "ordinary gestures remain one-shot actions"
    );
}

#[test]
fn replacement_session_does_not_inherit_progress_or_cooldown() {
    let old = HidppSessionId::with_epoch("mouse-a", 7);
    let replacement = HidppSessionId::with_epoch("mouse-a", 8);
    let threshold = sensitivity().action_threshold();
    let now = 1_000;
    let mut wheels = SessionWheels::new();

    assert_eq!(
        wheels.advance(&old, rotation(threshold), &Action::VolumeUp, scale(), now),
        WheelOutput::FireAction(1)
    );
    assert_eq!(
        wheels.advance(
            &replacement,
            rotation(threshold),
            &Action::VolumeUp,
            scale(),
            now,
        ),
        WheelOutput::FireAction(1),
        "a new session must not inherit the old session's cooldown"
    );

    wheels.cancel_session(&old);
    assert!(
        wheels.contains(&replacement),
        "canceling a stale epoch must not erase its replacement's state"
    );
    assert!(!wheels.contains(&old));
}

#[test]
fn replacement_session_does_not_inherit_partial_progress() {
    let old = HidppSessionId::with_epoch("mouse-a", 7);
    let replacement = HidppSessionId::with_epoch("mouse-a", 8);
    let threshold = sensitivity().action_threshold();
    let now = 1_000;
    let mut wheels = SessionWheels::new();

    assert_eq!(
        wheels.advance(
            &old,
            rotation(threshold - 1),
            &Action::VolumeUp,
            scale(),
            now
        ),
        WheelOutput::Idle
    );
    assert_eq!(
        wheels.advance(&replacement, rotation(1), &Action::VolumeUp, scale(), now),
        WheelOutput::Idle,
        "a new session must start with no action progress"
    );
}

#[test]
fn rotations_know_their_direction() {
    assert_eq!(WheelRotation::from_increments(0), None);
    let up = rotation(3);
    assert_eq!(
        (up.direction, up.magnitude),
        (PhysicalDirection::Up, 3)
    );
    let down = WheelRotation::from_increments(i16::MIN).unwrap();
    assert_eq!(
        (down.direction, down.magnitude),
        (PhysicalDirection::Down, 32768)
    );
    assert_eq!(up.button(), ButtonId::ThumbwheelScrollUp);
    assert_eq!(down.button(), ButtonId::ThumbwheelScrollDown);
}

#[test]
fn a_native_scroll_keeps_its_increments() {
    let mut wheel = WheelAccumulators::default();
    assert_eq!(
        wheel.advance(rotation(5), &Action::HorizontalScrollLeft, scale(), 0),
        WheelOutput::Scroll {
            binding: ScrollBinding::Left,
            increments: 5,
            scale: scale(),
        }
    );
}

#[test]
fn a_scale_without_native_ticks_does_not_scroll() {
    let still = ScrollScale::new(
        WheelResolution {
            native: 0,
            diverted: 120,
        },
        sensitivity(),
    );
    let mut wheel = WheelAccumulators::default();
    assert_eq!(
        wheel.advance(rotation(5), &Action::ScrollUp, still, 0),
        WheelOutput::Idle
    );
}

#[test]
fn a_once_only_action_cools_down_and_progress_decays() {
    let mut wheel = WheelAccumulators::default();
    let threshold = sensitivity().action_threshold();
    let action = Action::NextTab;
    assert_eq!(
        wheel.advance(rotation(threshold), &action, scale(), 1_000),
        WheelOutput::FireAction(1)
    );
    assert_eq!(
        wheel.advance(
            rotation(threshold),
            &action,
            scale(),
            1_000 + ACTION_COOLDOWN - 1
        ),
        WheelOutput::Idle
    );
    assert_eq!(
        wheel.advance(rotation(threshold), &action, scale(), 2_000),
        WheelOutput::FireAction(1)
    );
    let mut wheel = WheelAccumulators::default();
    wheel.advance(rotation(threshold - 1), &action, scale(), 1_000);
    assert_eq!(
        wheel.advance(rotation(1), &action, scale(), 1_000 + ACTION_DECAY + 1),
        WheelOutput::Idle
    );
    wheel.advance(rotation(threshold - 2), &action, scale(), 1_400);
    assert_eq!(
        wheel.advance(rotation(1), &action, scale(), 1_401),
        WheelOutput::FireAction(1)
    );
}

#[test]
fn one_report_fires_a_bounded_number_of_times() {
    let mut wheel = WheelAccumulators::default();
    match wheel.advance(rotation(i16::MAX.into()), &Action::VolumeUp, scale(), 0) {
        WheelOutput::FireAction(times) => assert!(times <= MAX_REPEATS_PER_EVENT),
        other => panic!("a whole spin must fire: {other:?}"),
    }
}

fn session() -> HidppSessionId {
    HidppSessionId::with_epoch("mouse-a", 7)
}

fn gesture_plan() -> DispatchPlan {
    let mut plan = DispatchPlan::unbound("mouse-a");
    let mut directions = Assoc::new();
    directions.insert(GestureDirection::Right, Action::NextDesktop);
    directions.insert(GestureDirection::Up, Action::MissionControl);
    plan.gesture_bindings
        .insert(ButtonId::GestureButton, directions);
    plan.bindings
        .insert(ButtonId::DpiToggle, Binding::Single(Action::Copy));
    plan
}

#[test]
fn captured_inputs_become_outputs() {
    let mut dispatcher = InputDispatcher::new();
    let plan = gesture_plan();
    let out = dispatcher.dispatch(
        &session(),
        &plan,
        CapturedInput::ButtonPulse(ButtonId::DpiToggle),
        false,
        0,
    );
    assert_eq!(
        out.output,
        DispatchOutput::ButtonPulse {
            button: ButtonId::DpiToggle,
            binding: Some(Binding::Single(Action::Copy)),
        }
    );
    let out = dispatcher.dispatch(
        &session(),
        &plan,
        CapturedInput::ThumbwheelDirection {
            positive_is_forward: true,
        },
        false,
        0,
    );
    assert_eq!(
        out.output,
        DispatchOutput::RecordPolarity {
            positive_is_forward: true
        }
    );
}

#[test]
fn a_gesture_while_pressed_fires_under_its_press() {
    let mut dispatcher = InputDispatcher::new();
    let plan = gesture_plan();
    let down = dispatcher.dispatch(
        &session(),
        &plan,
        CapturedInput::ButtonDown(ButtonId::GestureButton),
        false,
        0,
    );
    assert!(matches!(
        down.output,
        DispatchOutput::ButtonDown {
            button: ButtonId::GestureButton,
            followed: true,
            ..
        }
    ));
    dispatcher.pressed(&session(), ButtonId::GestureButton, Some(41));
    let up = CapturedInput::Gesture(ButtonId::GestureButton, GestureDirection::Up);
    let fired = dispatcher.dispatch(&session(), &plan, up, false, 0);
    assert_eq!(
        fired.output,
        DispatchOutput::FireWhilePressed {
            press: 41,
            action: Action::MissionControl,
        }
    );
    dispatcher.cancel_session(&session());
    let fired = dispatcher.dispatch(&session(), &plan, up, false, 0);
    assert_eq!(fired.output, DispatchOutput::Nothing);
}

#[test]
fn a_failed_space_frame_falls_back_to_the_action() {
    let mut dispatcher = InputDispatcher::new();
    let plan = gesture_plan();
    dispatcher.dispatch(
        &session(),
        &plan,
        CapturedInput::ButtonDown(ButtonId::GestureButton),
        true,
        0,
    );
    dispatcher.pressed(&session(), ButtonId::GestureButton, Some(41));
    let begun = dispatcher.dispatch(
        &session(),
        &plan,
        CapturedInput::Gesture(ButtonId::GestureButton, GestureDirection::Right),
        true,
        0,
    );
    assert_eq!(begun.output, DispatchOutput::Nothing);
    let moved = dispatcher.dispatch(
        &session(),
        &plan,
        CapturedInput::GestureMotion {
            button: ButtonId::GestureButton,
            delta_x: 40,
            delta_y: 0,
        },
        true,
        0,
    );
    let frame = moved.frame.expect("a running transition streams frames");
    assert_eq!(frame.progress_x, 40);
    let (_, output) = dispatcher.space_frame_failed(&session(), ButtonId::GestureButton, frame);
    assert_eq!(
        output,
        DispatchOutput::FireWhilePressed {
            press: 41,
            action: Action::NextDesktop,
        }
    );
}

#[test]
fn the_wheel_configuration_follows_the_plan() {
    let mut plan = DispatchPlan::unbound("mouse-a");
    plan.bindings.insert(
        ButtonId::ThumbwheelScrollUp,
        Binding::Single(Action::VolumeUp),
    );
    let configuration = WheelConfiguration::for_plan(&plan);
    assert_eq!(configuration.action(rotation(1)), Action::VolumeUp);
    let mut dispatcher = InputDispatcher::new();
    let threshold: i16 = sensitivity().action_threshold().try_into().unwrap();
    let fired = dispatcher.dispatch(
        &session(),
        &plan,
        CapturedInput::Scroll {
            increments: threshold,
            resolution: UNKNOWN,
        },
        false,
        0,
    );
    assert_eq!(
        fired.output,
        DispatchOutput::Fire {
            action: Action::VolumeUp,
            times: 1,
        }
    );
}

#[test]
fn a_split_swipe_repeats_as_often_as_a_whole_one() {
    let threshold = sensitivity().action_threshold();
    let splits: [&[i32]; 3] = [&[60], &[7, 13, 1, 39], &[1, 2, 3, 4, 50]];
    for split in splits {
        let mut wheel = WheelAccumulators::default();
        let mut fires = 0;
        for (step, magnitude) in split.iter().enumerate() {
            let now = step as u64 * ACTION_DECAY;
            if let WheelOutput::FireAction(times) =
                wheel.advance(rotation(*magnitude), &Action::VolumeUp, scale(), now)
            {
                fires += times;
            }
        }
        assert_eq!(fires, 60 / threshold as u32);
    }
}

#[test]
fn a_one_shot_run_counts_only_live_travel() {
    let threshold = sensitivity().action_threshold();
    let mut wheel = WheelAccumulators::default();
    let mut at = |magnitude, now| {
        wheel.advance(rotation(magnitude), &Action::NextTab, scale(), now)
    };
    assert_eq!(at(threshold, 1_000), WheelOutput::FireAction(1));
    assert_eq!(at(threshold - 1, 1_100), WheelOutput::Idle);
    assert_eq!(
        at(1, 1_200),
        WheelOutput::Idle,
        "travel during the cooldown earned nothing"
    );
    assert_eq!(at(threshold - 1, 1_300), WheelOutput::FireAction(1));
}
