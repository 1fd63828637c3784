use openlogi_agent::binding::{Action, Binding, ButtonId};
use openlogi_agent::capture_plan::DispatchPlan;
use openlogi_agent::hold::{HoldCommand, HoldRelease, HoldSessions};
use openlogi_agent::route::HidppSessionId;

/// The user let go after clearing the click/drag deadzone.
const DRAG: HoldRelease = HoldRelease::Released { traveled: true };
/// The user let go without clearing it.
const CLICK: HoldRelease = HoldRelease::Released { traveled: false };
/// The zoom sensitivity of a fresh configuration, in percent.
const ZOOM_SENSITIVITY: u16 = 100;

fn session(epoch: u64) -> HidppSessionId {
    HidppSessionId::with_epoch("mouse-a", epoch)
}

fn plan(button: ButtonId, action: Action, dpi: u16) -> DispatchPlan {
    let mut plan = DispatchPlan::unbound("mouse-a");
    plan.bindings.insert(button, Binding::Single(action));
    plan.hold_bindings.insert(button, action);
    plan.sensor_dpi = Some(dpi);
    plan.zoom_sensitivity = ZOOM_SENSITIVITY;
    plan.invert_pan = false;
    plan
}

fn pan_plan(dpi: u16) -> DispatchPlan {
    plan(ButtonId::Back, Action::Pan, dpi)
}

fn zoom_plan(dpi: u16) -> DispatchPlan {
    plan(ButtonId::Forward, Action::Zoom, dpi)
}

#[test]
fn pan_begin_stream_end() {
    let mut holds = HoldSessions::default();
    let session = session(7);
    let plan = pan_plan(1000);

    assert_eq!(
        holds.begin(&session, ButtonId::Back, &plan),
        Some(HoldCommand::PanBegin)
    );
    assert_eq!(
        holds.motion(&session, ButtonId::Back, 1000, 0),
        Some(HoldCommand::Pan {
            dx: 1000,
            dy: 0,
            dpi: 1000
        })
    );
    assert_eq!(
        holds.end(&session, ButtonId::Back, DRAG),
        Some(HoldCommand::PanEnd)
    );
}

#[test]
fn end_without_motion_still_closes_pan() {
    let mut holds = HoldSessions::default();
    let session = session(7);
    assert_eq!(
        holds.begin(&session, ButtonId::Back, &pan_plan(1000)),
        Some(HoldCommand::PanBegin)
    );
    assert_eq!(
        holds.end(&session, ButtonId::Back, CLICK),
        Some(HoldCommand::PanEnd)
    );
}

#[test]
fn zoom_opens_on_first_motion_and_ends_on_button_up() {
    let mut holds = HoldSessions::default();
    let session = session(7);
    let plan = zoom_plan(1000);

    assert_eq!(holds.begin(&session, ButtonId::Forward, &plan), None);
    assert_eq!(
        holds.motion(&session, ButtonId::Forward, 0, -200),
        Some(HoldCommand::Zoom {
            amount: 200,
            dpi: 1000,
            sensitivity: ZOOM_SENSITIVITY
        })
    );
    assert_eq!(
        holds.end(&session, ButtonId::Forward, DRAG),
        Some(HoldCommand::ZoomEnd)
    );
}

#[test]
fn teardown_then_late_motion_does_not_reopen() {
    let mut holds = HoldSessions::default();
    let session = session(7);
    assert_eq!(
        holds.begin(&session, ButtonId::Forward, &zoom_plan(1000)),
        None
    );
    assert_eq!(holds.close_session(&session), Some(HoldCommand::ZoomEnd));
    assert_eq!(
        holds.motion(&session, ButtonId::Forward, 0, -400),
        None,
        "late motion must not call post_zoom_continuous after teardown"
    );
    assert_eq!(
        holds.begin(&session, ButtonId::Forward, &zoom_plan(1000)),
        None,
        "a closed epoch must not accept a new begin"
    );
}

#[test]
fn teardown_then_late_end_does_not_emit() {
    let mut holds = HoldSessions::default();
    let session = session(7);
    holds.begin(&session, ButtonId::Back, &pan_plan(1000));
    assert_eq!(holds.close_session(&session), Some(HoldCommand::PanEnd));
    assert_eq!(holds.end(&session, ButtonId::Back, DRAG), None);
}

#[test]
fn profile_switch_ends_the_hold_and_the_next_press_can_begin() {
    let mut holds = HoldSessions::default();
    let session = session(7);
    holds.begin(&session, ButtonId::Back, &pan_plan(1000));
    assert_eq!(holds.end_open(&session), Some(HoldCommand::PanEnd));
    assert_eq!(holds.motion(&session, ButtonId::Back, 40, 0), None);
    assert_eq!(holds.end(&session, ButtonId::Back, DRAG), None);
    assert_eq!(
        holds.begin(&session, ButtonId::Back, &pan_plan(1000)),
        Some(HoldCommand::PanBegin)
    );
}

#[test]
fn shutdown_ends_every_open_hold() {
    let mut holds = HoldSessions::default();
    holds.begin(&session(7), ButtonId::Back, &pan_plan(1000));
    holds.begin(&session(8), ButtonId::Forward, &zoom_plan(1000));
    let commands = holds.close_all();
    assert!(commands.contains(&HoldCommand::PanEnd));
    assert!(commands.contains(&HoldCommand::ZoomEnd));
    assert_eq!(holds.motion(&session(7), ButtonId::Back, 20, 0), None);
}

#[test]
fn missing_dpi_or_binding_does_not_open() {
    let mut holds = HoldSessions::default();
    let session = session(7);
    let mut plan = pan_plan(1000);
    plan.sensor_dpi = None;
    assert_eq!(holds.begin(&session, ButtonId::Back, &plan), None);

    let mut unbound = pan_plan(1000);
    unbound.hold_bindings.remove(&ButtonId::Back);
    assert_eq!(holds.begin(&session, ButtonId::Back, &unbound), None);
    assert_eq!(holds.motion(&session, ButtonId::Back, 50, 0), None);
}

#[test]
fn pan_commands_never_reach_the_zoom_sink() {
    let mut holds = HoldSessions::default();
    let session = session(7);
    let plan = pan_plan(1000);
    let mut commands = Vec::new();
    commands.extend(holds.begin(&session, ButtonId::Back, &plan));
    commands.extend(holds.motion(&session, ButtonId::Back, 80, -40));
    commands.extend(holds.end(&session, ButtonId::Back, DRAG));
    assert!(
        commands.iter().all(|command| matches!(
            command,
            HoldCommand::PanBegin | HoldCommand::Pan { .. } | HoldCommand::PanEnd
        )),
        "Pan must not emit Zoom/ZoomEnd: {commands:?}"
    );
    assert!(
        commands
            .iter()
            .any(|command| matches!(command, HoldCommand::Pan { .. })),
        "the pan sink must actually be reached"
    );
}

#[test]
fn zoom_commands_never_reach_the_pan_sink() {
    let mut holds = HoldSessions::default();
    let session = session(7);
    let plan = zoom_plan(1000);
    let mut commands = Vec::new();
    commands.extend(holds.begin(&session, ButtonId::Forward, &plan));
    commands.extend(holds.motion(&session, ButtonId::Forward, 0, -200));
    commands.extend(holds.end(&session, ButtonId::Forward, DRAG));
    assert!(
        commands
            .iter()
            .all(|command| matches!(command, HoldCommand::Zoom { .. } | HoldCommand::ZoomEnd)),
        "Zoom must not emit Pan/PanEnd: {commands:?}"
    );
    assert!(
        commands
            .iter()
            .any(|command| matches!(command, HoldCommand::Zoom { .. })),
        "the zoom sink must actually be reached"
    );
}

#[test]
fn swapping_the_bound_action_swaps_the_sink() {
    // Same button, same motion: only the hold binding chooses the sink.
    let session = session(7);
    let motion = (0_i16, -200_i16);
    let mut pan = HoldSessions::default();
    pan.begin(&session, ButtonId::Back, &pan_plan(1000));
    let pan_cmd = pan.motion(&session, ButtonId::Back, motion.0, motion.1);
    let mut zoom = HoldSessions::default();
    zoom.begin(&session, ButtonId::Forward, &zoom_plan(1000));
    let zoom_cmd = zoom.motion(&session, ButtonId::Forward, motion.0, motion.1);
    assert!(matches!(pan_cmd, Some(HoldCommand::Pan { .. })));
    assert!(matches!(zoom_cmd, Some(HoldCommand::Zoom { .. })));
    assert_ne!(
        std::mem::discriminant(&pan_cmd.unwrap()),
        std::mem::discriminant(&zoom_cmd.unwrap()),
        "identical raw-XY must not collapse Pan and Zoom into one command"
    );
}

#[test]
fn a_completed_hold_can_begin_again_on_the_same_epoch() {
    let mut holds = HoldSessions::default();
    let session = session(7);
    let plan = pan_plan(1000);
    holds.begin(&session, ButtonId::Back, &plan);
    holds.end(&session, ButtonId::Back, DRAG);
    assert_eq!(
        holds.begin(&session, ButtonId::Back, &plan),
        Some(HoldCommand::PanBegin),
        "a normal button-up returns the epoch to Idle so the next press works"
    );
}

#[test]
fn inverting_pan_flips_both_axes() {
    let session = session(7);
    let mut natural = HoldSessions::default();
    natural.begin(&session, ButtonId::Back, &pan_plan(1000));
    let Some(HoldCommand::Pan { dx, dy, .. }) = natural.motion(&session, ButtonId::Back, 120, -60)
    else {
        panic!("natural pan must emit");
    };

    let mut inverted_plan = pan_plan(1000);
    inverted_plan.invert_pan = true;
    let mut inverted = HoldSessions::default();
    inverted.begin(&session, ButtonId::Back, &inverted_plan);
    let Some(HoldCommand::Pan {
        dx: idx, dy: idy, ..
    }) =
        inverted.motion(&session, ButtonId::Back, 120, -60)
    else {
        panic!("inverted pan must emit");
    };

    assert!(
        idx + dx == 0 && idy + dy == 0,
        "inverting must negate both axes: ({dx}, {dy}) became ({idx}, {idy})"
    );
    assert!(
        dx != 0 && dy != 0,
        "the fixture must move on both axes or the assertion proves nothing"
    );
}

#[test]
fn a_zoom_button_clicked_without_dragging_fires_smart_zoom() {
    let mut holds = HoldSessions::default();
    let session = session(7);
    assert_eq!(
        holds.begin(&session, ButtonId::Forward, &zoom_plan(1000)),
        None,
        "zoom opens on first motion, not on button-down"
    );
    assert_eq!(
        holds.end(&session, ButtonId::Forward, CLICK),
        Some(HoldCommand::SmartZoom)
    );
}

#[test]
fn a_zoom_button_dragged_ends_the_pinch_rather_than_smart_zooming() {
    // The two gestures share one button, which is why smart zoom cannot fire
    // on button-down: it has to wait and see whether a drag follows.
    let mut holds = HoldSessions::default();
    let session = session(7);
    holds.begin(&session, ButtonId::Forward, &zoom_plan(1000));
    assert!(
        holds
            .motion(&session, ButtonId::Forward, 0, -200)
            .is_some_and(|command| matches!(command, HoldCommand::Zoom { .. }))
    );
    assert_eq!(
        holds.end(&session, ButtonId::Forward, DRAG),
        Some(HoldCommand::ZoomEnd)
    );
}

#[test]
fn a_pan_button_clicked_without_dragging_does_not_smart_zoom() {
    let mut holds = HoldSessions::default();
    let session = session(7);
    holds.begin(&session, ButtonId::Back, &pan_plan(1000));
    assert_eq!(
        holds.end(&session, ButtonId::Back, CLICK),
        Some(HoldCommand::PanEnd),
        "smart zoom belongs to the zoom binding only"
    );
}

#[test]
fn tearing_down_a_zoom_hold_never_smart_zooms() {
    // Shutdown, profile switch and stale input close the gesture. None of
    // them is a user clicking the button.
    let session = session(7);
    for command in [
        {
            let mut holds = HoldSessions::default();
            holds.begin(&session, ButtonId::Forward, &zoom_plan(1000));
            holds.close_session(&session)
        },
        {
            let mut holds = HoldSessions::default();
            holds.begin(&session, ButtonId::Forward, &zoom_plan(1000));
            holds.end_open(&session)
        },
        // The one capture actually uses: a reconnect, a capture stop, or the
        // stale bound reaches dispatch as an interrupted HoldEnd, which took
        // the same route as a release and fired a smart zoom into whatever
        // was frontmost.
        {
            let mut holds = HoldSessions::default();
            holds.begin(&session, ButtonId::Forward, &zoom_plan(1000));
            holds.end(&session, ButtonId::Forward, HoldRelease::Interrupted)
        },
    ] {
        assert_eq!(command, Some(HoldCommand::ZoomEnd));
    }
}
