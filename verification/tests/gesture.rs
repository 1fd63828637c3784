use openlogi_agent::binding::{Action, Binding, ButtonId, GestureDirection, ThumbwheelSensitivity};
use openlogi_agent::capture_plan::{
    CaptureSpec, CaptureTarget, DeviceCapturePlan, DispatchPlan,
};
use openlogi_agent::capture_session::{CaptureSession, ReconcileAction};
use openlogi_agent::dispatch::CapturedInput;
use openlogi_agent::gesture::{
    acquire_session_lease, dispatch_context_for, wanted_sessions, DrainStep, GestureManagerState,
    InputContext, SessionDone, SessionLease,
};
use openlogi_agent::route::{DeviceRoute, HidppSessionId, PhysicalDeviceKey};
use openlogi_agent::value::{Assoc, Value};

type RunningSession = CaptureSession<CaptureTarget, DispatchPlan>;

fn route() -> DeviceRoute {
    DeviceRoute::Direct {
        vendor_id: 0x046d,
        product_id: 0xc548,
    }
}

fn physical_key() -> PhysicalDeviceKey {
    PhysicalDeviceKey::new("unit:00000001")
}

fn session_id(epoch: u64) -> HidppSessionId {
    HidppSessionId::with_epoch("mouse-a", epoch)
}

fn plan() -> DeviceCapturePlan {
    DeviceCapturePlan {
        target: CaptureTarget {
            physical_key: physical_key(),
            route: route(),
            spec: CaptureSpec {
                divert_gesture_buttons: vec![],
                divert_buttons: vec![(0x00c4, ButtonId::DpiToggle)],
                divert_thumbwheel: true,
            },
            rearm_generation: 0,
        },
        dispatch: DispatchPlan::unbound("mouse-a"),
    }
}

fn live_session_from_plan(epoch: u64, plan: DeviceCapturePlan) -> RunningSession {
    CaptureSession::active(session_id(epoch), plan.target, plan.dispatch)
}

fn live_session_with_epoch(epoch: u64) -> RunningSession {
    live_session_from_plan(epoch, plan())
}

fn draining_session_with_epoch(epoch: u64) -> RunningSession {
    let mut session = live_session_with_epoch(epoch);
    assert_eq!(session.reconcile(None), ReconcileAction::Retiring);
    session
}

fn click(action: Action) -> Assoc<GestureDirection, Action> {
    let mut directions = Assoc::new();
    directions.insert(GestureDirection::Click, action);
    directions
}

/// Arm the one published plan, with a lease.
fn arm(
    state: &mut GestureManagerState,
    published: &Vec<DeviceCapturePlan>,
    epoch: u64,
    now: u64,
) -> HidppSessionId {
    assert_eq!(state.next_to_arm(false, true, published, now), Some(0));
    state
        .arm_next(false, true, published, true, epoch, now)
        .and_then(|armed| armed.session)
        .expect("a wanted device is armed")
}

fn wants_session(state: &GestureManagerState, published: &Vec<DeviceCapturePlan>, now: u64) -> bool {
    state.next_to_arm(false, true, published, now).is_some()
}

#[test]
fn tests_accepts_inputs_from_the_current_session_until_teardown_finishes() {
    assert!(dispatch_context_for(&session_id(7), Some(&live_session_with_epoch(7))).is_some());
    assert!(
        dispatch_context_for(&session_id(6), Some(&live_session_with_epoch(7))).is_none(),
        "a superseded session's queued input is stale"
    );
    assert!(
        dispatch_context_for(&session_id(7), Some(&draining_session_with_epoch(7))).is_some(),
        "a draining session still owns diverted input until restoration completes"
    );
    assert!(dispatch_context_for(&session_id(7), None).is_none());
}

#[test]
fn exclusive_request_retires_capture_without_rejecting_owned_input() {
    let plans = vec![plan()];
    assert!(wanted_sessions(true, &plans).is_empty());
    assert_eq!(wanted_sessions(false, &plans).len(), 1);

    let mut session = live_session_with_epoch(7);
    assert_eq!(session.reconcile(None), ReconcileAction::Retiring);
    assert!(!session.is_active());
    assert!(
        dispatch_context_for(&session_id(7), Some(&session)).is_some(),
        "an exclusive request retires capture but must not reject input while firmware remains diverted"
    );
}

#[test]
fn an_active_session_refreshes_bindings_without_rearming_hardware() {
    let mut old_plan = plan();
    old_plan
        .dispatch
        .side_gesture_bindings
        .insert(ButtonId::Forward, click(Action::MissionControl));
    old_plan
        .target
        .spec
        .divert_gesture_buttons
        .push((0x0056, ButtonId::Forward));
    let mut session = live_session_from_plan(7, old_plan.copied());

    let mut new_plan = old_plan;
    new_plan
        .dispatch
        .side_gesture_bindings
        .insert(ButtonId::Forward, click(Action::ShowDesktop));
    assert!(session.target().same(&new_plan.target));

    assert_eq!(
        session.reconcile(Some((&new_plan.target, &new_plan.dispatch))),
        ReconcileAction::DispatchChanged,
        "a hot plan refresh must cancel input lifecycles admitted under the old action map"
    );

    assert!(session.is_active());
    assert_eq!(
        session
            .dispatch()
            .side_gesture_bindings
            .get(&ButtonId::Forward)
            .and_then(|map| map.get(&GestureDirection::Click)),
        Some(&Action::ShowDesktop),
        "an unchanged capture target must still adopt the new app/profile action"
    );
}

#[test]
fn side_gesture_transition_keeps_the_retiring_plan_until_native_restore() {
    let mut old_plan = plan();
    old_plan
        .dispatch
        .side_gesture_bindings
        .insert(ButtonId::Forward, click(Action::MissionControl));
    old_plan
        .target
        .spec
        .divert_gesture_buttons
        .push((0x0056, ButtonId::Forward));
    let mut session = live_session_from_plan(7, old_plan.copied());

    let mut published_without_hook = old_plan;
    published_without_hook
        .dispatch
        .side_gesture_bindings
        .remove(&ButtonId::Forward);
    published_without_hook
        .target
        .spec
        .divert_gesture_buttons
        .clear();
    assert!(!session.target().same(&published_without_hook.target));
    assert_eq!(
        session.reconcile(Some((
            &published_without_hook.target,
            &published_without_hook.dispatch,
        ))),
        ReconcileAction::Retiring
    );
    assert!(!session.is_active());

    let (_, retained) = dispatch_context_for(session.id(), Some(&session))
        .expect("the draining session must remain an admissible input owner");
    assert!(retained.side_gesture_bindings.contains(&ButtonId::Forward));
    assert!(
        session
            .target()
            .spec
            .divert_gesture_buttons
            .iter()
            .any(|&(_, button)| button == ButtonId::Forward),
        "the retiring target must stay frozen while firmware diversion remains active"
    );
}

#[test]
fn capture_target_changes_schedule_the_old_session_for_retirement() {
    let mut session = live_session_with_epoch(7);
    let mut plan = plan();
    assert!(session.target().same(&plan.target));

    plan.target.rearm_generation = 1;
    assert!(
        !session.target().same(&plan.target),
        "a capture-target epoch change must retire the old session"
    );
    assert_eq!(
        session.reconcile(Some((&plan.target, &plan.dispatch))),
        ReconcileAction::Retiring
    );
}

#[test]
fn config_key_adoption_hot_refreshes_the_same_physical_capture_slot() {
    let old_plan = plan();
    let mut adopted_plan = old_plan.copied();
    adopted_plan.dispatch.config_key = "unit:00000001".to_owned();
    assert!(old_plan.target.same(&adopted_plan.target));

    let mut running = live_session_from_plan(7, old_plan);
    assert_eq!(
        running.reconcile(Some((&adopted_plan.target, &adopted_plan.dispatch))),
        ReconcileAction::DispatchChanged
    );
    running.rekey(&adopted_plan.dispatch.config_key);
    assert!(running.is_active());
    assert_eq!(running.id().device_key(), "unit:00000001");
    assert_eq!(running.id().epoch(), 7);

    let mut state = GestureManagerState::new();
    let published = vec![plan()];
    arm(&mut state, &published, 7, 0);
    state.reconcile(false, true, &vec![adopted_plan], 0);
    assert!(
        state.slots.contains(&physical_key()),
        "the old session must keep the one physical slot until ordered Done"
    );
}

#[test]
fn active_session_adopts_action_only_plan_changes_without_rearming() {
    let bound = |action| {
        let mut plan = plan();
        plan.dispatch
            .bindings
            .insert(ButtonId::DpiToggle, Binding::Single(action));
        plan
    };
    let first = bound(Action::Copy);
    let mut session = live_session_from_plan(7, first.copied());

    let rebound = bound(Action::Paste);
    assert!(first.target.same(&rebound.target));
    assert_eq!(
        session.reconcile(Some((&rebound.target, &rebound.dispatch))),
        ReconcileAction::DispatchChanged
    );
    assert_eq!(
        session.dispatch().bindings.get(&ButtonId::DpiToggle),
        Some(&Binding::Single(Action::Paste))
    );
}

#[test]
fn active_session_adopts_gesture_and_per_app_dispatch_changes() {
    let mut first = plan();
    first
        .target
        .spec
        .divert_gesture_buttons
        .push((0x00c3, ButtonId::GestureButton));
    first
        .dispatch
        .gesture_bindings
        .insert(ButtonId::GestureButton, Assoc::new());
    let mut session = live_session_from_plan(7, first.copied());

    let mut gestured = first.copied();
    let mut directions = Assoc::new();
    directions.insert(GestureDirection::Right, Action::MissionControl);
    gestured
        .dispatch
        .gesture_bindings
        .insert(ButtonId::GestureButton, directions);
    assert!(first.target.same(&gestured.target));
    assert_eq!(
        session.reconcile(Some((&gestured.target, &gestured.dispatch))),
        ReconcileAction::DispatchChanged
    );
    assert_eq!(
        session
            .dispatch()
            .gesture_bindings
            .get(&ButtonId::GestureButton)
            .and_then(|map| map.get(&GestureDirection::Right)),
        Some(&Action::MissionControl)
    );

    let mut base = gestured;
    base.dispatch
        .bindings
        .insert(ButtonId::DpiToggle, Binding::Single(Action::Copy));
    let mut session = live_session_from_plan(8, base.copied());
    let mut per_app = base.copied();
    per_app
        .dispatch
        .bindings
        .insert(ButtonId::DpiToggle, Binding::Single(Action::Paste));
    assert!(base.target.same(&per_app.target));
    assert_eq!(
        session.reconcile(Some((&per_app.target, &per_app.dispatch))),
        ReconcileAction::DispatchChanged
    );
    assert_eq!(
        session.dispatch().bindings.get(&ButtonId::DpiToggle),
        Some(&Binding::Single(Action::Paste))
    );
}

#[test]
fn wheel_configuration_changes_refresh_without_rearming_hardware() {
    let bound = |action| {
        let mut plan = plan();
        plan.dispatch
            .bindings
            .insert(ButtonId::ThumbwheelScrollUp, Binding::Single(action));
        plan
    };
    let first = bound(Action::NextTab);
    let mut session = live_session_from_plan(7, first.copied());

    let rebound = bound(Action::VolumeUp);
    assert!(
        first.target.same(&rebound.target),
        "both custom bindings require the same HID++ diversion"
    );
    assert_eq!(
        session.reconcile(Some((&rebound.target, &rebound.dispatch))),
        ReconcileAction::DispatchChanged,
        "dispatch-only binding changes must not cycle firmware diversion"
    );
    assert!(session.is_active());

    let mut rescaled = rebound.copied();
    rescaled.dispatch.thumbwheel_sensitivity = ThumbwheelSensitivity {
        percent: 10,
        threshold: 120,
    };
    assert!(rebound.target.same(&rescaled.target));
    assert_eq!(
        session.reconcile(Some((&rescaled.target, &rescaled.dispatch))),
        ReconcileAction::DispatchChanged,
        "an already-diverted wheel needs a state reset, not a hardware restart"
    );
    assert!(session.is_active());
}

#[test]
fn the_manager_arms_retires_and_recovers() {
    let mut state = GestureManagerState::new();
    let published = vec![plan()];
    assert_eq!(
        state.next_to_arm(true, true, &published, 0),
        None,
        "nothing is armed while the receiver is wanted elsewhere"
    );
    assert_eq!(state.next_to_arm(false, false, &published, 0), None);
    assert!(state
        .arm_next(true, true, &published, true, 7, 0)
        .is_none());
    assert!(!state.has_sessions());
    let id = arm(&mut state, &published, 7, 0);
    assert!(!wants_session(&state, &published, 0));
    assert!(state.has_sessions());

    let step = state.reconcile(true, true, &published, 0);
    assert!(
        step.cancelled.is_empty(),
        "retiring keeps the input lifecycles until teardown"
    );
    assert!(state.has_sessions(), "a retiring session keeps its slot");

    let context = InputContext {
        device_io_allowed: true,
        requested: true,
        published: &published,
        spaces_supported: false,
    };
    let outcome = state.handle_input(
        &physical_key(),
        &id,
        CapturedInput::ButtonPulse(ButtonId::DpiToggle),
        &context,
        0,
    );
    assert!(
        outcome.dispatched.is_some(),
        "input of a draining session still counts"
    );
    let stale = state.handle_input(
        &physical_key(),
        &session_id(6),
        CapturedInput::ButtonPulse(ButtonId::DpiToggle),
        &context,
        0,
    );
    assert!(stale.dispatched.is_none());

    let (done, _) = state.handle_done(
        &SessionDone {
            physical_key: physical_key(),
            session: id,
            pending_restore: Some(9),
        },
        true,
        100,
    );
    assert!(done.ended.is_some());
    assert!(!done.unexpected);
    assert!(state.has_pending_restores());
    assert!(!wants_session(&state, &published, 100));
    state.expedite_pending_restores(100);
    let due = state.due_restores(100);
    assert_eq!(due.len(), 1);
    assert_eq!(due[0].1, 9);
    state.restored(&physical_key(), None, 100);
    assert!(!state.has_pending_restores());
    assert!(wants_session(&state, &published, 100));
}

#[test]
fn an_unexpected_end_waits_before_it_restarts() {
    let mut state = GestureManagerState::new();
    let published = vec![plan()];
    let id = arm(&mut state, &published, 7, 0);
    let (done, _) = state.handle_done(
        &SessionDone {
            physical_key: physical_key(),
            session: id,
            pending_restore: None,
        },
        true,
        100,
    );
    assert!(done.unexpected);
    assert!(!wants_session(&state, &published, 100));
    assert_eq!(state.deadline(false, true), Some(1_100));
    assert!(wants_session(&state, &published, 1_100));
}

#[test]
fn draining_waits_for_sessions_then_restores() {
    let mut state = GestureManagerState::new();
    assert_eq!(state.drain_for_shutdown(true, true), DrainStep::Finish);
    let id = arm(&mut state, &vec![plan()], 7, 0);
    state.retire_all();
    assert_eq!(
        state.drain_for_shutdown(true, true),
        DrainStep::AwaitSession
    );
    state.handle_done(
        &SessionDone {
            physical_key: physical_key(),
            session: id,
            pending_restore: Some(9),
        },
        true,
        100,
    );
    assert_eq!(state.drain_for_shutdown(true, true), DrainStep::Restore);
    assert_eq!(
        state.drain_for_shutdown(true, false),
        DrainStep::AwaitDeviceIo
    );
    state.restored(&physical_key(), None, 100);
    assert_eq!(state.drain_for_shutdown(true, false), DrainStep::Finish);
}

#[test]
fn sessions_share_one_lease() {
    assert_eq!(acquire_session_lease(true, false), SessionLease::Shared);
    assert_eq!(acquire_session_lease(false, true), SessionLease::Fresh);
    assert_eq!(acquire_session_lease(false, false), SessionLease::Refused);
    let mut state = GestureManagerState::new();
    let published = vec![plan()];
    let refused = state
        .arm_next(false, true, &published, false, 7, 50)
        .expect("the device has to be armed");
    assert!(refused.session.is_none());
    assert!(!wants_session(&state, &published, 1_049));
    assert!(wants_session(&state, &published, 1_050));
}

fn plan_of(key: &str) -> DeviceCapturePlan {
    let mut plan = plan();
    plan.target.physical_key = PhysicalDeviceKey::new(key);
    plan
}

#[test]
fn every_published_device_ends_with_a_slot() {
    let mut state = GestureManagerState::new();
    let published = vec![plan_of("unit:1"), plan_of("unit:2"), plan_of("unit:1")];
    assert!(state
        .arm_wanted(true, true, &published, &vec![true; 3], 10, 0)
        .is_empty());
    assert!(state
        .arm_wanted(false, false, &published, &vec![true; 3], 10, 0)
        .is_empty());
    let started = state.arm_wanted(false, true, &published, &vec![true, false, true], 10, 0);
    assert_eq!(started, vec![0], "a device is armed once");
    for plan in &published {
        assert!(state.slots.contains(&plan.target.physical_key));
    }
    assert_eq!(state.next_to_arm(false, true, &published, 0), None);
    assert_eq!(state.next_to_arm(false, true, &published, 1_000), Some(1));
}

#[test]
fn adopting_a_plan_forgets_what_was_under_way() {
    let mut state = GestureManagerState::new();
    let mut gestured = plan();
    let mut directions = Assoc::new();
    directions.insert(GestureDirection::Right, Action::NextDesktop);
    gestured
        .dispatch
        .gesture_bindings
        .insert(ButtonId::GestureButton, directions);
    let published = vec![gestured.copied()];
    let id = arm(&mut state, &published, 7, 0);
    let context = InputContext {
        device_io_allowed: true,
        requested: false,
        published: &published,
        spaces_supported: true,
    };
    state.input_dispatcher
        .pressed(&id, ButtonId::GestureButton, Some(3));
    state.handle_input(
        &physical_key(),
        &id,
        CapturedInput::Gesture(ButtonId::GestureButton, GestureDirection::Right),
        &context,
        0,
    );
    let mut rebound = gestured;
    rebound
        .dispatch
        .bindings
        .insert(ButtonId::DpiToggle, Binding::Single(Action::Copy));
    let step = state.reconcile(false, true, &vec![rebound], 0);
    assert_eq!(step.cancelled.len(), 1);
    assert_eq!(step.frames.len(), 1, "the open transition is closed");
    assert_eq!(
        state.input_dispatcher.gesture_presses.get(&id, ButtonId::GestureButton),
        None
    );
}

#[test]
fn an_input_that_finds_a_new_plan_reports_whose_inputs_to_cancel() {
    let mut state = GestureManagerState::new();
    let id = arm(&mut state, &vec![plan()], 7, 0);
    let mut renamed = plan();
    renamed.dispatch.config_key = "unit:00000001".to_owned();
    let published = vec![renamed];
    let context = InputContext {
        device_io_allowed: true,
        requested: false,
        published: &published,
        spaces_supported: false,
    };
    let input = CapturedInput::ButtonPulse(ButtonId::DpiToggle);
    let first = state.handle_input(&physical_key(), &id, input, &context, 0);
    assert!(first.readopted.is_some_and(|old| old.same(&id)));
    assert!(first
        .session
        .is_some_and(|own| own.device_key() == "unit:00000001"));
    let second = state.handle_input(&physical_key(), &id, input, &context, 0);
    assert!(second.readopted.is_none());
    let step = state.reconcile(false, true, &published, 0);
    assert!(step.cancelled.is_empty(), "it was reported already");
}
