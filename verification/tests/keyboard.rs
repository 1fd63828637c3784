use openlogi_agent::binding::{Action, Binding, ButtonId};
use openlogi_agent::capture_session::{CaptureSession, ReconcileAction};
use openlogi_agent::dispatch::CapturedInput;
use openlogi_agent::keyboard::{
    binding_for_button, dispatch_input, next_deadline, profile_selected_by, wanted_session,
    GKeyProfile, GamingKeyMode, KeyboardDispatchPlan, KeyboardManager, KeyboardOutput,
    KeyboardSpec, KeyboardTarget, KeyboardTick,
};
use openlogi_agent::retry::RETRY_DELAY;
use openlogi_agent::route::{DeviceRoute, HidppSessionId};
use openlogi_agent::value::{Assoc, Value};

type RunningKeyboardSession = CaptureSession<KeyboardTarget, KeyboardDispatchPlan>;

fn target() -> KeyboardTarget {
    KeyboardTarget {
        route: DeviceRoute::Direct {
            vendor_id: 0x046d,
            product_id: 0xc548,
        },
        wanted: Assoc::new(),
        wanted_g_keys: Assoc::new(),
        wanted_aux_keys: Assoc::new(),
    }
}

fn session_id(epoch: u64) -> HidppSessionId {
    HidppSessionId::with_epoch("keyboard-a", epoch)
}

fn single(button: ButtonId, action: Action) -> Assoc<ButtonId, Binding> {
    let mut bindings = Assoc::new();
    bindings.insert(button, Binding::Single(action));
    bindings
}

fn dispatch(action: Action) -> KeyboardDispatchPlan {
    KeyboardDispatchPlan {
        config_key: "keyboard-a".to_owned(),
        bindings: single(ButtonId::KeySearch, action),
        g_key_profiles: Assoc::new(),
        gaming_key_mode: GamingKeyMode::Profiles,
        gaming_button_bindings: Assoc::new(),
    }
}

fn published() -> KeyboardSpec {
    KeyboardSpec {
        config_key: "keyboard-a".to_owned(),
        route: target().route,
        wanted: target().wanted,
        wanted_g_keys: target().wanted_g_keys,
        wanted_aux_keys: target().wanted_aux_keys,
        bindings: dispatch(Action::MissionControl).bindings,
        g_key_profiles: Assoc::new(),
        gaming_key_mode: GamingKeyMode::Profiles,
        gaming_button_bindings: Assoc::new(),
    }
}

fn live_session(epoch: u64) -> RunningKeyboardSession {
    CaptureSession::active(
        session_id(epoch),
        target(),
        dispatch(Action::MissionControl),
    )
}

fn draining_session(epoch: u64) -> RunningKeyboardSession {
    let mut session = live_session(epoch);
    assert_eq!(session.reconcile(None), ReconcileAction::Retiring);
    session
}

#[test]
fn publication_and_receiver_request_change_wanted_state_immediately() {
    assert!(wanted_session(false, None).is_none());
    let published = published();
    assert!(wanted_session(false, Some(&published)).is_some());
    assert!(
        wanted_session(true, Some(&published)).is_none(),
        "a queued request should retire capture without waiting for a tick"
    );
}

#[test]
fn keyboard_accepts_inputs_from_the_current_session_until_teardown_finishes() {
    assert!(live_session(7).owns(&session_id(7)));
    assert!(
        !live_session(7).owns(&session_id(6)),
        "a superseded session's queued input is stale"
    );
    assert!(
        draining_session(7).owns(&session_id(7)),
        "the draining keyboard remains the sole owner until restore and ordered Done"
    );
}

fn bindings_refresh() {
    let mut session = live_session(7);
    let current_target = session.target().copied();
    let new_dispatch = dispatch(Action::ShowDesktop);

    assert_eq!(
        session.reconcile(Some((&current_target, &new_dispatch))),
        ReconcileAction::DispatchChanged
    );
    assert!(session.is_active());
    assert!(session.dispatch().same(&new_dispatch));
}

#[test]
fn keyboard_binding_changes_refresh_without_rearming_hardware() {
    bindings_refresh();
}

#[test]
fn tests_binding_changes_refresh_without_rearming_hardware() {
    bindings_refresh();
}

fn targets_freeze() {
    let mut session = live_session(7);
    let old_dispatch = session.dispatch().copied();
    let mut replacement = target();
    replacement.wanted.insert(0x00d4, ButtonId::KeySearch);
    let new_dispatch = dispatch(Action::ShowDesktop);

    assert!(
        !replacement.same(session.target()),
        "the test must require different firmware capture"
    );
    assert_eq!(
        session.reconcile(Some((&replacement, &new_dispatch))),
        ReconcileAction::Retiring
    );
    assert!(!session.is_active());
    assert!(session.dispatch().same(&old_dispatch));
}

#[test]
fn keyboard_target_changes_freeze_dispatch_until_teardown_finishes() {
    targets_freeze();
}

#[test]
fn tests_target_changes_freeze_dispatch_until_teardown_finishes() {
    targets_freeze();
}

#[test]
fn suspended_device_io_disables_retry_deadlines() {
    let retry_at = 5_000 + RETRY_DELAY;

    assert_eq!(
        next_deadline(false, true, None, Some(retry_at)),
        Some(retry_at),
    );
    assert_eq!(
        next_deadline(false, false, None, Some(retry_at)),
        None,
        "keyboard retries must stay dormant until visible resume",
    );
}

#[test]
fn profiles_mode_uses_m_keys_as_selectors() {
    let mut plan = dispatch(Action::MissionControl);

    assert_eq!(
        profile_selected_by(ButtonId::KeyM2, &plan),
        Some(GKeyProfile::M2)
    );
    plan.gaming_key_mode = GamingKeyMode::NineButtons;
    assert_eq!(profile_selected_by(ButtonId::KeyM2, &plan), None);
}

#[test]
fn g_key_binding_follows_the_active_profile() {
    let mut plan = dispatch(Action::MissionControl);
    plan.g_key_profiles
        .insert(GKeyProfile::M1, single(ButtonId::KeyG1, Action::VolumeUp));
    plan.g_key_profiles
        .insert(GKeyProfile::M2, single(ButtonId::KeyG1, Action::VolumeDown));

    assert_eq!(
        binding_for_button(&plan, GKeyProfile::M1, ButtonId::KeyG1)
            .map(|binding| binding.click_action()),
        Some(Action::VolumeUp)
    );
    assert_eq!(
        binding_for_button(&plan, GKeyProfile::M2, ButtonId::KeyG1)
            .map(|binding| binding.click_action()),
        Some(Action::VolumeDown)
    );
    assert!(binding_for_button(&plan, GKeyProfile::M3, ButtonId::KeyG1).is_none());
}

#[test]
fn nine_button_mode_uses_one_independent_map_for_g_m_and_mr() {
    let mut plan = dispatch(Action::MissionControl);
    plan.gaming_key_mode = GamingKeyMode::NineButtons;
    plan.gaming_button_bindings
        .insert(ButtonId::KeyG1, Binding::Single(Action::VolumeUp));
    plan.gaming_button_bindings
        .insert(ButtonId::KeyM2, Binding::Single(Action::ShowDesktop));
    plan.gaming_button_bindings
        .insert(ButtonId::KeyMr, Binding::Single(Action::Copy));

    for (button, action) in [
        (ButtonId::KeyG1, Action::VolumeUp),
        (ButtonId::KeyM2, Action::ShowDesktop),
        (ButtonId::KeyMr, Action::Copy),
    ] {
        assert_eq!(
            binding_for_button(&plan, GKeyProfile::M3, button)
                .map(|binding| binding.click_action()),
            Some(action)
        );
    }
}

#[test]
fn keys_dispatch_through_the_plan() {
    let plan = dispatch(Action::MissionControl);
    assert_eq!(
        dispatch_input(
            CapturedInput::ButtonPulse(ButtonId::KeySearch),
            &plan,
            GKeyProfile::M1
        ),
        KeyboardOutput::ButtonPulse {
            button: ButtonId::KeySearch,
            binding: Some(Binding::Single(Action::MissionControl)),
        }
    );
    assert_eq!(
        dispatch_input(
            CapturedInput::ButtonDown(ButtonId::KeyM3),
            &plan,
            GKeyProfile::M1
        ),
        KeyboardOutput::SelectProfile(GKeyProfile::M3)
    );
    assert_eq!(
        dispatch_input(
            CapturedInput::ButtonUp(ButtonId::KeySearch),
            &plan,
            GKeyProfile::M1
        ),
        KeyboardOutput::ButtonUp {
            button: ButtonId::KeySearch
        }
    );
}

#[test]
fn the_keyboard_manager_arms_cancels_and_restores() {
    let mut manager = KeyboardManager::new();
    let wanted = wanted_session(false, Some(&published()));
    assert!(matches!(manager.manage(&None), KeyboardTick::Wait));
    assert!(matches!(manager.manage(&wanted), KeyboardTick::Arm));
    let (target, plan) = wanted_session(false, Some(&published())).unwrap();
    let id = manager.armed(target, plan, 3);
    assert!(matches!(manager.manage(&wanted), KeyboardTick::Wait));
    assert!(matches!(manager.manage(&None), KeyboardTick::Cancel(_)));
    let ended = manager.done(&id, Some(4)).expect("the session owned it");
    assert!(ended.0.same(&id));
    assert!(!ended.1, "a retired session ends as expected");
    assert!(matches!(manager.manage(&wanted), KeyboardTick::Restore(4)));
    assert!(!manager.restored(Some(5), true));
    assert!(matches!(manager.manage(&wanted), KeyboardTick::Restore(5)));
    assert!(manager.restored(None, true));
    assert!(manager.done(&id, None).is_none(), "a late report is stale");
}
