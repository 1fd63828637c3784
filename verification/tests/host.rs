use openlogi_agent::activity_macos::{
    session_is_on_console, ActivityGate, GateChange, PowerState, CAPABILITY_VIDEO,
};
use openlogi_agent::battery::DeviceBattery;
use openlogi_agent::device::Severity;
use openlogi_agent::input_monitoring::Access;
use openlogi_agent::inventory::InventoryEvent;
use openlogi_agent::launchd_handoff::{
    clean_exit_marker_path, consume_marker, started_by_launchd, wait_for_predecessor, Handoff,
    LockAttempt, Removal,
};
use openlogi_agent::lifecycle::{
    apply_accessibility, arm, arms_at_once, gate, gate_wait, hook_installed,
    prompts_accessibility, request_tray_quit, AgentAction, AgentEvent, AgentLoop, ArmContext,
    ArmStep, ClientKind, GateEvent, GateStep, HookStep, ReplacementStep, TrayQuit, WatcherFleet,
    DORMANT_DEADLINE, STOP_TIMEOUT,
};
use openlogi_agent::notify::{notify, DeviceSelection, Notification, Platform};
use openlogi_agent::overlay::{
    evict_unidentified_overlay, find_on_path, overlay_binary_path, overlay_images_beside, report,
    AnonymousOutcome, ReportAction, SupervisorEvent, HELPER,
};
use openlogi_agent::permissions_macos::{bluetooth_decision, poll_bluetooth, PromptStep};
use openlogi_agent::relaunch::{helper_bundle, schedule, OPEN_BUNDLE, START_PROGRAM};
use openlogi_agent::status_item::{
    draw_contents, key_activates, row_layout, row_width, set_warning_tint, Area, Tint,
    ROW_MAX_WIDTH, ROW_MIN_WIDTH,
};
use openlogi_agent::system_mouse::{
    decode_mode, encode_mode, open, read_persistent, read_primary_button, verify,
    write_persistent, write_primary_button, LiveValue, MouseWatch, PrimaryMouseButton,
    SystemMouseSettingError, UnsupportedBackend,
};
use openlogi_agent::text::join_path;
use openlogi_agent::tray::{
    build_menu, observe_session, quit_tells_gui, DeeplinkCommand, MenuEntry, SessionEdge,
};

const DARK_WAKE: u32 = 0x19;
const FULL_WAKE: u32 = 0x1f;

#[test]
fn capability_bits_classify_by_cpu_then_video() {
    assert_eq!(PowerState::from_capabilities(0), PowerState::Sleep);
    assert_eq!(
        PowerState::from_capabilities(DARK_WAKE),
        PowerState::DarkWake
    );
    assert_eq!(
        PowerState::from_capabilities(FULL_WAKE),
        PowerState::FullWake
    );
    assert_eq!(
        PowerState::from_capabilities(CAPABILITY_VIDEO),
        PowerState::Sleep
    );
}

fn awake_on_console() -> ActivityGate {
    let mut gate = ActivityGate::new();
    gate.set_power(PowerState::FullWake);
    gate.set_on_console(true);
    gate.finish_startup();
    assert!(gate.allows_io());
    gate
}

#[test]
fn the_launch_hold_outlasts_favourable_levels() {
    let mut gate = ActivityGate::new();
    assert!(!gate.allows_io(), "startup must fail closed");
    gate.set_power(PowerState::FullWake);
    gate.set_on_console(true);
    assert!(!gate.allows_io(), "levels alone must not release the hold");
    assert_eq!(gate.finish_startup(), GateChange::Resumed);
    assert!(gate.allows_io());
}

#[test]
fn a_launch_into_a_dark_wake_stays_closed_until_the_full_wake() {
    let mut gate = ActivityGate::new();
    gate.set_power(PowerState::DarkWake);
    gate.set_on_console(true);
    gate.finish_startup();
    assert!(!gate.allows_io());
    gate.set_power(PowerState::FullWake);
    assert!(gate.allows_io());
}

#[test]
fn a_dark_wake_blip_reopens_on_the_full_wake_alone() {
    let mut gate = awake_on_console();
    gate.set_power(PowerState::DarkWake);
    assert!(!gate.allows_io());
    gate.set_power(PowerState::FullWake);
    assert!(gate.allows_io());
}

#[test]
fn sleep_closes_and_only_a_full_wake_reopens() {
    let mut gate = awake_on_console();
    gate.set_power(PowerState::Sleep);
    assert!(!gate.allows_io());
    gate.set_power(PowerState::DarkWake);
    assert!(!gate.allows_io(), "a maintenance wake is not a resume");
    gate.set_power(PowerState::FullWake);
    assert!(gate.allows_io());
}

#[test]
fn another_users_console_holds_the_gate_through_a_full_wake() {
    let mut gate = awake_on_console();
    gate.set_on_console(false);
    assert!(!gate.allows_io());
    gate.set_power(PowerState::Sleep);
    gate.set_power(PowerState::FullWake);
    assert!(
        !gate.allows_io(),
        "a wake into another user's session must not resume"
    );
    gate.set_on_console(true);
    assert!(gate.allows_io());
}

#[test]
fn a_session_switch_closes_the_gate_and_the_switch_back_reopens_it() {
    let mut gate = awake_on_console();
    observe_session(&mut gate, SessionEdge::ResignedActive);
    assert!(!gate.allows_io());
    observe_session(&mut gate, SessionEdge::BecameActive);
    assert!(gate.allows_io());
}

#[test]
fn a_power_connection_seeds_the_levels() {
    let mut gate = ActivityGate::new();
    assert!(gate.connect(Ok(DARK_WAKE)));
    assert_eq!(gate.levels.power, PowerState::DarkWake);
    gate.on_event(FULL_WAKE, true);
    gate.finish_startup();
    assert!(gate.allows_io());
    assert!(!gate.connect(Err(-1)));
    assert!(!session_is_on_console(Some(false)));
    assert!(session_is_on_console(Some(true)));
}

#[test]
fn macos_helper_bundle_is_detected_from_packaged_binary_path() {
    let binary = "/Applications/OpenLogi.app/Contents/Library/LoginItems/OpenLogi Agent.app/Contents/MacOS/openlogi-agent";
    let bundle = "/Applications/OpenLogi.app/Contents/Library/LoginItems/OpenLogi Agent.app";
    assert_eq!(helper_bundle(binary).as_deref(), Some(bundle));
    assert_eq!(helper_bundle("/tmp/openlogi-agent"), None);
}

#[test]
fn a_replacement_waits_for_its_predecessor() {
    let arguments = schedule(
        "/tmp/openlogi-agent",
        42,
        &vec!["--launchd".to_string()],
    );
    assert!(arguments.iter().any(|argument| argument == START_PROGRAM));
    assert_eq!(
        arguments[arguments.len() - 3..],
        ["42", "/tmp/openlogi-agent", "--launchd"]
    );
    let bundled = schedule(
        "/A/OpenLogi Agent.app/Contents/MacOS/openlogi-agent",
        42,
        &vec![],
    );
    assert!(bundled.iter().any(|argument| argument == OPEN_BUNDLE));
    assert_eq!(
        bundled.last().map(String::as_str),
        Some("/A/OpenLogi Agent.app")
    );
}

#[test]
fn explicit_quit_marker_stops_only_one_successor() {
    assert!(consume_marker(Removal::Removed));
    assert!(!consume_marker(Removal::Missing));
}

#[test]
fn abnormal_exit_without_a_marker_allows_handoff() {
    let consumed = consume_marker(Removal::Missing);
    assert!(!consumed);
    assert_eq!(
        wait_for_predecessor(LockAttempt::Acquired, consumed),
        Handoff::TakeOver
    );
}

#[test]
fn a_successor_waits_retries_or_stays_away() {
    assert_eq!(
        wait_for_predecessor(LockAttempt::Acquired, true),
        Handoff::StayStopped
    );
    assert_eq!(
        wait_for_predecessor(LockAttempt::AlreadyRunning, false),
        Handoff::Retry
    );
    assert_eq!(
        wait_for_predecessor(LockAttempt::Failed, false),
        Handoff::GiveUp
    );
    assert!(started_by_launchd(&vec![
        "agent".to_string(),
        "--launchd".to_string()
    ]));
    assert!(!started_by_launchd(&vec!["agent".to_string()]));
    assert_eq!(clean_exit_marker_path("/c"), "/c/launchd-clean-exit");
}

#[test]
fn nested_overlay_path_has_expected_layout() {
    let outer = "/Applications/OpenLogi.app";
    assert_eq!(
        join_path(outer, HELPER),
        "/Applications/OpenLogi.app/Contents/Library/LoginItems/OpenLogi Overlay.app/Contents/MacOS/openlogi-overlay"
    );
    assert_eq!(
        join_path(
            outer,
            "Contents/Library/LoginItems/OpenLogi Overlay.app/Contents/MacOS/openlogi-overlay"
        ),
        "/Applications/OpenLogi.app/Contents/Library/LoginItems/OpenLogi Overlay.app/Contents/MacOS/openlogi-overlay"
    );
}

#[test]
fn eviction_candidates_include_images_that_are_no_longer_installed() {
    let agent = "/Applications/OpenLogi.app/Contents/Library/LoginItems/OpenLogi Agent.app/Contents/MacOS/openlogi-agent";
    let legacy = "/Applications/OpenLogi.app/Contents/Library/LoginItems/OpenLogiOverlay.app/Contents/MacOS/openlogi-overlay";
    let images = overlay_images_beside(agent, "", true);
    assert!(
        images.iter().any(|image| image == legacy),
        "the pre-rename image must stay a candidate: {images:?}"
    );
}

#[test]
fn path_search_returns_none_for_an_impossible_name() {
    let directories = vec!["/usr/bin".to_string(), "/bin".to_string()];
    let candidates = find_on_path(&directories, "openlogi-overlay-this-file-does-not-exist");
    assert_eq!(candidates.len(), 2);
    let is_file = vec![false; candidates.len()];
    assert_eq!(overlay_binary_path(&candidates, &is_file), None);
}

#[test]
fn the_first_installed_overlay_wins() {
    let images = vec!["/a".to_string(), "/b".to_string(), "/c".to_string()];
    assert_eq!(
        overlay_binary_path(&images, &vec![false, true, true]),
        Some(1)
    );
}

#[test]
fn an_anonymous_tenant_is_pressed_once() {
    let mut pressed = false;
    assert_eq!(
        report(SupervisorEvent::Superseded, &mut pressed),
        ReportAction::Evict
    );
    assert_eq!(
        report(SupervisorEvent::SupersededAnonymously, &mut pressed),
        ReportAction::EvictUnidentified
    );
    assert_eq!(
        report(SupervisorEvent::SupersededAnonymously, &mut pressed),
        ReportAction::Quiet
    );
    assert_eq!(
        evict_unidentified_overlay(&vec![AnonymousOutcome::NoCandidate, AnonymousOutcome::Asked]),
        Some(1)
    );
    assert_eq!(
        evict_unidentified_overlay(&vec![AnonymousOutcome::NoCandidate]),
        None
    );
}

#[test]
fn unsupported_backend_declines_the_capability() {
    assert!(!UnsupportedBackend::is_available());
    assert!(matches!(
        UnsupportedBackend::read(),
        Err(SystemMouseSettingError::Unsupported)
    ));
    assert!(matches!(
        UnsupportedBackend::set(PrimaryMouseButton::Right),
        Err(SystemMouseSettingError::Unsupported)
    ));
}

#[test]
fn hid_pointer_modes_match_macos_values() {
    assert_eq!(encode_mode(PrimaryMouseButton::Left), 2);
    assert_eq!(encode_mode(PrimaryMouseButton::Right), 1);
    assert_eq!(decode_mode(2).ok(), Some(PrimaryMouseButton::Left));
    assert_eq!(decode_mode(1).ok(), Some(PrimaryMouseButton::Right));
    let Err(_) = decode_mode(0) else {
        panic!("unknown IOHID mode must be rejected");
    };
}

#[test]
fn a_written_mouse_setting_is_read_back() {
    let (left, right) = (PrimaryMouseButton::Left, PrimaryMouseButton::Right);
    assert_eq!(verify(left, Ok(left), Ok(left)), Ok(left));
    assert_eq!(
        verify(left, Ok(right), Ok(left)),
        Err(SystemMouseSettingError::LiveMismatch {
            live: right,
            requested: left
        })
    );
    assert_eq!(
        verify(left, Ok(left), Ok(right)),
        Err(SystemMouseSettingError::PersistentMismatch {
            persistent: right,
            requested: left
        })
    );
    assert_eq!(
        verify(left, Err(SystemMouseSettingError::NoValue), Ok(left)),
        Err(SystemMouseSettingError::NoValue)
    );
    assert_eq!(
        decode_mode(9),
        Err(SystemMouseSettingError::UnrecognizedMode(9))
    );
}

#[test]
fn native_mouse_failures_say_what_failed() {
    let failed = open(true, true, 0xe000_02bc).unwrap_err();
    assert_eq!(failed.message(), "IOServiceOpen failed with 0xe00002bc");
    assert_eq!(
        open(false, true, 0),
        Err(SystemMouseSettingError::NoMatching)
    );
    assert_eq!(open(true, false, 0), Err(SystemMouseSettingError::NoService));
    assert_eq!(open(true, true, 0), Ok(()));
    assert_eq!(
        read_primary_button(0, LiveValue::Mode(1)),
        Ok(PrimaryMouseButton::Right)
    );
    assert_eq!(
        read_primary_button(0, LiveValue::Mode(-7))
            .unwrap_err()
            .message(),
        "unrecognized HIDPointerButtonMode value -7"
    );
    assert_eq!(
        read_primary_button(5, LiveValue::Missing)
            .unwrap_err()
            .message(),
        "IOHIDCopyCFTypeParameter failed with 0x00000005"
    );
    assert_eq!(
        read_primary_button(0, LiveValue::Missing),
        Err(SystemMouseSettingError::NoValue)
    );
    assert_eq!(
        read_primary_button(0, LiveValue::Other),
        Err(SystemMouseSettingError::NotANumber)
    );
    assert_eq!(
        read_primary_button(0, LiveValue::Large),
        Err(SystemMouseSettingError::NotAnInteger)
    );
    assert!(write_primary_button(0).is_ok());
    assert!(write_primary_button(1).is_err());
    assert_eq!(
        read_persistent(true, true),
        Ok(PrimaryMouseButton::Right)
    );
    assert_eq!(
        read_persistent(false, true),
        Err(SystemMouseSettingError::PreferenceAbsent)
    );
    assert_eq!(
        write_persistent(false),
        Err(SystemMouseSettingError::PreferenceRejected)
    );
    let mismatch = SystemMouseSettingError::LiveMismatch {
        live: PrimaryMouseButton::Left,
        requested: PrimaryMouseButton::Right,
    };
    assert_eq!(
        mismatch.message(),
        "IOHIDSystem verification returned Left after requesting Right"
    );
}

#[test]
fn the_mouse_poll_reports_changes_and_recovery_once() {
    let mut watch = MouseWatch::new();
    let first = watch.poll(Ok(PrimaryMouseButton::Left));
    assert_eq!(first.publish, Some(PrimaryMouseButton::Left));
    assert_eq!(watch.poll(Ok(PrimaryMouseButton::Left)).publish, None);
    assert!(watch.poll(Err(SystemMouseSettingError::NoService)).broke);
    assert!(!watch.poll(Err(SystemMouseSettingError::NoService)).broke);
    assert!(watch.poll(Ok(PrimaryMouseButton::Right)).recovered);
}

#[test]
fn the_startup_gate_waits_for_a_real_client() {
    assert!(arms_at_once(true, true));
    assert!(!arms_at_once(false, true));
    assert!(arms_at_once(false, false));
    assert_eq!(gate(GateEvent::Demand(ClientKind::Gui)), GateStep::Arm);
    assert_eq!(gate(GateEvent::Demand(ClientKind::Overlay)), GateStep::Stay);
    assert_eq!(gate(GateEvent::Deadline), GateStep::Leave);
    assert_eq!(gate(GateEvent::Signal), GateStep::Leave);
    assert_eq!(gate(GateEvent::Uninstalled), GateStep::Leave);
    assert_eq!(gate_wait(100, 150), DORMANT_DEADLINE - 50);
    assert_eq!(gate_wait(100, 100 + DORMANT_DEADLINE + 1), 0);
}

#[test]
fn the_hook_follows_the_permission() {
    assert_eq!(apply_accessibility(true, false, true), HookStep::Start);
    assert_eq!(apply_accessibility(true, true, true), HookStep::Keep);
    assert_eq!(apply_accessibility(false, true, true), HookStep::Stop);
    assert_eq!(apply_accessibility(true, false, false), HookStep::Disabled);
    assert!(hook_installed(HookStep::Start, true));
    assert!(!hook_installed(HookStep::Start, false));
    assert!(!hook_installed(HookStep::Stop, false));
    assert!(prompts_accessibility(true, false));
    assert!(!prompts_accessibility(false, false));
    assert!(!prompts_accessibility(true, true));
}

fn agent_loop() -> AgentLoop {
    AgentLoop {
        inventory_open: true,
        camera_open: true,
        hook_installed: false,
        capture_mouse_events: true,
        access: Access::NeedsSuccessor,
        resume_pending: false,
    }
}

#[test]
fn agent_events_become_actions() {
    let mut run = agent_loop();
    assert!(matches!(
        run.run(AgentEvent::Inventory(Some(InventoryEvent::SystemWake))),
        AgentAction::ReapplyOnNextRefresh
    ));
    run.resumed();
    assert!(matches!(
        run.run(AgentEvent::Inventory(Some(InventoryEvent::Snapshot(vec![])))),
        AgentAction::RefreshInventory { reapply: true, .. }
    ));
    assert!(matches!(
        run.run(AgentEvent::Inventory(Some(InventoryEvent::Unavailable))),
        AgentAction::MarkInventoryUnavailable
    ));
    assert!(matches!(
        run.run(AgentEvent::Inventory(None)),
        AgentAction::MarkInventoryUnavailable
    ));
    assert!(!run.inventory_open);
    assert!(matches!(
        run.run(AgentEvent::Camera(Some(true))),
        AgentAction::SetCameraActive(true)
    ));
    assert!(matches!(
        run.run(AgentEvent::Camera(None)),
        AgentAction::Wait
    ));
    assert!(!run.camera_open);
    assert!(matches!(
        run.run(AgentEvent::Foreground {
            profile_changed: true
        }),
        AgentAction::CancelButtons
    ));
    assert!(matches!(
        run.run(AgentEvent::Accessibility(true)),
        AgentAction::Hook(HookStep::Start)
    ));
    run.hook_changed(true);
    assert!(run.hook_installed);
    assert!(matches!(
        run.run(AgentEvent::InputMonitoring(true)),
        AgentAction::PublishInputMonitoring {
            granted: true,
            restart: true
        }
    ));
    assert!(matches!(
        run.run(AgentEvent::Uninstalled),
        AgentAction::ShutDown
    ));
    assert!(matches!(run.run(AgentEvent::Signal), AgentAction::ShutDown));
}

#[test]
fn losing_select_polls_retains_completion_and_its_failure_status() {
    for stopped in [false, true] {
        let mut fleet = WatcherFleet::Running;
        assert_eq!(
            fleet.begin_replacement("replacement-agent"),
            ReplacementStep::Drain
        );
        let (path, actual) = fleet.replacement_ready(stopped).expect("a drain is under way");
        assert_eq!(actual, stopped);
        assert_eq!(path, "replacement-agent");
        assert!(matches!(fleet, WatcherFleet::Inactive));
        assert!(fleet.replacement_ready(stopped).is_none());
    }
}

#[test]
fn an_overlapping_replacement_keeps_the_drain_and_exits_are_bounded() {
    let mut fleet = WatcherFleet::Running;
    assert_eq!(fleet.stop_for_exit(), Some(STOP_TIMEOUT));
    fleet.begin_replacement("replacement-agent");
    assert_eq!(
        fleet.begin_replacement("other-agent"),
        ReplacementStep::RetryLater
    );
    assert_eq!(fleet.stop_for_exit(), Some(STOP_TIMEOUT));
    assert_eq!(
        fleet.replacement_ready(true),
        Some(("replacement-agent".to_string(), true))
    );
    assert_eq!(fleet.stop_for_exit(), None);
}

#[test]
fn a_tray_quit_needs_a_listening_core() {
    assert_eq!(request_tray_quit(true, true), TrayQuit::WaitForCore);
    assert_eq!(request_tray_quit(true, false), TrayQuit::ExitDirectly);
    assert_eq!(request_tray_quit(false, false), TrayQuit::ExitDirectly);
}

#[test]
fn the_menu_ends_with_quit() {
    let menu = build_menu();
    assert!(matches!(
        menu[0],
        MenuEntry::Item {
            command: DeeplinkCommand::Show,
            ..
        }
    ));
    assert!(matches!(
        menu[menu.len() - 1],
        MenuEntry::Item {
            command: DeeplinkCommand::Quit,
            ..
        }
    ));
    assert!(!quit_tells_gui(false, false));
    assert!(quit_tells_gui(true, false));
    assert!(quit_tells_gui(false, true));
}

#[test]
fn bluetooth_consent_is_polled_until_it_is_answered() {
    assert_eq!(bluetooth_decision(3), Some(true));
    assert_eq!(bluetooth_decision(1), Some(false));
    assert_eq!(bluetooth_decision(2), Some(false));
    assert_eq!(bluetooth_decision(0), None);
    assert_eq!(poll_bluetooth(0, 10, 20), PromptStep::Wait);
    assert_eq!(poll_bluetooth(0, 20, 20), PromptStep::Answer(false));
    assert_eq!(poll_bluetooth(3, 30, 20), PromptStep::Answer(true));
}

fn row(percentage: Option<u8>, charging: bool, severity: Severity) -> DeviceBattery {
    DeviceBattery {
        key: "k".into(),
        name: "Lift".into(),
        percentage,
        charging,
        severity,
    }
}

#[test]
fn a_status_row_is_drawn_by_severity() {
    let style = draw_contents(&row(Some(30), false, Severity::Normal), false);
    assert_eq!(style.value, "30%");
    assert!(!style.bolt);
    let charging = draw_contents(&row(Some(30), true, Severity::Normal), false);
    assert!(charging.bolt);
    let selected = draw_contents(&row(Some(30), false, Severity::Normal), true);
    assert_eq!(selected.foreground, Tint::SelectedText);
    assert_eq!(set_warning_tint(Severity::Normal), None);
    assert_eq!(set_warning_tint(Severity::Low), Some(Tint::Orange));
    assert_eq!(set_warning_tint(Severity::Critical), Some(Tint::Red));
    assert_eq!(row_width(0), ROW_MIN_WIDTH);
    assert_eq!(row_width(10_000), ROW_MAX_WIDTH);
    assert!(key_activates("\r"));
    assert!(key_activates(" "));
    assert!(!key_activates("a"));
}

#[test]
fn notifications_show_on_windows_only() {
    assert!(matches!(
        notify(Platform::Windows, "a", "b"),
        Notification::Show { title, body } if title == "a" && body == "b"
    ));
    assert!(matches!(
        notify(Platform::Linux, "a", "b"),
        Notification::LogOnly { .. }
    ));
    let mut selection = DeviceSelection::new();
    assert!(!selection.request("k".into()));
    assert!(selection.init());
    assert!(!selection.init());
    assert!(selection.request("k".into()));
    assert_eq!(selection.requested.as_deref(), Some("k"));
}

#[test]
fn a_status_row_is_laid_out_from_the_right() {
    let layout = row_layout((260_000, 26_000), (22_000, 12_000), true);
    assert_eq!(
        layout.outline,
        Area {
            x: 194_000,
            y: 4_000,
            width: 44_000,
            height: 18_000
        }
    );
    assert_eq!(
        layout.name,
        Area {
            x: 20_000,
            y: 5_000,
            width: 162_000,
            height: 20_000
        }
    );
    assert_eq!(layout.value_at, (199_500, 7_000));
    assert_eq!(layout.bolt[0], (233_000, 7_000));
    assert_eq!(layout.bolt.len(), 6);
    let idle = row_layout((260_000, 26_000), (22_000, 12_000), false);
    assert_eq!(idle.value_at, (205_000, 7_000));
    assert!(idle.bolt.is_empty());
}

#[test]
fn arming_asks_before_it_opens_devices() {
    let mut context = ArmContext {
        macos: true,
        capture_mouse_events: true,
        has_accessibility: false,
        has_input_monitoring: false,
    };
    assert_eq!(
        arm(context),
        vec![
            ArmStep::ReleaseTray,
            ArmStep::StartOverlay,
            ArmStep::PromptAccessibility,
            ArmStep::RequestInputMonitoring,
            ArmStep::StartHidppWatchers,
            ArmStep::StartStateWatchers,
        ]
    );
    context.macos = false;
    context.capture_mouse_events = false;
    assert_eq!(
        arm(context),
        vec![
            ArmStep::StartOverlay,
            ArmStep::StartHidppWatchers,
            ArmStep::StartStateWatchers,
        ]
    );
}
