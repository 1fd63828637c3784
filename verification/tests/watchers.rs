use openlogi_agent::capture_manager::{
    completion_of, select, CaptureLoop, ManagerEvent, ManagerStep, Ready, Source,
};
use openlogi_agent::foreground_app::{
    ForegroundApp, ForegroundChanges, ForegroundWatch, WatchEvent, WatchStep,
    MACOS_RECONCILE_PERIOD,
};
use openlogi_agent::host_switch::{HostSwitchLink, HostSwitchManager};
use openlogi_agent::input_monitoring::{answered, needs_successor, request, Access, Request};
use openlogi_agent::inventory::{
    InventoryError, InventoryEvent, WatchState, INITIAL_FAILURE_LIMIT,
};
use openlogi_agent::retry::{earlier_of, pull_tick_forward, wait_for_deadline};
use openlogi_agent::route::DeviceRoute;
use openlogi_agent::shutdown::{
    completion, fleet_stopped, spawned, ManagerCompletion, StopOutcome,
};
use openlogi_agent::value::Value;

#[test]
fn completed_enumeration_is_forwarded_even_when_empty() {
    let mut state = WatchState::default();
    assert!(matches!(
        state.classify(Ok(vec![])),
        Some(InventoryEvent::Snapshot(snap)) if snap.is_empty()
    ));
    assert!(state.succeeded);
}

#[test]
fn incomplete_read_after_a_success_keeps_the_last_snapshot() {
    let mut state = WatchState::default();
    assert!(matches!(
        state.classify(Ok(vec![])),
        Some(InventoryEvent::Snapshot(_))
    ));
    assert!(state.classify(Err(InventoryError::Incomplete)).is_none());
    assert!(state.classify(Err(InventoryError::Incomplete)).is_none());
}

#[test]
fn persistent_initial_failure_reports_unavailable_once_then_recovers() {
    let mut state = WatchState::default();
    for _ in 1..INITIAL_FAILURE_LIMIT {
        assert!(state.classify(Err(InventoryError::Incomplete)).is_none());
    }
    assert!(matches!(
        state.classify(Err(InventoryError::Incomplete)),
        Some(InventoryEvent::Unavailable)
    ));
    assert!(state.classify(Err(InventoryError::Incomplete)).is_none());
    assert!(matches!(
        state.classify(Ok(vec![])),
        Some(InventoryEvent::Snapshot(_))
    ));
}

#[test]
fn a_backend_failure_counts_like_a_partial_read() {
    let mut state = WatchState::default();
    for _ in 1..INITIAL_FAILURE_LIMIT {
        assert!(state.classify(Err(InventoryError::Backend(-5))).is_none());
    }
    assert!(matches!(
        state.classify(Err(InventoryError::Backend(-5))),
        Some(InventoryEvent::Unavailable)
    ));
}

#[test]
fn a_worker_that_never_started_is_not_reported_as_stopped() {
    assert_eq!(completion(spawned(false, None)), StopOutcome::Unclean);
}

#[test]
fn explicit_completion_is_stopped() {
    let outcome = completion(Some(ManagerCompletion::Graceful));
    assert_eq!(outcome, StopOutcome::Stopped);
    assert!(outcome.is_stopped());
}

#[test]
fn dropped_completion_is_not_reported_as_stopped() {
    let outcome = completion(None);
    assert_eq!(outcome, StopOutcome::CompletionLost);
    assert!(!outcome.is_stopped());
}

#[test]
fn unexpected_manager_return_is_not_reported_as_stopped() {
    assert_eq!(
        completion(Some(ManagerCompletion::Unexpected)),
        StopOutcome::Unclean
    );
}

#[test]
fn a_fleet_has_stopped_when_every_watcher_has() {
    assert!(fleet_stopped(&vec![
        StopOutcome::Stopped,
        StopOutcome::Stopped
    ]));
    assert!(!fleet_stopped(&vec![
        StopOutcome::Stopped,
        StopOutcome::CompletionLost
    ]));
}

#[test]
fn a_grant_this_process_cannot_use_restarts_the_agent() {
    assert!(needs_successor(Access::NeedsSuccessor, true));
}

#[test]
fn a_process_that_is_still_denied_keeps_running() {
    assert!(!needs_successor(Access::NeedsSuccessor, false));
}

#[test]
fn a_revoke_never_restarts_the_agent() {
    assert!(!needs_successor(Access::Granted, false));
}

#[test]
fn a_grant_already_in_effect_never_restarts_the_agent() {
    assert!(!needs_successor(Access::Granted, true));
}

#[test]
fn an_answered_request_relaunches_only_on_a_grant() {
    assert_eq!(request(true), Request::Proceed);
    assert_eq!(request(false), Request::Ask);
    assert_eq!(answered(Some(true)), (true, true));
    assert_eq!(answered(Some(false)), (false, false));
    assert_eq!(answered(None), (false, false));
}

fn app(id: &str) -> ForegroundApp {
    ForegroundApp::unnamed(id.to_owned())
}

#[test]
fn first_snapshot_and_only_changes_are_published() {
    let mut changes = ForegroundChanges::default();

    // `None` is a real foreground snapshot, distinct from "not published".
    assert!(changes.observe(&None));
    assert!(!changes.observe(&None));
    assert!(changes.observe(&Some(app("com.example.One"))));
    assert!(!changes.observe(&Some(app("com.example.One"))));
    assert!(changes.observe(&Some(app("com.example.Two"))));
    assert!(changes.observe(&None));
}

#[test]
fn the_foreground_watcher_reads_now_and_then() {
    let mut watch = ForegroundWatch {
        changes: ForegroundChanges::default(),
        next_reconcile: 100,
    };
    assert_eq!(watch.timeout(40), 60);
    assert_eq!(watch.timeout(140), 0);
    assert!(matches!(
        watch.step(
            WatchEvent::Activated {
                first: Some(app("b")),
                queued: vec![None, Some(app("a"))]
            },
            50
        ),
        WatchStep::Publish(Some(latest)) if latest.id == "a"
    ));
    assert_eq!(watch.next_reconcile, 50 + MACOS_RECONCILE_PERIOD);
    assert!(matches!(
        watch.step(
            WatchEvent::TimedOut {
                consumer_gone: false
            },
            60_000
        ),
        WatchStep::Read
    ));
    assert!(matches!(
        watch.publish(Some(app("a")), 60_000),
        WatchStep::Wait
    ));
    assert!(matches!(
        watch.step(
            WatchEvent::TimedOut {
                consumer_gone: true
            },
            70_000
        ),
        WatchStep::Stop
    ));
    assert!(matches!(
        watch.step(WatchEvent::Disconnected, 70_000),
        WatchStep::Stop
    ));
}

fn link(pid: u16) -> HostSwitchLink {
    HostSwitchLink {
        keyboard: DeviceRoute::Direct {
            vendor_id: 0x046d,
            product_id: pid,
        },
        targets: vec![],
    }
}

#[test]
fn host_switch_links_restart_on_change_only() {
    let mut manager = HostSwitchManager::new();
    let links = vec![link(1)];
    assert_eq!(manager.tick(&links, false).map(|new| new.len()), Some(1));
    manager.started();
    assert!(manager.tick(&links, false).is_none());
    let restarted = manager
        .tick(&vec![link(1), link(2)], false)
        .expect("new links restart the sessions");
    assert!(restarted[1].same(&link(2)));
    assert_eq!(
        manager
            .tick(&vec![link(1), link(2)], true)
            .map(|new| new.len()),
        Some(0),
        "an exclusive request stops every session"
    );
}

#[test]
fn deadlines_combine_and_wait() {
    assert_eq!(earlier_of(None, None), None);
    assert_eq!(earlier_of(Some(3), None), Some(3));
    assert_eq!(earlier_of(Some(3), Some(2)), Some(2));
    assert_eq!(wait_for_deadline(None, 5), None);
    assert_eq!(wait_for_deadline(Some(9), 5), Some(4));
    assert_eq!(wait_for_deadline(Some(3), 5), Some(0));
    let mut open = true;
    assert!(pull_tick_forward(true, &mut open));
    assert!(open);
    assert!(!pull_tick_forward(false, &mut open));
    assert!(!open);
}

const QUIET: Ready = Ready {
    shutdown: false,
    event: false,
    published: false,
    requests: false,
    device_io: false,
    registry: false,
    deadline: false,
};

#[test]
fn the_manager_serves_shutdown_first_and_ignores_idle_registry() {
    let all = Ready {
        shutdown: true,
        event: true,
        published: true,
        requests: true,
        device_io: true,
        registry: true,
        deadline: true,
    };
    assert_eq!(select(all, true), Some(Source::Shutdown));
    assert_eq!(select(QUIET, true), None);
    let registry = Ready {
        registry: true,
        ..QUIET
    };
    assert_eq!(select(registry, false), None);
    assert_eq!(select(registry, true), Some(Source::Registry));
}

#[test]
fn a_paused_host_does_not_reconcile_until_it_resumes() {
    let mut run = CaptureLoop::new();
    assert!(!run.take_reconcile(false));
    run.react(
        ManagerEvent::DeviceIo {
            allowed: Some(true),
        },
        true,
    );
    assert!(run.take_reconcile(true));
    assert!(!run.take_reconcile(true));
    assert!(!run.is_overdue(Some(10), 9));
    assert!(run.is_overdue(Some(10), 10));
    assert!(run.take_reconcile(true));
    assert_eq!(
        run.react(ManagerEvent::Shutdown, true),
        ManagerStep::Drain
    );
    assert_eq!(
        completion_of(ManagerStep::Drain),
        Some(ManagerCompletion::Graceful)
    );
    assert_eq!(
        run.react(ManagerEvent::DeviceIo { allowed: None }, true),
        ManagerStep::Abandon
    );
    assert_eq!(
        completion_of(ManagerStep::Abandon),
        Some(ManagerCompletion::Unexpected)
    );
}
