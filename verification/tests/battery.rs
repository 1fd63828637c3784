use openlogi_agent::battery::{
    Alert, BatteryPreferences, BatteryWords, DeviceBattery, History, Observation, State,
    MAX_READING_AGE,
};
use openlogi_agent::device::{
    BatteryFreshness, BatteryInfo, BatteryLevel, BatteryStatus, Severity,
};

fn observation(percentage: u8) -> Observation {
    Observation {
        key: "unit:01020304".into(),
        history_key: Some("unit:01020304".into()),
        session_key: "receiver:receiver:slot:1:model:keyboard".into(),
        online: true,
        name: "Keyboard".into(),
        battery: Some(BatteryInfo {
            percentage,
            level: BatteryLevel::Good,
            status: BatteryStatus::Discharging,
            freshness: BatteryFreshness::Current,
        }),
        preferences: BatteryPreferences::default(),
    }
}

fn anonymous(percentage: u8) -> Observation {
    let mut observation = observation(percentage);
    observation.history_key = None;
    observation
}

/// Where the history is kept between two runs of the agent.
struct Disk(Option<History>);

fn read_with(
    state: &mut State,
    disk: Option<&mut Disk>,
    observations: Vec<Observation>,
    now: u64,
) -> Vec<Alert> {
    state.observed_at = Some(now);
    state.observations = observations;
    let out = state.reconcile(now);
    if let Some(disk) = disk {
        if out.save {
            disk.0 = Some(state.history.copy());
            state.saved();
        }
    }
    out.alerts
}

fn read(state: &mut State, observation: Observation, now: u64) -> Vec<Alert> {
    read_with(state, None, vec![observation], now)
}

#[test]
fn discharge_episode_survives_reconnect_restart_and_brief_charging() {
    let mut disk = Disk(None);
    let now = 1_000;
    let mut state = State::new(None);
    assert_eq!(
        read_with(&mut state, Some(&mut disk), vec![observation(20)], now).len(),
        1
    );
    assert!(read_with(&mut state, Some(&mut disk), vec![observation(8)], now).is_empty());
    read_with(&mut state, Some(&mut disk), vec![], now);
    let mut state = State::new(disk.0.take());
    assert!(read(&mut state, observation(8), now).is_empty());
    let mut charging = observation(8);
    charging.battery.as_mut().unwrap().status = BatteryStatus::Charging;
    assert!(read(&mut state, charging, now).is_empty());
    assert_eq!(state.snapshot.severity, Severity::Normal);
    assert!(read(&mut state, observation(8), now).is_empty());
    assert!(read(&mut state, observation(25), now).is_empty());
    assert!(read(&mut state, observation(20), now).is_empty());
    assert!(read(&mut state, observation(26), now).is_empty());
    assert_eq!(read(&mut state, observation(20), now).len(), 1);
}

#[test]
fn hidden_devices_warn_but_muted_visible_devices_do_not_color_brand() {
    let mut state = State::new(None);
    let now = 1_000;
    let mut hidden = observation(8);
    hidden.preferences.show_in_menu = false;
    assert_eq!(read(&mut state, hidden, now).len(), 1);
    assert!(state.snapshot.devices.is_empty());
    assert_eq!(state.snapshot.severity, Severity::Critical);
    let mut muted = observation(8);
    muted.preferences.warn_low = false;
    assert!(read(&mut state, muted, now).is_empty());
    assert_eq!(state.snapshot.devices[0].severity, Severity::Critical);
    assert_eq!(state.snapshot.severity, Severity::Normal);
}

#[test]
fn cache_replay_missing_readings_and_expired_inventory_never_warn() {
    let mut state = State::new(None);
    let now = 1_000;
    let mut cached = observation(8);
    cached.battery.as_mut().unwrap().freshness = BatteryFreshness::Cached;
    assert!(read(&mut state, cached, now).is_empty());
    assert_eq!(state.snapshot.devices[0].percentage, None);
    let mut missing = observation(8);
    missing.battery = None;
    assert!(read(&mut state, missing, now).is_empty());
    assert_eq!(state.snapshot.devices[0].percentage, None);
    read(&mut state, observation(70), now);
    state.observations = vec![observation(8)];
    assert!(state
        .reconcile(now + MAX_READING_AGE + 1_000)
        .alerts
        .is_empty());
    assert_eq!(state.snapshot.devices[0].percentage, None);
    assert_eq!(state.snapshot.severity, Severity::Normal);
    assert!(!state
        .history
        .warned
        .contains(&"unit:01020304".to_string()));
}

#[test]
fn anonymous_devices_do_not_inherit_persisted_warning_history() {
    let mut disk = Disk(None);
    let mut state = State::new(None);
    assert_eq!(
        read_with(&mut state, Some(&mut disk), vec![anonymous(8)], 1_000).len(),
        1
    );
    let mut restarted = State::new(disk.0.take());
    assert_eq!(read(&mut restarted, anonymous(8), 1_000).len(), 1);
    assert!(restarted.history.warned.is_empty());
}

#[test]
fn removed_anonymous_pairing_does_not_suppress_its_replacement() {
    let mut state = State::new(None);
    let now = 1_000;
    assert_eq!(read(&mut state, anonymous(8), now).len(), 1);
    assert!(read(&mut state, anonymous(8), now).is_empty());
    let mut sleeping = anonymous(8);
    sleeping.online = false;
    assert!(read(&mut state, sleeping, now).is_empty());
    assert!(state.snapshot.devices.is_empty());
    assert_eq!(state.snapshot.severity, Severity::Normal);
    assert!(read(&mut state, anonymous(8), now).is_empty());
    state.observations.clear();
    state.reconcile(now);
    assert_eq!(read(&mut state, anonymous(8), now).len(), 1);
}

#[test]
fn changed_anonymous_model_starts_a_new_warning_episode() {
    let mut state = State::new(None);
    let now = 1_000;
    assert_eq!(read(&mut state, anonymous(8), now).len(), 1);
    let mut mouse = anonymous(8);
    mouse.session_key = "receiver:receiver:slot:1:model:mouse".into();
    assert_eq!(read(&mut state, mouse, now).len(), 1);
    assert_eq!(state.session.warned.len(), 1);
}

#[test]
fn temporary_save_failure_is_retried_without_another_battery_transition() {
    let mut disk = Disk(None);
    let mut state = State::new(None);
    let now = 1_000;
    assert_eq!(read(&mut state, observation(8), now).len(), 1);
    assert!(disk.0.is_none());
    assert!(read_with(&mut state, Some(&mut disk), vec![observation(8)], now).is_empty());
    let mut restarted = State::new(disk.0.take());
    assert!(read(&mut restarted, observation(8), now).is_empty());
}

#[test]
fn a_saved_history_is_not_saved_again() {
    let mut state = State::new(None);
    state.observed_at = Some(5);
    state.observations = vec![observation(8)];
    assert!(state.reconcile(5).save);
    assert!(state.reconcile(5).save);
    state.saved();
    assert!(!state.reconcile(5).save);
}

#[test]
fn an_inventory_that_is_gone_or_old_is_unreadable() {
    let mut state = State::new(None);
    let out = state.refresh_inventory(vec![observation(60)], 10);
    assert!(out.changed);
    assert_eq!(state.snapshot.devices[0].percentage, Some(60));
    assert!(!state.refresh_preferences(vec![observation(60)], 20).changed);
    assert!(!state.expire(10 + MAX_READING_AGE).changed);
    assert!(state.expire(10 + MAX_READING_AGE + 1).changed);
    assert_eq!(state.snapshot.devices[0].percentage, None);
    let mut state = State::new(None);
    state.refresh_inventory(vec![observation(60)], 10);
    assert!(state.invalidate(11).changed);
    assert_eq!(state.snapshot.devices[0].percentage, None);
}

#[test]
fn the_accessible_label_reads_name_value_and_state() {
    let words = BatteryWords {
        unknown: "unknown".into(),
        charging: "charging".into(),
        low: "low".into(),
        critical: "critical".into(),
    };
    let device = |percentage, charging, severity| DeviceBattery {
        key: "k".into(),
        name: "Lift".into(),
        percentage,
        charging,
        severity,
    };
    assert_eq!(
        device(Some(30), false, Severity::Normal).accessible_label(&words),
        "Lift: 30%"
    );
    assert_eq!(
        device(Some(15), true, Severity::Normal).accessible_label(&words),
        "Lift: 15%, charging"
    );
    assert_eq!(
        device(Some(15), false, Severity::Low).accessible_label(&words),
        "Lift: 15%, low"
    );
    assert_eq!(
        device(Some(5), false, Severity::Critical).accessible_label(&words),
        "Lift: 5%, critical"
    );
    assert_eq!(
        device(None, false, Severity::Normal).accessible_label(&words),
        "Lift: unknown"
    );
}

#[test]
fn several_devices_warn_once_each_over_many_passes() {
    let other = |percentage| {
        let mut other = observation(percentage);
        other.key = "unit:0a0b0c0d".into();
        other.history_key = Some("unit:0a0b0c0d".into());
        other.name = "Mouse".into();
        other
    };
    let mut state = State::new(None);
    let mut names = Vec::new();
    for (mine, theirs) in [(30, 18), (20, 17), (12, 30), (25, 15), (8, 9)] {
        let alerts = read_with(&mut state, None, vec![observation(mine), other(theirs)], 1_000);
        names.extend(alerts.into_iter().map(|alert| alert.name));
    }
    assert_eq!(names, ["Mouse", "Keyboard", "Mouse"]);
}
