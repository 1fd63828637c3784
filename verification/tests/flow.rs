use openlogi_agent::edge::{
    classify, triggers_for, CursorPosition, DisplayBounds, EdgeObservation, EdgeStateMachine,
    EdgeZone, FlowPlacements, FlowSide, ZoneTrigger,
};
use openlogi_agent::flow::{
    effective_triggers, fast_switch, hosts_of, AfterFire, FastOutcome, FlowAction, FlowSpec,
    FlowTriggerMode, FlowWatch, LeaseState,
};
use openlogi_agent::route::DeviceRoute;

const DWELL: u64 = 50;
const COOLDOWN: u64 = 500;

fn points(value: f64) -> i64 {
    (value * 1000.0) as i64
}

fn display(id: u64, x: f64, y: f64, w: f64, h: f64) -> DisplayBounds {
    DisplayBounds {
        id,
        x: points(x),
        y: points(y),
        width: points(w),
        height: points(h),
    }
}

fn single_display() -> Vec<DisplayBounds> {
    vec![display(1, 0.0, 0.0, 1920.0, 1080.0)]
}

fn right_to_host_1() -> Vec<ZoneTrigger> {
    let mut placements = FlowPlacements::default();
    placements.set(FlowSide::Right, Some(1));
    triggers_for(&placements)
}

fn at(x: f64, y: f64) -> CursorPosition {
    CursorPosition {
        x: points(x),
        y: points(y),
    }
}

fn tick(machine: &mut EdgeStateMachine, point: CursorPosition, now: u64) -> EdgeObservation {
    machine.observe(
        point,
        &single_display(),
        &right_to_host_1(),
        DWELL,
        COOLDOWN,
        now,
    )
}

#[test]
fn a_side_covers_its_edge_and_both_corners() {
    let mut placements = FlowPlacements::default();
    placements.set(FlowSide::Left, Some(2));
    let triggers = triggers_for(&placements);
    let zones: Vec<_> = triggers.iter().map(|trigger| trigger.zone).collect();
    assert_eq!(
        zones,
        [EdgeZone::Left, EdgeZone::TopLeft, EdgeZone::BottomLeft]
    );
    assert!(triggers.iter().all(|trigger| trigger.host == 2));
}

#[test]
fn a_shared_corner_belongs_to_the_earlier_side_deterministically() {
    let mut placements = FlowPlacements::default();
    placements.set(FlowSide::Right, Some(1));
    placements.set(FlowSide::Top, Some(2));
    let triggers = triggers_for(&placements);
    let top_right = triggers
        .iter()
        .find(|trigger| trigger.zone == EdgeZone::TopRight)
        .expect("shared corner must stay bound");
    assert_eq!(top_right.host, 1);
    assert!(triggers
        .iter()
        .any(|trigger| trigger.zone == EdgeZone::Top && trigger.host == 2));
    assert_eq!(triggers.len(), 5, "3 + 3 zones minus the shared corner");
}

#[test]
fn pending_precedes_fire_through_the_dwell() {
    let mut machine = EdgeStateMachine::default();
    let start = 10_000;
    assert_eq!(
        tick(&mut machine, at(1919.5, 500.0), start),
        EdgeObservation::Pending { host: 1 }
    );
    assert_eq!(
        tick(&mut machine, at(1919.5, 500.0), start + DWELL / 2),
        EdgeObservation::Pending { host: 1 }
    );
    assert_eq!(
        tick(&mut machine, at(1919.5, 500.0), start + DWELL),
        EdgeObservation::Fire { host: 1 }
    );
}

#[test]
fn zero_dwell_fires_on_entry() {
    let mut machine = EdgeStateMachine::default();
    let fired = machine.observe(
        at(1919.5, 500.0),
        &single_display(),
        &right_to_host_1(),
        0,
        COOLDOWN,
        10_000,
    );
    assert_eq!(fired, EdgeObservation::Fire { host: 1 });
}

#[test]
fn stays_spent_and_silent_until_the_cursor_leaves_the_zone() {
    let mut machine = EdgeStateMachine::default();
    let start = 10_000;
    tick(&mut machine, at(1919.5, 500.0), start);
    assert_eq!(
        tick(&mut machine, at(1919.5, 500.0), start + DWELL),
        EdgeObservation::Fire { host: 1 }
    );
    assert_eq!(
        tick(
            &mut machine,
            at(1919.5, 500.0),
            start + DWELL + COOLDOWN * 10
        ),
        EdgeObservation::Idle
    );
}

#[test]
fn leaving_and_reentering_rearms_but_respects_the_cooldown() {
    let mut machine = EdgeStateMachine::default();
    let start = 10_000;
    tick(&mut machine, at(1919.5, 500.0), start);
    assert_eq!(
        tick(&mut machine, at(1919.5, 500.0), start + DWELL),
        EdgeObservation::Fire { host: 1 }
    );
    let reentry = start + DWELL + 100;
    assert_eq!(
        tick(&mut machine, at(900.0, 500.0), reentry),
        EdgeObservation::Idle
    );
    tick(&mut machine, at(1919.5, 500.0), reentry);
    assert_eq!(
        tick(&mut machine, at(1919.5, 500.0), reentry + DWELL),
        EdgeObservation::Pending { host: 1 },
        "cooldown must debounce a quick second push"
    );
    let after_cooldown = start + DWELL + COOLDOWN;
    assert_eq!(
        tick(&mut machine, at(1919.5, 500.0), after_cooldown),
        EdgeObservation::Fire { host: 1 }
    );
}

#[test]
fn unmapped_zones_are_idle() {
    let mut machine = EdgeStateMachine::default();
    let start = 10_000;
    assert_eq!(
        tick(&mut machine, at(0.0, 500.0), start),
        EdgeObservation::Idle
    );
    assert_eq!(
        tick(&mut machine, at(0.0, 500.0), start + DWELL * 5),
        EdgeObservation::Idle
    );
}

#[test]
fn leaving_the_display_entirely_rearms() {
    let mut machine = EdgeStateMachine::default();
    let start = 10_000;
    tick(&mut machine, at(1919.5, 500.0), start);
    assert_eq!(
        tick(&mut machine, at(1919.5, 500.0), start + DWELL),
        EdgeObservation::Fire { host: 1 }
    );
    assert_eq!(
        tick(&mut machine, at(-5000.0, -5000.0), start + DWELL),
        EdgeObservation::Idle
    );
    let back = start + DWELL + COOLDOWN;
    tick(&mut machine, at(1919.5, 500.0), back);
    assert_eq!(
        tick(&mut machine, at(1919.5, 500.0), back + DWELL),
        EdgeObservation::Fire { host: 1 }
    );
}

fn classify_points(x: f64, y: f64, width: f64, height: f64) -> Option<EdgeZone> {
    classify(points(x), points(y), points(width), points(height))
}

#[test]
fn corners_win_over_their_edges() {
    assert_eq!(
        classify_points(1919.5, 0.5, 1920.0, 1080.0),
        Some(EdgeZone::TopRight)
    );
    assert_eq!(
        classify_points(0.5, 1079.5, 1920.0, 1080.0),
        Some(EdgeZone::BottomLeft)
    );
    assert_eq!(
        classify_points(1919.5, 500.0, 1920.0, 1080.0),
        Some(EdgeZone::Right)
    );
    assert_eq!(
        classify_points(500.0, 0.5, 1920.0, 1080.0),
        Some(EdgeZone::Top)
    );
    assert_eq!(classify_points(500.0, 500.0, 1920.0, 1080.0), None);
}

#[test]
fn a_corner_push_switches_like_its_edge() {
    let mut machine = EdgeStateMachine::default();
    let start = 10_000;
    tick(&mut machine, at(1919.5, 1.0), start);
    assert_eq!(
        tick(&mut machine, at(1919.5, 1.0), start + DWELL),
        EdgeObservation::Fire { host: 1 }
    );
}

#[test]
fn switching_zones_without_leaving_does_not_refire() {
    let mut machine = EdgeStateMachine::default();
    let start = 10_000;
    let displays = single_display();
    let triggers = right_to_host_1();
    machine.observe(
        at(1919.5, 500.0),
        &displays,
        &triggers,
        DWELL,
        COOLDOWN,
        start,
    );
    assert_eq!(
        machine.observe(
            at(1919.5, 500.0),
            &displays,
            &triggers,
            DWELL,
            COOLDOWN,
            start + DWELL
        ),
        EdgeObservation::Fire { host: 1 }
    );
    let later = start + DWELL + COOLDOWN * 2;
    machine.observe(
        at(1919.5, 1.0),
        &displays,
        &triggers,
        DWELL,
        COOLDOWN,
        later,
    );
    assert_eq!(
        machine.observe(
            at(1919.5, 1.0),
            &displays,
            &triggers,
            DWELL,
            COOLDOWN,
            later + DWELL
        ),
        EdgeObservation::Idle
    );
}

#[test]
fn dwell_restarts_when_the_zone_changes() {
    let mut placements = FlowPlacements::default();
    placements.set(FlowSide::Right, Some(1));
    placements.set(FlowSide::Bottom, Some(2));
    let triggers = triggers_for(&placements);
    let mut machine = EdgeStateMachine::default();
    let start = 10_000;
    let displays = single_display();
    machine.observe(
        at(1919.5, 500.0),
        &displays,
        &triggers,
        DWELL,
        COOLDOWN,
        start,
    );
    let jump = start + DWELL - 10;
    machine.observe(
        at(900.0, 1079.5),
        &displays,
        &triggers,
        DWELL,
        COOLDOWN,
        jump,
    );
    assert_eq!(
        machine.observe(
            at(900.0, 1079.5),
            &displays,
            &triggers,
            DWELL,
            COOLDOWN,
            start + DWELL
        ),
        EdgeObservation::Pending { host: 2 },
        "the old zone's dwell must not carry over"
    );
    assert_eq!(
        machine.observe(
            at(900.0, 1079.5),
            &displays,
            &triggers,
            DWELL,
            COOLDOWN,
            jump + DWELL
        ),
        EdgeObservation::Fire { host: 2 }
    );
}

#[test]
fn the_same_zone_of_another_display_restarts_the_dwell() {
    let displays = vec![
        display(1, 0.0, 0.0, 1920.0, 1080.0),
        display(2, 1920.0, 0.0, 1920.0, 1080.0),
    ];
    let triggers = right_to_host_1();
    let mut machine = EdgeStateMachine::default();
    machine.observe(at(1919.5, 500.0), &displays, &triggers, DWELL, COOLDOWN, 0);
    assert_eq!(
        machine.observe(
            at(3839.5, 500.0),
            &displays,
            &triggers,
            DWELL,
            COOLDOWN,
            DWELL
        ),
        EdgeObservation::Pending { host: 1 }
    );
}

#[test]
fn plain_edge_mode_ignores_ctrl_state() {
    let triggers = right_to_host_1();
    for ctrl in [None, Some(false), Some(true)] {
        assert_eq!(
            effective_triggers(FlowTriggerMode::Edge, ctrl, &triggers),
            triggers.as_slice()
        );
    }
}

#[test]
fn ctrl_edge_mode_requires_a_provably_held_ctrl() {
    let triggers = right_to_host_1();
    assert_eq!(
        effective_triggers(FlowTriggerMode::CtrlEdge, Some(true), &triggers),
        triggers.as_slice()
    );
    assert!(effective_triggers(FlowTriggerMode::CtrlEdge, Some(false), &triggers).is_empty());
    assert!(effective_triggers(FlowTriggerMode::CtrlEdge, None, &triggers).is_empty());
}

fn spec() -> FlowSpec {
    FlowSpec {
        triggers: right_to_host_1(),
        trigger_mode: FlowTriggerMode::Edge,
        pointer: DeviceRoute::Direct {
            vendor_id: 0x046d,
            product_id: 0xb034,
        },
        followers: vec![DeviceRoute::Bolt {
            receiver_uid: "receiver".to_string(),
            slot: 3,
        }],
    }
}

#[test]
fn a_fire_switches_aborts_or_commits() {
    assert_eq!(
        fast_switch(&vec![Some(true), Some(false)], Some(true)),
        FastOutcome::Switched
    );
    assert_eq!(fast_switch(&vec![], Some(false)), FastOutcome::Switched);
    assert_eq!(
        fast_switch(&vec![Some(false), None], Some(true)),
        FastOutcome::AbortedCleanly
    );
    assert_eq!(fast_switch(&vec![], None), FastOutcome::AbortedCleanly);
    assert_eq!(
        fast_switch(&vec![Some(true), None], None),
        FastOutcome::Committed
    );
    assert_eq!(
        fast_switch(&vec![Some(true), None], Some(true)),
        FastOutcome::Switched
    );
}

#[test]
fn the_watcher_acquires_fires_and_releases() {
    let mut watch = FlowWatch::new();
    let spec = spec();
    let displays = single_display();
    let edge = Some(at(1919.5, 500.0));
    assert_eq!(
        watch.watch(&spec, edge, None, &displays, false, 1_000),
        FlowAction::AcquireLease
    );
    assert_eq!(
        watch.watch(&spec, edge, None, &displays, false, 1_016),
        FlowAction::Wait
    );
    assert_eq!(
        watch.watch(&spec, edge, None, &displays, false, 1_050),
        FlowAction::Fire {
            host: 1,
            lease_requested: true,
            prepared: false
        }
    );
    assert_eq!(watch.fired(None), AfterFire::SwitchStrictly);
    assert_eq!(
        watch.watch(&spec, edge, None, &displays, false, 1_066),
        FlowAction::Wait
    );
    assert_eq!(
        watch.fired(Some(FastOutcome::Committed)),
        AfterFire::PressForward
    );
    assert_eq!(watch.fired(Some(FastOutcome::Switched)), AfterFire::Done);
}

#[test]
fn leaving_the_edge_gives_the_lease_back() {
    let mut watch = FlowWatch::new();
    let spec = spec();
    let displays = single_display();
    watch.watch(
        &spec,
        Some(at(1919.5, 500.0)),
        None,
        &displays,
        false,
        1_000,
    );
    assert_eq!(
        watch.watch(&spec, Some(at(900.0, 500.0)), None, &displays, false, 1_016),
        FlowAction::ReleaseLease
    );
    assert_eq!(watch.lease, LeaseState::Idle);
    assert!(!watch.disarm());
}

#[test]
fn pairing_keeps_flow_from_arming_and_firing() {
    let mut watch = FlowWatch::new();
    let spec = spec();
    let displays = single_display();
    let edge = Some(at(1919.5, 500.0));
    assert_eq!(
        watch.watch(&spec, edge, None, &displays, true, 1_000),
        FlowAction::Wait
    );
    assert_eq!(
        watch.watch(&spec, edge, None, &displays, true, 1_050),
        FlowAction::Wait
    );
    assert_eq!(
        watch.watch(&spec, edge, None, &displays, false, 9_000),
        FlowAction::Wait,
        "a dropped fire stays spent"
    );
}

#[test]
fn preparing_is_all_or_nothing_and_paced() {
    let mut watch = FlowWatch::new();
    let spec = spec();
    assert!(!watch.should_prepare(&spec, 1_000, true));
    assert!(watch.should_prepare(&spec, 1_000, false));
    assert!(!watch.prepare_flow(&spec, true, &vec![false]));
    assert!(!watch.should_prepare(&spec, 5_999, false));
    assert!(watch.should_prepare(&spec, 6_000, false));
    assert!(!watch.prepare_flow(&spec, true, &vec![]));
    assert!(watch.prepare_flow(&spec, true, &vec![true]));
    assert!(!watch.should_prepare(&spec, 60_000, false));
    watch.disarm();
    assert!(
        !watch.should_prepare(&spec, 60_000, false),
        "the prepared switch survives disarming"
    );
    assert!(watch.should_read_displays(100));
    assert!(!watch.should_read_displays(2_099));
    assert!(watch.should_read_displays(2_100));
    assert_eq!(hosts_of(&spec.triggers), vec![1, 1, 1]);
}
