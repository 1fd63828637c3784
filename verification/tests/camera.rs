use openlogi_agent::camera::{
    camera_in_use, holds_camera, macos_camera_in_use, status_of, usage_stamp, CameraDebouncer,
    CameraProbe, ClientStamps, ConsentStore, DeviceReading, Reading, Scan,
};

#[test]
fn inactive_transition_requires_two_consecutive_samples() {
    let mut debouncer = CameraDebouncer::default();
    assert_eq!(debouncer.observe(false), Some(false));
    assert_eq!(debouncer.observe(true), Some(true));
    assert_eq!(debouncer.observe(false), None);
    assert_eq!(debouncer.observe(false), Some(false));
}

#[test]
fn active_sample_cancels_pending_inactive_transition() {
    let mut debouncer = CameraDebouncer::default();
    assert_eq!(debouncer.observe(true), Some(true));
    assert_eq!(debouncer.observe(false), None);
    assert_eq!(debouncer.observe(true), None);
    assert_eq!(debouncer.observe(false), None);
    assert_eq!(debouncer.observe(false), Some(false));
}

#[test]
fn probe_error_cancels_pending_inactive_transition() {
    let mut debouncer = CameraDebouncer::default();
    assert_eq!(debouncer.observe(true), Some(true));
    assert_eq!(debouncer.observe(false), None);
    debouncer.retain_last_state_after_probe_error();
    assert_eq!(debouncer.observe(false), None);
    assert_eq!(debouncer.observe(false), Some(false));
}

#[test]
fn use_outranks_a_failure_which_outranks_silence() {
    assert!(Scan::Holding.merge(Scan::Unreadable(5)).is_holding());
    assert!(Scan::Unreadable(5).merge(Scan::Holding).is_holding());
    assert!(Scan::Holding.merge(Scan::NoneHolding).is_holding());
    assert_eq!(
        Scan::NoneHolding
            .merge(Scan::Unreadable(5))
            .unreadable_status(),
        Some(5)
    );
    assert_eq!(
        Scan::Unreadable(5)
            .merge(Scan::NoneHolding)
            .unreadable_status(),
        Some(5)
    );
    assert!(!Scan::NoneHolding.merge(Scan::NoneHolding).is_holding());
    assert_eq!(
        Scan::NoneHolding
            .merge(Scan::NoneHolding)
            .unreadable_status(),
        None
    );
}

#[test]
fn a_readable_hive_does_not_speak_for_one_that_failed() {
    assert_eq!(
        Scan::NoneHolding.merge(Scan::Unreadable(5)).answer(),
        Err(5)
    );
    assert_eq!(Scan::Holding.merge(Scan::Unreadable(5)).answer(), Ok(true));
}

#[test]
fn silence_from_every_hive_is_an_answer_rather_than_a_failure() {
    assert_eq!(Scan::NoneHolding.answer(), Ok(false));
}

#[test]
fn an_unreadable_entry_does_not_read_as_an_idle_one() {
    let unreadable = Scan::NoneHolding.merge(Scan::Unreadable(5));
    assert!(!unreadable.is_holding());
    assert!(unreadable.unreadable_status().is_some());
}

const STARTED: u64 = 133_000_000_000_000_000;
const STOPPED: u64 = 133_000_000_050_000_000;

#[test]
fn a_started_session_with_no_stop_stamp_is_in_use() {
    assert!(holds_camera(STARTED, 0));
}

#[test]
fn a_finished_session_is_not_in_use() {
    assert!(!holds_camera(STARTED, STOPPED));
}

#[test]
fn permission_granted_but_never_used_is_not_in_use() {
    assert!(!holds_camera(0, 0));
}

fn client(started: u64, stopped: u64) -> Reading<ClientStamps> {
    Reading::Found(ClientStamps {
        started: Reading::Found(started),
        stopped: Reading::Found(stopped),
    })
}

fn store(clients: Vec<Reading<ClientStamps>>) -> Reading<ConsentStore> {
    Reading::Found(ConsentStore {
        clients,
        non_packaged: Reading::Missing,
    })
}

#[test]
fn a_missing_stamp_is_zero_and_a_failed_one_is_its_status() {
    assert_eq!(usage_stamp(&Reading::Missing), Ok(0));
    assert_eq!(usage_stamp(&Reading::Found(7)), Ok(7));
    assert_eq!(usage_stamp(&Reading::Failed(13)), Err(13));
    assert_eq!(status_of(None), -1);
    assert_eq!(status_of(Some(5)), 5);
}

#[test]
fn a_held_camera_is_found_behind_failures() {
    let user = store(vec![
        Reading::Failed(5),
        Reading::Missing,
        client(STARTED, 0),
    ]);
    assert_eq!(camera_in_use(&user, &Reading::Missing), Ok(true));
}

#[test]
fn the_machine_hive_and_unpackaged_clients_count() {
    let machine = Reading::Found(ConsentStore {
        clients: vec![client(STARTED, STOPPED)],
        non_packaged: Reading::Found(vec![client(STARTED, 0)]),
    });
    assert_eq!(
        camera_in_use(&store(vec![client(0, 0)]), &machine),
        Ok(true)
    );
    assert_eq!(
        camera_in_use(&store(vec![client(0, 0)]), &Reading::Failed(6)),
        Err(6)
    );
    assert_eq!(camera_in_use(&Reading::Missing, &Reading::Missing), Ok(false));
    assert_eq!(
        camera_in_use(&Reading::Failed(6), &Reading::Failed(7)),
        Err(6)
    );
}

fn probe(size: u32, used: u32, devices: Vec<DeviceReading>) -> CameraProbe {
    CameraProbe {
        size_status: 0,
        size,
        list_status: 0,
        list_used: used,
        devices,
    }
}

fn answer(status: i32, used: u32, running: u32) -> DeviceReading {
    DeviceReading {
        status,
        used,
        running,
    }
}

#[test]
fn core_media_answers_are_judged() {
    assert_eq!(macos_camera_in_use(&probe(0, 0, vec![])), Ok(false));
    assert_eq!(macos_camera_in_use(&probe(6, 0, vec![])), Err(-1));
    assert_eq!(macos_camera_in_use(&probe(8, 12, vec![])), Err(-1));
    assert_eq!(
        macos_camera_in_use(&probe(8, 8, vec![answer(3, 0, 0), answer(0, 4, 1)])),
        Ok(true)
    );
    assert_eq!(
        macos_camera_in_use(&probe(8, 8, vec![answer(3, 0, 0), answer(0, 4, 0)])),
        Ok(false)
    );
    assert_eq!(
        macos_camera_in_use(&probe(8, 8, vec![answer(3, 0, 0), answer(0, 2, 0)])),
        Err(-1)
    );
    assert_eq!(
        macos_camera_in_use(&probe(8, 8, vec![answer(3, 0, 0), answer(9, 0, 0)])),
        Err(9)
    );
    let mut refused = probe(8, 8, vec![]);
    refused.size_status = 42;
    assert_eq!(macos_camera_in_use(&refused), Err(42));
    refused.size_status = 0;
    refused.list_status = 43;
    assert_eq!(macos_camera_in_use(&refused), Err(43));
}
