use openlogi_agent::device::BatteryStatus;
use openlogi_agent::dpi::{dpi_steps, DpiCapabilities};
use openlogi_agent::json_api::WriteError;
use openlogi_agent::mock_agent::{
    agent_status, draining_battery, next_pairing, settings_key, PairingCommandError, PollStep,
    SmartShiftMode, SmartShiftStatus, State, DIRECT_PID, KEYBOARD_SLOT, LOGITECH_VID, MOUSE_SLOT,
    OFFLINE_SLOT, PAIRING_HOLD, RECEIVER_UID,
};
use openlogi_agent::mock_profile::{
    built_in_profile, judge_command, standalone_light, standalone_route, supported_dpi,
    LightCapabilities, LightCommand, LightValueRange, LightValueUnit, ProfileSetting,
};
use openlogi_agent::route::DeviceRoute;
use openlogi_agent::value::Value;

fn bolt(slot: u8) -> DeviceRoute {
    DeviceRoute::Bolt {
        receiver_uid: RECEIVER_UID.to_string(),
        slot,
    }
}

#[test]
fn settings_belong_to_their_routes() {
    assert_eq!(settings_key(&bolt(MOUSE_SLOT)), Some(MOUSE_SLOT));
    assert_eq!(
        settings_key(&DeviceRoute::Bolt {
            receiver_uid: "OTHER".into(),
            slot: 1
        }),
        None
    );
    let state = State::new();
    assert!(state.read_dpi(&bolt(MOUSE_SLOT)).is_ok());
    assert!(matches!(
        state.read_dpi(&bolt(KEYBOARD_SLOT)),
        Err(WriteError::FeatureUnsupported { .. })
    ));
    assert!(matches!(
        state.read_dpi(&bolt(OFFLINE_SLOT)),
        Err(WriteError::FeatureUnsupported { .. })
    ));
    assert!(matches!(
        state.read_dpi(&bolt(9)),
        Err(WriteError::DeviceNotFound)
    ));
}

#[test]
fn a_written_dpi_reads_back_snapped() {
    let mut state = State::new();
    state
        .set_dpi(&bolt(MOUSE_SLOT), 1_234)
        .expect("the mouse has a sensor");
    let read = state.read_dpi(&bolt(MOUSE_SLOT)).unwrap();
    assert_eq!(
        read.current,
        read.capabilities.nearest(1_234),
        "a sensor takes the nearest step"
    );
}

#[test]
fn a_written_smartshift_reads_back() {
    let mut state = State::new();
    let wanted = SmartShiftStatus {
        mode: SmartShiftMode::FreeSpin,
        auto_disengage: 33,
        tunable_torque: 44,
    };
    state.set_smartshift(&bolt(MOUSE_SLOT), wanted).unwrap();
    assert_eq!(
        state.read_smartshift(&bolt(MOUSE_SLOT)).unwrap(),
        wanted
    );
}

#[test]
fn pairing_walks_through_its_script() {
    let mut state = State::new();
    assert_eq!(
        state.cancel_pairing(),
        Err(PairingCommandError::NoActiveSession)
    );
    state.start_pairing().unwrap();
    assert_eq!(
        state.start_pairing(),
        Err(PairingCommandError::AlreadyActive)
    );
    assert!(state.discover());
    let address = state
        .pairing
        .as_ref()
        .and_then(|session| session.discovered.as_ref())
        .map(|found| found.address)
        .expect("a device was found");
    assert!(matches!(
        state.pair_device([9; 6]),
        Err(PairingCommandError::UnknownDevice)
    ));
    let name = state.pair_device(address).unwrap();
    let before = state.render_inventory(0)[0].paired.len();
    let slot = state.finish_pairing(&name).expect("the session was active");
    let inventory = state.render_inventory(0);
    assert_eq!(inventory[0].paired.len(), before + 1);
    assert!(inventory[0].paired.iter().any(|paired| paired.slot == slot));
    assert!(state.finish_pairing(&name).is_none());
    state.start_pairing().unwrap();
    assert_eq!(
        state.finish_pairing("Another"),
        Some(slot + 1),
        "the next device gets the next slot"
    );
}

#[test]
fn the_mock_reports_two_inventories_and_a_draining_mouse() {
    let state = State::new();
    let inventories = state.render_inventory(0);
    assert_eq!(inventories.len(), 2);
    assert_eq!(inventories[1].receiver.vendor_id, LOGITECH_VID);
    assert_eq!(inventories[1].receiver.product_id, DIRECT_PID);
    let early = draining_battery(0);
    let later = draining_battery(10_000);
    assert!(later.percentage <= early.percentage);
    assert_eq!(early.status, BatteryStatus::Discharging);
    assert_eq!(next_pairing(0, true), PollStep::Answer);
    assert_eq!(next_pairing(0, false), PollStep::Wait);
    assert_eq!(next_pairing(PAIRING_HOLD, false), PollStep::GiveUp);
    let status = agent_status(true, 3, "9.9.9");
    assert!(status.launch_at_login);
    assert_eq!(status.agent_version, "9.9.9-mock");
}

#[test]
fn dpi_values_snap_to_the_nearest() {
    assert!(DpiCapabilities::new(vec![]).is_err());
    let steps = dpi_steps(200, 50, 4);
    assert_eq!(steps[0], 200);
    let capabilities = DpiCapabilities::new(steps).unwrap();
    assert_eq!(capabilities.nearest(0), 200);
    assert_eq!(capabilities.nearest(226), 250);
    assert_eq!(capabilities.nearest(225), 200, "a tie takes the lower");
}

fn light() -> LightCapabilities {
    LightCapabilities {
        power: true,
        brightness: Some(LightValueRange::new(20, 250, 1, LightValueUnit::Percent).unwrap()),
        temperature: Some(LightValueRange::new(2700, 6500, 100, LightValueUnit::Kelvin).unwrap()),
        color: false,
        zones: false,
    }
}

#[test]
fn light_commands_are_judged_by_capability_then_range() {
    assert!(judge_command(&light(), LightCommand::Power(true)).is_ok());
    assert!(judge_command(&light(), LightCommand::TemperatureKelvin(2700)).is_ok());
    assert!(matches!(
        judge_command(&light(), LightCommand::TemperatureKelvin(2600)),
        Err(WriteError::InvalidLightValue { value: 2600, .. })
    ));
    let mut dark = light();
    dark.power = false;
    dark.temperature = None;
    assert!(matches!(
        judge_command(&dark, LightCommand::Power(true)),
        Err(WriteError::LightUnsupported { .. })
    ));
    assert!(matches!(
        judge_command(&dark, LightCommand::TemperatureKelvin(3000)),
        Err(WriteError::LightUnsupported { .. })
    ));
}

#[test]
fn the_built_in_profile_is_whole() {
    let profile = built_in_profile().expect("its ranges and steps are valid");
    let light = standalone_light().unwrap();
    let route = standalone_route(&light);
    assert!(profile
        .standalone
        .iter()
        .any(|device| standalone_route(device).same(&route)));
    assert!(profile
        .validate_light_command(&route, LightCommand::Power(true))
        .is_ok());
    assert!(matches!(
        profile.validate_light_command(&bolt(MOUSE_SLOT), LightCommand::Power(true)),
        Err(_)
    ));
    assert!(matches!(
        supported_dpi(800, vec![400, 800]),
        Ok(ProfileSetting::Supported(info)) if info.current == 800
    ));
    assert!(supported_dpi(800, vec![]).is_err());
}
