//! The built-in profile of the hardware-free agent, and its standalone light.
use vstd::prelude::*;

use crate::device::{BatteryFreshness, BatteryInfo, BatteryLevel, BatteryStatus, Capabilities,
    DeviceInventory, DeviceKind, DeviceModelInfo, DeviceTransports, InventoryModel, ModelInfoModel,
    PairedDevice, PairedModel, ReceiverInfo};
use crate::dpi::{DpiCapabilities, NoDpiValues, dpi_steps, stepped};
use crate::json_api::WriteError;
use crate::mock_agent::{DIRECT_PID, KEYBOARD_SLOT, LOGITECH_VID, MOUSE_SLOT,
    OFFLINE_SLOT, RECEIVER_UID, SmartShiftMode, bolt_offline, bolt_receiver, direct_model, reading,
    wireless};
use crate::route::{DeviceRoute, RouteModel};
use crate::value::Value;

verus! {

/// Version of the profile's schema.
pub const FIXTURE_SCHEMA_VERSION: u32 = 1;

/// Product id of the scripted light.
pub const LITRA_GLOW_PRODUCT_ID: u16 = 0xc900;

pub const SMARTSHIFT_AUTO_DISENGAGE_DEFAULT: u8 = 16;

pub const MOCK_TORQUE: u8 = 50;

// ── Lights ──────────────────────────────────────────────────────────────────

#[derive(Clone, Copy, Debug, PartialEq, Eq, Structural)]
pub enum LightValueUnit {
    Percent,
    Kelvin,
}

/// The values that a light's control takes.
#[derive(Clone, Copy, Debug, PartialEq, Eq, Structural)]
pub struct LightValueRange {
    pub min: u16,
    pub max: u16,
    pub step: u16,
    pub unit: LightValueUnit,
}

/// A range that holds no value, or that cannot be walked.
#[derive(Clone, Copy, Debug, PartialEq, Eq, Structural)]
pub struct InvalidRange;

impl LightValueRange {
    /// Whether a value lies in the range, its ends included.
    pub open spec fn holds(self, value: u16) -> bool {
        self.min <= value <= self.max
    }

    pub fn new(min: u16, max: u16, step: u16, unit: LightValueUnit) -> (range: Result<
        LightValueRange,
        InvalidRange,
    >)
        ensures
            range == (if min <= max && step > 0 {
                Ok(LightValueRange { min, max, step, unit })
            } else {
                Err(InvalidRange)
            }),
    {
        if min <= max && step > 0 {
            Ok(LightValueRange { min, max, step, unit })
        } else {
            Err(InvalidRange)
        }
    }

    pub fn contains(&self, value: u16) -> (holds: bool)
        ensures
            holds == self.holds(value),
    {
        self.min <= value && value <= self.max
    }
}

/// What a light can do.
#[derive(Clone, Copy, Debug, PartialEq, Eq, Structural)]
pub struct LightCapabilities {
    pub power: bool,
    pub brightness: Option<LightValueRange>,
    pub temperature: Option<LightValueRange>,
    pub color: bool,
    pub zones: bool,
}

/// What is asked of a light.
#[derive(Clone, Copy, Debug, PartialEq, Eq, Structural)]
pub enum LightCommand {
    Power(bool),
    BrightnessPercent(u8),
    BrightnessNative(u16),
    TemperatureKelvin(u16),
}

/// The control that a command moves.
pub open spec fn control_of(command: LightCommand) -> Seq<char> {
    match command {
        LightCommand::Power(_) => "power"@,
        LightCommand::BrightnessPercent(_) => "brightness"@,
        LightCommand::BrightnessNative(_) => "brightness"@,
        LightCommand::TemperatureKelvin(_) => "temperature"@,
    }
}

/// Whether an error says that the light lacks a command's control.
pub open spec fn lacks_control(error: WriteError, command: LightCommand) -> bool {
    error matches WriteError::LightUnsupported { control } && control@ == control_of(command)
}

/// Whether an error says that a value is out of a control's range.
pub open spec fn out_of_range(error: WriteError, name: Seq<char>, number: u16) -> bool {
    error matches WriteError::InvalidLightValue { control, value } && control@ == name && value
        == number
}

fn light_unsupported(command: LightCommand) -> (error: WriteError)
    ensures
        lacks_control(error, command),
{
    let control: &str = match command {
        LightCommand::Power(_) => "power",
        LightCommand::BrightnessPercent(_) => "brightness",
        LightCommand::BrightnessNative(_) => "brightness",
        LightCommand::TemperatureKelvin(_) => "temperature",
    };
    WriteError::LightUnsupported { control: control.to_owned() }
}

/// A device that is reached without HID++.
#[derive(Debug)]
pub struct StandaloneDevice {
    pub vendor_id: u16,
    pub product_id: u16,
    pub usage_page: u16,
    pub usage_id: u16,
    pub identity: String,
    pub display_name: String,
    pub manufacturer: Option<String>,
    pub serial_number: Option<String>,
    pub unit_id: [u8; 4],
    pub kind: DeviceKind,
    pub online: bool,
    /// What the device can do over HID++, where it speaks that at all.
    pub capabilities: Option<Capabilities>,
    pub light_capabilities: Option<LightCapabilities>,
    pub driver_id: String,
    pub registry_model_id: Option<String>,
}

/// The route to a standalone device.
pub open spec fn route_to(device: StandaloneDevice) -> RouteModel {
    RouteModel::RawHid {
        vendor_id: device.vendor_id,
        product_id: device.product_id,
        usage_page: device.usage_page,
        usage_id: device.usage_id,
        identity: device.identity@,
    }
}

/// The route to a standalone device.
pub fn standalone_route(device: &StandaloneDevice) -> (route: DeviceRoute)
    ensures
        route.model() == route_to(*device),
{
    DeviceRoute::RawHid {
        vendor_id: device.vendor_id,
        product_id: device.product_id,
        usage_page: device.usage_page,
        usage_id: device.usage_id,
        identity: device.identity.clone(),
    }
}

/// The scripted light's capabilities: 0 to 100 percent, 2700 to 6500 kelvin.
pub open spec fn litra_capabilities() -> LightCapabilities {
    LightCapabilities {
        power: true,
        brightness: Some(
            LightValueRange { min: 0, max: 100, step: 1, unit: LightValueUnit::Percent },
        ),
        temperature: Some(
            LightValueRange { min: 2700, max: 6500, step: 100, unit: LightValueUnit::Kelvin },
        ),
        color: false,
        zones: false,
    }
}

/// Whether a device is the scripted light.
pub open spec fn is_litra(device: StandaloneDevice) -> bool {
    &&& device.vendor_id == LOGITECH_VID
    &&& device.product_id == LITRA_GLOW_PRODUCT_ID
    &&& device.usage_page == 0xff43
    &&& device.usage_id == 0x0202
    &&& device.identity@ == "MOCK-LITRA-01"@
    &&& device.display_name@ == "Litra Glow"@
    &&& device.manufacturer.model() == Some("Logitech"@)
    &&& device.serial_number.model() == Some("MOCKLITRA1"@)
    &&& device.unit_id@ == seq![13u8, 14u8, 15u8, 16u8]
    &&& device.kind == DeviceKind::Unknown
    &&& device.online
    &&& device.capabilities is None
    &&& device.light_capabilities == Some(litra_capabilities())
    &&& device.driver_id@ == "litra"@
    &&& device.registry_model_id.model() == Some("8c900"@)
}

/// The scripted light.
pub fn standalone_light() -> (device: Result<StandaloneDevice, InvalidRange>)
    ensures
        device matches Ok(device) && is_litra(device),
{
    let brightness: LightValueRange = match LightValueRange::new(
        0,
        100,
        1,
        LightValueUnit::Percent,
    ) {
        Ok(range) => range,
        Err(error) => {
            return Err(error);
        },
    };
    let temperature: LightValueRange = match LightValueRange::new(
        2700,
        6500,
        100,
        LightValueUnit::Kelvin,
    ) {
        Ok(range) => range,
        Err(error) => {
            return Err(error);
        },
    };
    let unit_id: [u8; 4] = [13, 14, 15, 16];
    assert(unit_id@ =~= seq![13u8, 14u8, 15u8, 16u8]);
    Ok(
        StandaloneDevice {
            vendor_id: LOGITECH_VID,
            product_id: LITRA_GLOW_PRODUCT_ID,
            usage_page: 0xff43,
            usage_id: 0x0202,
            identity: "MOCK-LITRA-01".to_owned(),
            display_name: "Litra Glow".to_owned(),
            manufacturer: Some("Logitech".to_owned()),
            serial_number: Some("MOCKLITRA1".to_owned()),
            unit_id,
            kind: DeviceKind::Unknown,
            online: true,
            capabilities: None,
            light_capabilities: Some(
                LightCapabilities {
                    power: true,
                    brightness: Some(brightness),
                    temperature: Some(temperature),
                    color: false,
                    zones: false,
                },
            ),
            driver_id: "litra".to_owned(),
            registry_model_id: Some("8c900".to_owned()),
        },
    )
}

// ── Settings ────────────────────────────────────────────────────────────────

/// A setting that a device has, or not.
#[derive(Debug)]
pub enum ProfileSetting<T> {
    Supported(T),
    Unsupported,
}

/// Whether a device takes something that is not read back.
#[derive(Clone, Copy, Debug, PartialEq, Eq, Structural)]
pub enum ProfileSupport {
    Supported,
    Unsupported,
}

/// A resolution, and those that can be taken.
#[derive(Debug)]
pub struct DpiInfo {
    pub current: u16,
    pub capabilities: DpiCapabilities,
}

/// When SmartShift lets the wheel spin freely.
#[derive(Clone, Copy, Debug, PartialEq, Eq, Structural)]
pub enum SmartShiftAutoDisengage {
    Threshold(u8),
    Never,
}

#[derive(Clone, Copy, Debug, PartialEq, Eq, Structural)]
pub struct ProfileSmartShift {
    pub mode: SmartShiftMode,
    pub auto_disengage: SmartShiftAutoDisengage,
    pub tunable_torque: Option<u8>,
}

#[derive(Clone, Copy, Debug, PartialEq, Eq, Structural)]
pub enum ScrollResolution {
    Low,
    High,
}

#[derive(Clone, Copy, Debug, PartialEq, Eq, Structural)]
pub enum ScrollReportingTarget {
    Native,
    Diverted,
}

#[derive(Clone, Copy, Debug, PartialEq, Eq, Structural)]
pub struct ScrollWheelMode {
    pub resolution: ScrollResolution,
    pub inverted: bool,
    pub target: ScrollReportingTarget,
}

/// What one device of the profile answers.
#[derive(Debug)]
pub struct ProfileDeviceSettings {
    pub route: DeviceRoute,
    pub dpi: ProfileSetting<DpiInfo>,
    pub smartshift: ProfileSetting<ProfileSmartShift>,
    pub wheel: ProfileSetting<ScrollWheelMode>,
    /// Levels of a keyboard's backlight.
    pub backlight: ProfileSetting<u8>,
    pub lighting: ProfileSupport,
    pub light: ProfileSupport,
}

/// A profile: devices, and what they answer.
#[derive(Debug)]
pub struct DeviceProfile {
    pub schema_version: u32,
    pub id: String,
    pub name: String,
    pub inventories: Vec<DeviceInventory>,
    pub standalone: Vec<StandaloneDevice>,
    pub settings: Vec<ProfileDeviceSettings>,
}

/// Whether settings are those of a device that supports nothing.
pub open spec fn supports_nothing(settings: ProfileDeviceSettings) -> bool {
    &&& settings.dpi is Unsupported
    &&& settings.smartshift is Unsupported
    &&& settings.wheel is Unsupported
    &&& settings.backlight is Unsupported
    &&& settings.lighting == ProfileSupport::Unsupported
    &&& settings.light == ProfileSupport::Unsupported
}

/// Settings of a device that supports nothing.
pub fn unsupported_settings(route: DeviceRoute) -> (settings: ProfileDeviceSettings)
    ensures
        settings.route == route,
        supports_nothing(settings),
{
    ProfileDeviceSettings {
        route,
        dpi: ProfileSetting::Unsupported,
        smartshift: ProfileSetting::Unsupported,
        wheel: ProfileSetting::Unsupported,
        backlight: ProfileSetting::Unsupported,
        lighting: ProfileSupport::Unsupported,
        light: ProfileSupport::Unsupported,
    }
}

/// Whether a setting holds this resolution, of these that can be taken.
pub open spec fn is_dpi(setting: ProfileSetting<DpiInfo>, current: u16, values: Seq<u16>) -> bool {
    setting matches ProfileSetting::Supported(info) && info.current == current
        && info.capabilities.values@ == values
}

/// A resolution setting. It fails where there is no resolution to take.
pub fn supported_dpi(current: u16, values: Vec<u16>) -> (setting: Result<
    ProfileSetting<DpiInfo>,
    NoDpiValues,
>)
    ensures
        values@.len() == 0 ==> setting is Err,
        values@.len() > 0 ==> (setting matches Ok(setting) && is_dpi(setting, current, values@)),
{
    match DpiCapabilities::new(values) {
        Ok(capabilities) => Ok(ProfileSetting::Supported(DpiInfo { current, capabilities })),
        Err(error) => Err(error),
    }
}

/// The settings of the first device behind a route.
pub open spec fn settings_at(settings: Seq<ProfileDeviceSettings>, route: RouteModel) -> Option<
    ProfileDeviceSettings,
>
    decreases settings.len(),
{
    if settings.len() == 0 {
        None
    } else if settings[0].route.model() == route {
        Some(settings[0])
    } else {
        settings_at(settings.skip(1), route)
    }
}

/// The first standalone device behind a route.
pub open spec fn standalone_at(devices: Seq<StandaloneDevice>, route: RouteModel) -> Option<
    StandaloneDevice,
>
    decreases devices.len(),
{
    if devices.len() == 0 {
        None
    } else if route_to(devices[0]) == route {
        Some(devices[0])
    } else {
        standalone_at(devices.skip(1), route)
    }
}

/// Whether a light's verdict on a command is right.
pub open spec fn is_verdict(
    capabilities: LightCapabilities,
    command: LightCommand,
    verdict: Result<(), WriteError>,
) -> bool {
    match command {
        LightCommand::Power(_) => if capabilities.power {
            verdict is Ok
        } else {
            verdict matches Err(error) && lacks_control(error, command)
        },
        LightCommand::BrightnessPercent(value) => if capabilities.brightness is None {
            verdict matches Err(error) && lacks_control(error, command)
        } else if value > 100 {
            verdict matches Err(error) && out_of_range(error, "brightness_percent"@, value as u16)
        } else {
            verdict is Ok
        },
        LightCommand::TemperatureKelvin(value) => match capabilities.temperature {
            None => verdict matches Err(error) && lacks_control(error, command),
            Some(range) => if range.holds(value) {
                verdict is Ok
            } else {
                verdict matches Err(error) && out_of_range(error, "temperature_kelvin"@, value)
            },
        },
        LightCommand::BrightnessNative(value) => match capabilities.brightness {
            None => verdict matches Err(error) && lacks_control(error, command),
            Some(range) => if range.holds(value) {
                verdict is Ok
            } else {
                verdict matches Err(error) && out_of_range(error, "brightness_native"@, value)
            },
        },
    }
}

/// Judge a command by what a light can do.
pub fn judge_command(capabilities: &LightCapabilities, command: LightCommand) -> (verdict: Result<
    (),
    WriteError,
>)
    ensures
        is_verdict(*capabilities, command, verdict),
{
    match command {
        LightCommand::Power(_) => if capabilities.power {
            Ok(())
        } else {
            Err(light_unsupported(command))
        },
        LightCommand::BrightnessPercent(value) => {
            if capabilities.brightness.is_none() {
                Err(light_unsupported(command))
            } else if value > 100 {
                Err(
                    WriteError::InvalidLightValue {
                        control: "brightness_percent".to_owned(),
                        value: value as u16,
                    },
                )
            } else {
                Ok(())
            }
        },
        LightCommand::TemperatureKelvin(value) => match capabilities.temperature {
            Some(range) => if range.contains(value) {
                Ok(())
            } else {
                Err(
                    WriteError::InvalidLightValue {
                        control: "temperature_kelvin".to_owned(),
                        value,
                    },
                )
            },
            None => Err(light_unsupported(command)),
        },
        LightCommand::BrightnessNative(value) => match capabilities.brightness {
            Some(range) => if range.contains(value) {
                Ok(())
            } else {
                Err(
                    WriteError::InvalidLightValue {
                        control: "brightness_native".to_owned(),
                        value,
                    },
                )
            },
            None => Err(light_unsupported(command)),
        },
    }
}

impl DeviceProfile {
    fn find_settings(&self, route: &DeviceRoute) -> (at: Option<usize>)
        ensures
            at is None ==> settings_at(self.settings@, route.model()) is None,
            at matches Some(i) ==> i < self.settings@.len() && settings_at(
                self.settings@,
                route.model(),
            ) == Some(self.settings@[i as int]),
    {
        let mut i: usize = 0;
        assert(self.settings@.skip(0) =~= self.settings@);
        while i < self.settings.len()
            invariant
                i <= self.settings@.len(),
                settings_at(self.settings@, route.model()) == settings_at(
                    self.settings@.skip(i as int),
                    route.model(),
                ),
            decreases self.settings@.len() - i,
        {
            assert(self.settings@.skip(i as int)[0] == self.settings@[i as int]);
            if self.settings[i].route.same(route) {
                return Some(i);
            }
            assert(self.settings@.skip(i as int).skip(1) =~= self.settings@.skip(i + 1));
            i = i + 1;
        }
        None
    }

    fn find_standalone(&self, route: &DeviceRoute) -> (at: Option<usize>)
        ensures
            at is None ==> standalone_at(self.standalone@, route.model()) is None,
            at matches Some(i) ==> i < self.standalone@.len() && standalone_at(
                self.standalone@,
                route.model(),
            ) == Some(self.standalone@[i as int]),
    {
        let mut i: usize = 0;
        assert(self.standalone@.skip(0) =~= self.standalone@);
        while i < self.standalone.len()
            invariant
                i <= self.standalone@.len(),
                standalone_at(self.standalone@, route.model()) == standalone_at(
                    self.standalone@.skip(i as int),
                    route.model(),
                ),
            decreases self.standalone@.len() - i,
        {
            assert(self.standalone@.skip(i as int)[0] == self.standalone@[i as int]);
            let own: DeviceRoute = standalone_route(&self.standalone[i]);
            if own.same(route) {
                return Some(i);
            }
            assert(self.standalone@.skip(i as int).skip(1) =~= self.standalone@.skip(i + 1));
            i = i + 1;
        }
        None
    }

    /// Judge a command to the light behind a route: the device has to be known,
    /// to be a light, and to have said what it can do; then the command is judged
    /// by that.
    pub fn validate_light_command(&self, route: &DeviceRoute, command: LightCommand) -> (verdict:
        Result<(), WriteError>)
        ensures
            match settings_at(self.settings@, route.model()) {
                None => verdict == Err::<(), WriteError>(WriteError::DeviceNotFound),
                Some(settings) => if settings.light == ProfileSupport::Unsupported {
                    verdict matches Err(error) && lacks_control(error, command)
                } else {
                    match standalone_at(self.standalone@, route.model()) {
                        Some(device) if device.light_capabilities is Some => is_verdict(
                            device.light_capabilities->0,
                            command,
                            verdict,
                        ),
                        _ => verdict == Err::<(), WriteError>(WriteError::DeviceNotFound),
                    }
                },
            },
    {
        let at: usize = match self.find_settings(route) {
            Some(at) => at,
            None => {
                return Err(WriteError::DeviceNotFound);
            },
        };
        if self.settings[at].light == ProfileSupport::Unsupported {
            return Err(light_unsupported(command));
        }
        match self.find_standalone(route) {
            Some(at) => match &self.standalone[at].light_capabilities {
                Some(capabilities) => judge_command(capabilities, command),
                None => Err(WriteError::DeviceNotFound),
            },
            None => Err(WriteError::DeviceNotFound),
        }
    }
}

// ── The built-in profile ────────────────────────────────────────────────────

/// The profile's mouse.
pub open spec fn profile_mouse() -> PairedModel {
    PairedModel {
        slot: MOUSE_SLOT,
        codename: Some("MX Master 3S"@),
        wpid: Some(0xb034),
        kind: DeviceKind::Mouse,
        online: true,
        battery: Some(reading(80, BatteryLevel::Good, BatteryStatus::Discharging)),
        model_info: Some(
            ModelInfoModel {
                entity_count: 3,
                serial_number: Some("2140LZ00MOCK"@),
                unit_id: seq![1u8, 2u8, 3u8, 4u8],
                transports: wireless(),
                model_ids: seq![0xb034u16, 0x4082u16, 0u16],
                extended_model_id: 0x0b,
            },
        ),
        capabilities: Some(
            Capabilities {
                buttons: true,
                pointer: true,
                lighting: false,
                scroll_inversion: true,
                hires_wheel: true,
                thumbwheel: true,
                haptic_feedback: true,
                haptic_panel: true,
            },
        ),
    }
}

/// The profile's keyboard.
pub open spec fn profile_keyboard() -> PairedModel {
    PairedModel {
        slot: KEYBOARD_SLOT,
        codename: Some("MX Keys"@),
        wpid: Some(0x408a),
        kind: DeviceKind::Keyboard,
        online: true,
        battery: Some(reading(100, BatteryLevel::Full, BatteryStatus::Full)),
        model_info: Some(
            ModelInfoModel {
                entity_count: 2,
                serial_number: None,
                unit_id: seq![5u8, 6u8, 7u8, 8u8],
                transports: wireless(),
                model_ids: seq![0xb35bu16, 0x408au16, 0u16],
                extended_model_id: 0,
            },
        ),
        capabilities: Some(
            Capabilities {
                buttons: false,
                pointer: false,
                lighting: true,
                scroll_inversion: false,
                hires_wheel: false,
                thumbwheel: false,
                haptic_feedback: false,
                haptic_panel: false,
            },
        ),
    }
}

/// The profile's receiver and its devices.
pub open spec fn profile_bolt() -> InventoryModel {
    InventoryModel {
        receiver: bolt_receiver(),
        paired: seq![profile_mouse(), bolt_offline(), profile_keyboard()],
    }
}

/// The profile's receiver and its devices.
pub fn bolt_inventory() -> (inventory: DeviceInventory)
    ensures
        inventory.model() == profile_bolt(),
{
    let mouse: PairedDevice = PairedDevice {
        slot: MOUSE_SLOT,
        codename: Some("MX Master 3S".to_owned()),
        wpid: Some(0xb034),
        kind: DeviceKind::Mouse,
        online: true,
        battery: Some(
            BatteryInfo {
                percentage: 80,
                level: BatteryLevel::Good,
                status: BatteryStatus::Discharging,
                freshness: BatteryFreshness::Current,
            },
        ),
        model_info: Some(
            DeviceModelInfo {
                entity_count: 3,
                serial_number: Some("2140LZ00MOCK".to_owned()),
                unit_id: [1, 2, 3, 4],
                transports: DeviceTransports {
                    usb: false,
                    equad: true,
                    btle: true,
                    bluetooth: false,
                },
                model_ids: [0xb034, 0x4082, 0],
                extended_model_id: 0x0b,
            },
        ),
        capabilities: Some(
            Capabilities {
                buttons: true,
                pointer: true,
                lighting: false,
                scroll_inversion: true,
                hires_wheel: true,
                thumbwheel: true,
                haptic_feedback: true,
                haptic_panel: true,
            },
        ),
    };
    let offline: PairedDevice = PairedDevice {
        slot: OFFLINE_SLOT,
        codename: Some("MX Anywhere 3".to_owned()),
        wpid: Some(0x4090),
        kind: DeviceKind::Mouse,
        online: false,
        battery: None,
        model_info: None,
        capabilities: None,
    };
    let keyboard: PairedDevice = PairedDevice {
        slot: KEYBOARD_SLOT,
        codename: Some("MX Keys".to_owned()),
        wpid: Some(0x408a),
        kind: DeviceKind::Keyboard,
        online: true,
        battery: Some(
            BatteryInfo {
                percentage: 100,
                level: BatteryLevel::Full,
                status: BatteryStatus::Full,
                freshness: BatteryFreshness::Current,
            },
        ),
        model_info: Some(
            DeviceModelInfo {
                entity_count: 2,
                serial_number: None,
                unit_id: [5, 6, 7, 8],
                transports: DeviceTransports {
                    usb: false,
                    equad: true,
                    btle: true,
                    bluetooth: false,
                },
                model_ids: [0xb35b, 0x408a, 0],
                extended_model_id: 0,
            },
        ),
        capabilities: Some(
            Capabilities {
                buttons: false,
                pointer: false,
                lighting: true,
                scroll_inversion: false,
                hires_wheel: false,
                thumbwheel: false,
                haptic_feedback: false,
                haptic_panel: false,
            },
        ),
    };
    proof {
        let mouse_info = mouse.model_info->0;
        assert(mouse_info.unit_id@ =~= seq![1u8, 2u8, 3u8, 4u8]);
        assert(mouse_info.model_ids@ =~= seq![0xb034u16, 0x4082u16, 0u16]);
        let keyboard_info = keyboard.model_info->0;
        assert(keyboard_info.unit_id@ =~= seq![5u8, 6u8, 7u8, 8u8]);
        assert(keyboard_info.model_ids@ =~= seq![0xb35bu16, 0x408au16, 0u16]);
        assert(mouse.model() == profile_mouse());
        assert(offline.model() == bolt_offline());
        assert(keyboard.model() == profile_keyboard());
    }
    let mut paired: Vec<PairedDevice> = Vec::new();
    paired.push(mouse);
    paired.push(offline);
    paired.push(keyboard);
    assert(paired.model() =~= profile_bolt().paired);
    DeviceInventory {
        receiver: ReceiverInfo {
            name: "Logi Bolt Receiver".to_owned(),
            vendor_id: LOGITECH_VID,
            product_id: 0xc548,
            unique_id: Some(RECEIVER_UID.to_owned()),
        },
        paired,
    }
}

fn bolt_route(slot: u8) -> (route: DeviceRoute)
    ensures
        route.model() == (RouteModel::Bolt { receiver_uid: RECEIVER_UID@, slot }),
{
    DeviceRoute::Bolt { receiver_uid: RECEIVER_UID.to_owned(), slot }
}

/// Whether settings are those of the profile's mouse.
pub open spec fn is_mouse_settings(settings: ProfileDeviceSettings) -> bool {
    &&& settings.route.model() == (RouteModel::Bolt {
        receiver_uid: RECEIVER_UID@,
        slot: MOUSE_SLOT,
    })
    &&& is_dpi(settings.dpi, 1600, stepped(200, 50, 157))
    &&& settings.smartshift == ProfileSetting::Supported(
        ProfileSmartShift {
            mode: SmartShiftMode::Ratchet,
            auto_disengage: SmartShiftAutoDisengage::Threshold(SMARTSHIFT_AUTO_DISENGAGE_DEFAULT),
            tunable_torque: Some(MOCK_TORQUE),
        },
    )
    &&& settings.wheel == ProfileSetting::Supported(
        ScrollWheelMode {
            resolution: ScrollResolution::High,
            inverted: false,
            target: ScrollReportingTarget::Native,
        },
    )
    &&& settings.backlight is Unsupported
    &&& settings.lighting == ProfileSupport::Unsupported
    &&& settings.light == ProfileSupport::Unsupported
}

/// Whether a profile is the built-in one.
pub open spec fn is_built_in(profile: DeviceProfile) -> bool {
    &&& profile.schema_version == FIXTURE_SCHEMA_VERSION
    &&& profile.id@ == "openlogi-mock-demo"@
    &&& profile.name@ == "OpenLogi animated mock devices"@
    &&& profile.inventories@.len() == 2
    &&& profile.inventories@[0].model() == profile_bolt()
    &&& profile.inventories@[1].model() == direct_model()
    &&& profile.standalone@.len() == 1
    &&& is_litra(profile.standalone@[0])
    &&& profile.settings@.len() == 5
    &&& is_mouse_settings(profile.settings@[0])
    &&& profile.settings@[1].route.model() == (RouteModel::Bolt {
        receiver_uid: RECEIVER_UID@,
        slot: OFFLINE_SLOT,
    })
    &&& supports_nothing(profile.settings@[1])
    &&& profile.settings@[2].route.model() == (RouteModel::Bolt {
        receiver_uid: RECEIVER_UID@,
        slot: KEYBOARD_SLOT,
    })
    &&& supports_nothing(
        (ProfileDeviceSettings { lighting: ProfileSupport::Unsupported, ..profile.settings@[2] }),
    )
    &&& profile.settings@[2].lighting == ProfileSupport::Supported
    &&& profile.settings@[3].route.model() == (RouteModel::Direct {
        vendor_id: LOGITECH_VID,
        product_id: DIRECT_PID,
    })
    &&& is_dpi(profile.settings@[3].dpi, 1000, stepped(400, 100, 37))
    &&& supports_nothing(
        (ProfileDeviceSettings { dpi: ProfileSetting::Unsupported, ..profile.settings@[3] }),
    )
    &&& profile.settings@[4].route.model() == route_to(profile.standalone@[0])
    &&& supports_nothing(
        (ProfileDeviceSettings { light: ProfileSupport::Unsupported, ..profile.settings@[4] }),
    )
    &&& profile.settings@[4].light == ProfileSupport::Supported
}

/// Why the built-in profile cannot be built.
#[derive(Clone, Copy, Debug, PartialEq, Eq, Structural)]
pub enum ProfileError {
    InvalidDpi,
    InvalidRange,
}

/// The built-in profile.
pub fn built_in_profile() -> (profile: Result<DeviceProfile, ProfileError>)
    ensures
        profile matches Ok(profile) && is_built_in(profile),
{
    let standalone: StandaloneDevice = match standalone_light() {
        Ok(device) => device,
        Err(_) => {
            return Err(ProfileError::InvalidRange);
        },
    };
    let light_route: DeviceRoute = standalone_route(&standalone);
    let mouse_dpi: ProfileSetting<DpiInfo> = match supported_dpi(1600, dpi_steps(200, 50, 157)) {
        Ok(setting) => setting,
        Err(_) => {
            return Err(ProfileError::InvalidDpi);
        },
    };
    let direct_dpi: ProfileSetting<DpiInfo> = match supported_dpi(1000, dpi_steps(400, 100, 37)) {
        Ok(setting) => setting,
        Err(_) => {
            return Err(ProfileError::InvalidDpi);
        },
    };
    let mut settings: Vec<ProfileDeviceSettings> = Vec::new();
    settings.push(
        ProfileDeviceSettings {
            route: bolt_route(MOUSE_SLOT),
            dpi: mouse_dpi,
            smartshift: ProfileSetting::Supported(
                ProfileSmartShift {
                    mode: SmartShiftMode::Ratchet,
                    auto_disengage: SmartShiftAutoDisengage::Threshold(
                        SMARTSHIFT_AUTO_DISENGAGE_DEFAULT,
                    ),
                    tunable_torque: Some(MOCK_TORQUE),
                },
            ),
            wheel: ProfileSetting::Supported(
                ScrollWheelMode {
                    resolution: ScrollResolution::High,
                    inverted: false,
                    target: ScrollReportingTarget::Native,
                },
            ),
            backlight: ProfileSetting::Unsupported,
            lighting: ProfileSupport::Unsupported,
            light: ProfileSupport::Unsupported,
        },
    );
    settings.push(unsupported_settings(bolt_route(OFFLINE_SLOT)));
    let mut keyboard: ProfileDeviceSettings = unsupported_settings(bolt_route(KEYBOARD_SLOT));
    keyboard.lighting = ProfileSupport::Supported;
    settings.push(keyboard);
    let mut direct: ProfileDeviceSettings = unsupported_settings(
        DeviceRoute::Direct { vendor_id: LOGITECH_VID, product_id: DIRECT_PID },
    );
    direct.dpi = direct_dpi;
    settings.push(direct);
    let mut light: ProfileDeviceSettings = unsupported_settings(light_route);
    light.light = ProfileSupport::Supported;
    settings.push(light);
    let mut inventories: Vec<DeviceInventory> = Vec::new();
    inventories.push(bolt_inventory());
    inventories.push(crate::mock_agent::direct_inventory());
    let mut standalones: Vec<StandaloneDevice> = Vec::new();
    standalones.push(standalone);
    Ok(
        DeviceProfile {
            schema_version: FIXTURE_SCHEMA_VERSION,
            id: "openlogi-mock-demo".to_owned(),
            name: "OpenLogi animated mock devices".to_owned(),
            inventories,
            standalone: standalones,
            settings,
        },
    )
}

/// The built-in profile's light takes every command within its ranges.
pub proof fn the_scripted_light_takes_its_ranges(
    profile: DeviceProfile,
    kelvin: u16,
    percent: u8,
    verdict: Result<(), WriteError>,
)
    requires
        is_built_in(profile),
        2700 <= kelvin <= 6500,
        percent <= 100,
    ensures
        settings_at(profile.settings@, route_to(profile.standalone@[0])) == Some(
            profile.settings@[4],
        ),
        standalone_at(profile.standalone@, route_to(profile.standalone@[0])) == Some(
            profile.standalone@[0],
        ),
        is_verdict(litra_capabilities(), LightCommand::TemperatureKelvin(kelvin), verdict)
            ==> verdict is Ok,
        is_verdict(litra_capabilities(), LightCommand::BrightnessPercent(percent), verdict)
            ==> verdict is Ok,
{
    reveal_with_fuel(settings_at, 6);
    reveal_with_fuel(standalone_at, 2);
    let s = profile.settings@;
    assert(s.skip(1)[0] == s[1]);
    assert(s.skip(1).skip(1) =~= s.skip(2));
    assert(s.skip(2)[0] == s[2]);
    assert(s.skip(2).skip(1) =~= s.skip(3));
    assert(s.skip(3)[0] == s[3]);
    assert(s.skip(3).skip(1) =~= s.skip(4));
    assert(s.skip(4)[0] == s[4]);
}

// ── Laws ────────────────────────────────────────────────────────────────────

/// A light takes a command exactly where it has the control, and the value is one that the
/// control takes: up to a hundred percent, or within the control's own range, its ends
/// included.
pub proof fn lights_take_what_they_can(
    capabilities: LightCapabilities,
    on: bool,
    percent: u8,
    value: u16,
    verdict: Result<(), WriteError>,
)
    ensures
        is_verdict(capabilities, LightCommand::Power(on), verdict) ==> (verdict is Ok
            <==> capabilities.power),
        is_verdict(capabilities, LightCommand::BrightnessPercent(percent), verdict) ==> (
        verdict is Ok <==> capabilities.brightness is Some && percent <= 100),
        is_verdict(capabilities, LightCommand::BrightnessNative(value), verdict) ==> (verdict is Ok
            <==> (capabilities.brightness matches Some(range) && range.min <= value
            && value <= range.max)),
        is_verdict(capabilities, LightCommand::TemperatureKelvin(value), verdict) ==> (
        verdict is Ok <==> (capabilities.temperature matches Some(range) && range.min <= value
            && value <= range.max)),
{
}

/// A refusal says what is wrong: the control that the light lacks, by its name, or the
/// value that is out of range, with the control it was for.
pub proof fn refusals_name_the_control(
    capabilities: LightCapabilities,
    command: LightCommand,
    verdict: Result<(), WriteError>,
)
    requires
        is_verdict(capabilities, command, verdict),
        verdict is Err,
    ensures
        command is Power ==> (verdict->Err_0 matches WriteError::LightUnsupported { control }
            && control@ == "power"@),
        (command is BrightnessPercent || command is BrightnessNative)
            && capabilities.brightness is None ==> (
        verdict->Err_0 matches WriteError::LightUnsupported { control } && control@
            == "brightness"@),
        command is TemperatureKelvin && capabilities.temperature is None ==> (
        verdict->Err_0 matches WriteError::LightUnsupported { control } && control@
            == "temperature"@),
        command matches LightCommand::BrightnessPercent(percent) ==> (capabilities.brightness is Some
            ==> (verdict->Err_0 matches WriteError::InvalidLightValue { control, value } && control@
            == "brightness_percent"@ && value == percent)),
        command matches LightCommand::BrightnessNative(native) ==> (capabilities.brightness is Some
            ==> (verdict->Err_0 matches WriteError::InvalidLightValue { control, value } && control@
            == "brightness_native"@ && value == native)),
        command matches LightCommand::TemperatureKelvin(kelvin) ==> (capabilities.temperature is Some
            ==> (verdict->Err_0 matches WriteError::InvalidLightValue { control, value } && control@
            == "temperature_kelvin"@ && value == kelvin)),
{
}

/// A route leads to the first device behind it, and to none where no device is behind it.
pub proof fn routes_lead_to_the_first_device(
    settings: Seq<ProfileDeviceSettings>,
    devices: Seq<StandaloneDevice>,
    route: RouteModel,
    at: int,
)
    ensures
        0 <= at < settings.len() && settings[at].route.model() == route && (forall|i: int|
            0 <= i < at ==> (#[trigger] settings[i]).route.model() != route) ==> settings_at(
            settings,
            route,
        ) == Some(settings[at]),
        (forall|i: int| 0 <= i < settings.len() ==> (#[trigger] settings[i]).route.model() != route)
            ==> settings_at(settings, route) is None,
        0 <= at < devices.len() && route_to(devices[at]) == route && (forall|i: int|
            0 <= i < at ==> route_to(#[trigger] devices[i]) != route) ==> standalone_at(
            devices,
            route,
        ) == Some(devices[at]),
        (forall|i: int| 0 <= i < devices.len() ==> route_to(#[trigger] devices[i]) != route)
            ==> standalone_at(devices, route) is None,
    decreases settings.len() + devices.len(),
{
    if settings.len() > 0 || devices.len() > 0 {
        let fewer = if settings.len() > 0 {
            settings.skip(1)
        } else {
            settings
        };
        let rest = if devices.len() > 0 {
            devices.skip(1)
        } else {
            devices
        };
        routes_lead_to_the_first_device(fewer, rest, route, at - 1);
        if settings.len() > 0 {
            assert(forall|i: int| 0 <= i < fewer.len() ==> #[trigger] fewer[i] == settings[i + 1]);
        }
        if devices.len() > 0 {
            assert(forall|i: int| 0 <= i < rest.len() ==> #[trigger] rest[i] == devices[i + 1]);
        }
    }
}

/// The route to a standalone device carries every number by which it is told apart, and
/// its identity.
pub proof fn standalone_routes_carry_the_identity(a: StandaloneDevice, b: StandaloneDevice)
    ensures
        route_to(a) == route_to(b) <==> a.vendor_id == b.vendor_id && a.product_id == b.product_id
            && a.usage_page == b.usage_page && a.usage_id == b.usage_id && a.identity@
            == b.identity@,
{
}

/// The built-in profile agrees with itself: every device that it has settings for is one
/// of its devices, each resolution is one that can be taken, and the mouse can do more
/// than the scripted agent's.
pub proof fn the_built_in_profile_is_whole(profile: DeviceProfile)
    requires
        is_built_in(profile),
    ensures
        profile.schema_version == 1,
        profile.inventories@.len() == 2 && profile.standalone@.len() == 1
            && profile.settings@.len() == 5,
        profile.settings@[0].route.model() == (RouteModel::Bolt {
            receiver_uid: "MOCK-BOLT-01"@,
            slot: 1,
        }),
        profile.settings@[1].route.model() == (RouteModel::Bolt {
            receiver_uid: "MOCK-BOLT-01"@,
            slot: 2,
        }),
        profile.settings@[2].route.model() == (RouteModel::Bolt {
            receiver_uid: "MOCK-BOLT-01"@,
            slot: 3,
        }),
        profile.settings@[3].route.model() == (RouteModel::Direct {
            vendor_id: 0x046d,
            product_id: 0xb020,
        }),
        profile.settings@[4].route.model() == (RouteModel::RawHid {
            vendor_id: 0x046d,
            product_id: 0xc900,
            usage_page: 0xff43,
            usage_id: 0x0202,
            identity: "MOCK-LITRA-01"@,
        }),
        profile.settings@[0].dpi is Supported && profile.settings@[0].smartshift is Supported
            && profile.settings@[0].wheel is Supported,
        profile.settings@[1].dpi is Unsupported && profile.settings@[1].smartshift is Unsupported
            && profile.settings@[1].lighting == ProfileSupport::Unsupported,
        profile.settings@[2].lighting == ProfileSupport::Supported
            && profile.settings@[2].dpi is Unsupported,
        profile.settings@[3].dpi is Supported && profile.settings@[3].smartshift is Unsupported,
        profile.settings@[4].light == ProfileSupport::Supported
            && profile.settings@[4].dpi is Unsupported,
        profile.inventories@[0].model().paired.len() == 3,
        profile.inventories@[0].model().paired[0].capabilities matches Some(can) && can.thumbwheel
            && can.haptic_feedback && can.haptic_panel && can.buttons && can.pointer
            && !can.lighting,
        profile.inventories@[0].model().paired[2].capabilities matches Some(can) && can.lighting
            && !can.pointer && !can.buttons,
{
}

/// A device that supports nothing has no setting at all, and a resolution setting holds
/// the resolution and those that can be taken.
pub proof fn settings_are_what_they_say(
    settings: ProfileDeviceSettings,
    current: u16,
    values: Seq<u16>,
)
    ensures
        supports_nothing(settings) <==> settings.dpi is Unsupported
            && settings.smartshift is Unsupported && settings.wheel is Unsupported
            && settings.backlight is Unsupported && settings.lighting is Unsupported
            && settings.light is Unsupported,
        is_dpi(settings.dpi, current, values) <==> (settings.dpi matches ProfileSetting::Supported(
            info,
        ) && info.current == current && info.capabilities.values@ == values),
{
}

/// The scripted light takes power, brightness from zero to a hundred percent and
/// temperatures from 2700 to 6500 kelvin in steps of a hundred; it has neither colours nor
/// zones.
pub proof fn the_scripted_light_has_its_ranges(value: u16)
    ensures
        litra_capabilities().power,
        !litra_capabilities().color && !litra_capabilities().zones,
        litra_capabilities().brightness matches Some(range) && range.unit
            == LightValueUnit::Percent && range.step == 1 && (range.holds(value) <==> value <= 100),
        litra_capabilities().temperature matches Some(range) && range.unit
            == LightValueUnit::Kelvin && range.step == 100 && (range.holds(value) <==> 2700 <= value
            && value <= 6500),
{
}

} // verus!
