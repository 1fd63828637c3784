//! A hardware-free agent: a scripted inventory whose settings read back and whose
//! pairing runs.
use vstd::prelude::*;

use crate::device::{BatteryFreshness, BatteryInfo, BatteryLevel, BatteryStatus, Capabilities,
    DeviceInventory, DeviceKind, DeviceModelInfo, DeviceTransports, InventoryModel, ModelInfoModel,
    PairedDevice, PairedModel, ReceiverInfo, ReceiverModel};
use crate::dpi::{DpiCapabilities, dpi_steps, is_nearest, stepped};
use crate::json_api::WriteError;
use crate::route::DeviceRoute;
use crate::text::same_text;
use crate::value::{Assoc, Value, models};

verus! {

pub const LOGITECH_VID: u16 = 0x046d;

/// Unique id of the scripted receiver.
pub const RECEIVER_UID: &'static str = "MOCK-BOLT-01";

pub const MOUSE_SLOT: u8 = 1;

pub const OFFLINE_SLOT: u8 = 2;

pub const KEYBOARD_SLOT: u8 = 3;

/// Product id of the scripted directly attached mouse.
pub const DIRECT_PID: u16 = 0xb020;

/// Device index of a directly attached device.
pub const DIRECT_DEVICE_INDEX: u8 = 0xff;

/// How long discovery runs before the candidate appears. Times are in
/// milliseconds.
pub const DISCOVERY_DELAY: u64 = 1_500;

/// Pause between accepting a candidate and asking for the passkey.
pub const PASSKEY_DELAY: u64 = 800;

/// How long typing the passkey takes.
pub const PASSKEY_TYPING_DELAY: u64 = 3_000;

/// How long a poll without an update is held.
pub const PAIRING_HOLD: u64 = 2_000;

/// How often a held poll looks for an update.
pub const PAIRING_POLL_TICK: u64 = 100;

// ── Settings ────────────────────────────────────────────────────────────────

#[derive(Clone, Copy, Debug, PartialEq, Eq, Structural)]
pub enum SmartShiftMode {
    Ratchet,
    FreeSpin,
}

#[derive(Clone, Copy, Debug, PartialEq, Eq, Structural)]
pub struct SmartShiftStatus {
    pub mode: SmartShiftMode,
    pub auto_disengage: u8,
    pub tunable_torque: u8,
}

/// A device's resolution, and those it can take.
#[derive(Debug)]
pub struct DpiState {
    pub current: u16,
    pub capabilities: DpiCapabilities,
}

/// What one scripted device answers. What is missing is unsupported.
#[derive(Debug)]
pub struct DeviceSettings {
    pub dpi: Option<DpiState>,
    pub smartshift: Option<SmartShiftStatus>,
    pub lighting: bool,
}

/// What [`DeviceSettings`] hold.
pub struct SettingsModel {
    pub dpi: Option<(u16, Seq<u16>)>,
    pub smartshift: Option<SmartShiftStatus>,
    pub lighting: bool,
}

impl Value for DpiState {
    type Model = (u16, Seq<u16>);

    open spec fn model(&self) -> (u16, Seq<u16>) {
        (self.current, self.capabilities.model())
    }

    fn same(&self, other: &DpiState) -> (same: bool) {
        self.current == other.current && self.capabilities.same(&other.capabilities)
    }

    fn copied(&self) -> (copy: DpiState) {
        DpiState { current: self.current, capabilities: self.capabilities.copied() }
    }
}

impl Value for DeviceSettings {
    type Model = SettingsModel;

    open spec fn model(&self) -> SettingsModel {
        SettingsModel {
            dpi: self.dpi.model(),
            smartshift: self.smartshift,
            lighting: self.lighting,
        }
    }

    fn same(&self, other: &DeviceSettings) -> (same: bool) {
        self.dpi.same(&other.dpi) && self.smartshift == other.smartshift && self.lighting
            == other.lighting
    }

    fn copied(&self) -> (copy: DeviceSettings) {
        DeviceSettings {
            dpi: self.dpi.copied(),
            smartshift: self.smartshift,
            lighting: self.lighting,
        }
    }
}

/// Settings of a device that supports none.
pub open spec fn no_settings() -> SettingsModel {
    SettingsModel { dpi: None, smartshift: None, lighting: false }
}

impl DeviceSettings {
    pub fn unsupported() -> (settings: DeviceSettings)
        ensures
            settings.model() == no_settings(),
    {
        DeviceSettings { dpi: None, smartshift: None, lighting: false }
    }
}

/// Settings with resolutions.
pub open spec fn with_dpi(
    current: u16,
    values: Seq<u16>,
    smartshift: Option<SmartShiftStatus>,
) -> SettingsModel {
    SettingsModel { dpi: Some((current, values)), smartshift, lighting: false }
}

/// The scripted devices' settings, by device index.
pub open spec fn scripted_settings() -> Map<u8, SettingsModel> {
    Map::<u8, SettingsModel>::empty().insert(
        MOUSE_SLOT,
        with_dpi(
            1600,
            stepped(200, 50, 157),
            Some(
                SmartShiftStatus {
                    mode: SmartShiftMode::Ratchet,
                    auto_disengage: 16,
                    tunable_torque: 50,
                },
            ),
        ),
    ).insert(OFFLINE_SLOT, no_settings()).insert(
        KEYBOARD_SLOT,
        SettingsModel { dpi: None, smartshift: None, lighting: true },
    ).insert(DIRECT_DEVICE_INDEX, with_dpi(1000, stepped(400, 100, 37), None))
}

/// Whether the map's resolutions are never empty.
pub open spec fn settings_wf(settings: Map<u8, SettingsModel>) -> bool {
    forall|key: u8| #[trigger]
        settings.dom().contains(key) ==> (settings[key].dpi matches Some((_, values))
            ==> values.len() > 0)
}

// ── Inventory ───────────────────────────────────────────────────────────────

/// Percentage of the draining mouse after so many seconds: 80 down to 20, one per
/// minute, then 80 again.
pub open spec fn drained(seconds: u64) -> int {
    80 - (seconds as int / 60) % 61
}

/// The draining mouse's battery.
pub open spec fn draining(seconds: u64) -> BatteryInfo {
    BatteryInfo {
        percentage: drained(seconds) as u8,
        level: if drained(seconds) <= 10 {
            BatteryLevel::Critical
        } else if drained(seconds) <= 25 {
            BatteryLevel::Low
        } else {
            BatteryLevel::Good
        },
        status: BatteryStatus::Discharging,
        freshness: BatteryFreshness::Current,
    }
}

/// A sawtooth battery for the online mouse, with the coarse level following the
/// percentage.
pub fn draining_battery(seconds: u64) -> (battery: BatteryInfo)
    ensures
        battery == draining(seconds),
        20 <= battery.percentage <= 80,
{
    let gone: u64 = (seconds / 60) % 61;
    let percentage: u8 = 80 - (gone as u8);
    BatteryInfo {
        percentage,
        level: if percentage <= 10 {
            BatteryLevel::Critical
        } else if percentage <= 25 {
            BatteryLevel::Low
        } else {
            BatteryLevel::Good
        },
        status: BatteryStatus::Discharging,
        freshness: BatteryFreshness::Current,
    }
}

/// A battery that was just read.
pub open spec fn reading(percentage: u8, level: BatteryLevel, status: BatteryStatus) -> BatteryInfo {
    BatteryInfo { percentage, level, status, freshness: BatteryFreshness::Current }
}

/// Transports of a device that pairs with a receiver or over Bluetooth.
pub open spec fn wireless() -> DeviceTransports {
    DeviceTransports { usb: false, equad: true, btle: true, bluetooth: false }
}

/// The scripted receiver.
pub open spec fn bolt_receiver() -> ReceiverModel {
    ReceiverModel {
        name: "Logi Bolt Receiver"@,
        vendor_id: LOGITECH_VID,
        product_id: 0xc548,
        unique_id: Some(RECEIVER_UID@),
    }
}

/// The online mouse.
pub open spec fn bolt_mouse(battery: BatteryInfo) -> PairedModel {
    PairedModel {
        slot: MOUSE_SLOT,
        codename: Some("MX Master 3S"@),
        wpid: Some(0xb034),
        kind: DeviceKind::Mouse,
        online: true,
        battery: Some(battery),
        model_info: Some(
            ModelInfoModel {
                entity_count: 3,
                serial_number: Some("2140LZ00MOCK"@),
                unit_id: seq![1u8, 2u8, 3u8, 4u8],
                transports: wireless(),
                model_ids: seq![0xb034u16, 0x4082u16, 0u16],
                extended_model_id: 0x0b,
            },
        ),
        capabilities: Some(
            Capabilities {
                buttons: true,
                pointer: true,
                lighting: false,
                scroll_inversion: true,
                hires_wheel: true,
                thumbwheel: false,
                haptic_feedback: false,
                haptic_panel: false,
            },
        ),
    }
}

/// The mouse that is switched off.
pub open spec fn bolt_offline() -> PairedModel {
    PairedModel {
        slot: OFFLINE_SLOT,
        codename: Some("MX Anywhere 3"@),
        wpid: Some(0x4090),
        kind: DeviceKind::Mouse,
        online: false,
        battery: None,
        model_info: None,
        capabilities: None,
    }
}

/// The keyboard. It lights up, so that the lighting panel can be reached.
pub open spec fn bolt_keyboard() -> PairedModel {
    PairedModel {
        slot: KEYBOARD_SLOT,
        codename: Some("MX Keys"@),
        wpid: Some(0x408a),
        kind: DeviceKind::Keyboard,
        online: true,
        battery: Some(reading(100, BatteryLevel::Full, BatteryStatus::Full)),
        model_info: Some(
            ModelInfoModel {
                entity_count: 2,
                serial_number: None,
                unit_id: seq![5u8, 6u8, 7u8, 8u8],
                transports: wireless(),
                model_ids: seq![0x408au16, 0xb35bu16, 0u16],
                extended_model_id: 0,
            },
        ),
        capabilities: Some(
            Capabilities {
                buttons: false,
                pointer: false,
                lighting: true,
                scroll_inversion: false,
                hires_wheel: false,
                thumbwheel: false,
                haptic_feedback: false,
                haptic_panel: false,
            },
        ),
    }
}

/// The scripted receiver and its devices.
pub open spec fn bolt_model(battery: BatteryInfo) -> InventoryModel {
    InventoryModel {
        receiver: bolt_receiver(),
        paired: seq![bolt_mouse(battery), bolt_offline(), bolt_keyboard()],
    }
}

/// The directly attached mouse. Its stand-in receiver mirrors the device itself.
pub open spec fn direct_model() -> InventoryModel {
    InventoryModel {
        receiver: ReceiverModel {
            name: "MX Vertical"@,
            vendor_id: LOGITECH_VID,
            product_id: DIRECT_PID,
            unique_id: None,
        },
        paired: seq![
            PairedModel {
                slot: DIRECT_DEVICE_INDEX,
                codename: Some("MX Vertical"@),
                wpid: None,
                kind: DeviceKind::Mouse,
                online: true,
                battery: Some(reading(55, BatteryLevel::Good, BatteryStatus::Discharging)),
                model_info: Some(
                    ModelInfoModel {
                        entity_count: 2,
                        serial_number: None,
                        unit_id: seq![9u8, 10u8, 11u8, 12u8],
                        transports: DeviceTransports {
                            usb: true,
                            equad: false,
                            btle: true,
                            bluetooth: false,
                        },
                        model_ids: seq![DIRECT_PID, 0u16, 0u16],
                        extended_model_id: 0,
                    },
                ),
                capabilities: Some(
                    Capabilities {
                        buttons: true,
                        pointer: true,
                        lighting: false,
                        scroll_inversion: false,
                        hires_wheel: false,
                        thumbwheel: false,
                        haptic_feedback: false,
                        haptic_panel: false,
                    },
                ),
            },
        ],
    }
}

/// The scripted receiver and its devices. The mouse's battery is the one thing
/// that moves between polls.
pub fn bolt_inventory(mouse_battery: BatteryInfo) -> (inventory: DeviceInventory)
    ensures
        inventory.model() == bolt_model(mouse_battery),
{
    let mouse: PairedDevice = PairedDevice {
        slot: MOUSE_SLOT,
        codename: Some("MX Master 3S".to_owned()),
        wpid: Some(0xb034),
        kind: DeviceKind::Mouse,
        online: true,
        battery: Some(mouse_battery),
        model_info: Some(
            DeviceModelInfo {
                entity_count: 3,
                serial_number: Some("2140LZ00MOCK".to_owned()),
                unit_id: [1, 2, 3, 4],
                transports: DeviceTransports {
                    usb: false,
                    equad: true,
                    btle: true,
                    bluetooth: false,
                },
                model_ids: [0xb034, 0x4082, 0],
                extended_model_id: 0x0b,
            },
        ),
        capabilities: Some(
            Capabilities {
                buttons: true,
                pointer: true,
                lighting: false,
                scroll_inversion: true,
                hires_wheel: true,
                thumbwheel: false,
                haptic_feedback: false,
                haptic_panel: false,
            },
        ),
    };
    let offline: PairedDevice = PairedDevice {
        slot: OFFLINE_SLOT,
        codename: Some("MX Anywhere 3".to_owned()),
        wpid: Some(0x4090),
        kind: DeviceKind::Mouse,
        online: false,
        battery: None,
        model_info: None,
        capabilities: None,
    };
    let keyboard: PairedDevice = PairedDevice {
        slot: KEYBOARD_SLOT,
        codename: Some("MX Keys".to_owned()),
        wpid: Some(0x408a),
        kind: DeviceKind::Keyboard,
        online: true,
        battery: Some(
            BatteryInfo {
                percentage: 100,
                level: BatteryLevel::Full,
                status: BatteryStatus::Full,
                freshness: BatteryFreshness::Current,
            },
        ),
        model_info: Some(
            DeviceModelInfo {
                entity_count: 2,
                serial_number: None,
                unit_id: [5, 6, 7, 8],
                transports: DeviceTransports {
                    usb: false,
                    equad: true,
                    btle: true,
                    bluetooth: false,
                },
                model_ids: [0x408a, 0xb35b, 0],
                extended_model_id: 0,
            },
        ),
        capabilities: Some(
            Capabilities {
                buttons: false,
                pointer: false,
                lighting: true,
                scroll_inversion: false,
                hires_wheel: false,
                thumbwheel: false,
                haptic_feedback: false,
                haptic_panel: false,
            },
        ),
    };
    proof {
        let mouse_info = mouse.model_info->0;
        assert(mouse_info.unit_id@ =~= seq![1u8, 2u8, 3u8, 4u8]);
        assert(mouse_info.model_ids@ =~= seq![0xb034u16, 0x4082u16, 0u16]);
        let keyboard_info = keyboard.model_info->0;
        assert(keyboard_info.unit_id@ =~= seq![5u8, 6u8, 7u8, 8u8]);
        assert(keyboard_info.model_ids@ =~= seq![0x408au16, 0xb35bu16, 0u16]);
        assert(mouse.model() == bolt_mouse(mouse_battery));
        assert(offline.model() == bolt_offline());
        assert(keyboard.model() == bolt_keyboard());
    }
    let mut paired: Vec<PairedDevice> = Vec::new();
    paired.push(mouse);
    paired.push(offline);
    paired.push(keyboard);
    assert(paired.model() =~= bolt_model(mouse_battery).paired);
    DeviceInventory {
        receiver: ReceiverInfo {
            name: "Logi Bolt Receiver".to_owned(),
            vendor_id: LOGITECH_VID,
            product_id: 0xc548,
            unique_id: Some(RECEIVER_UID.to_owned()),
        },
        paired,
    }
}

/// The directly attached mouse.
pub fn direct_inventory() -> (inventory: DeviceInventory)
    ensures
        inventory.model() == direct_model(),
{
    let mouse: PairedDevice = PairedDevice {
        slot: DIRECT_DEVICE_INDEX,
        codename: Some("MX Vertical".to_owned()),
        wpid: None,
        kind: DeviceKind::Mouse,
        online: true,
        battery: Some(
            BatteryInfo {
                percentage: 55,
                level: BatteryLevel::Good,
                status: BatteryStatus::Discharging,
                freshness: BatteryFreshness::Current,
            },
        ),
        model_info: Some(
            DeviceModelInfo {
                entity_count: 2,
                serial_number: None,
                unit_id: [9, 10, 11, 12],
                transports: DeviceTransports {
                    usb: true,
                    equad: false,
                    btle: true,
                    bluetooth: false,
                },
                model_ids: [DIRECT_PID, 0, 0],
                extended_model_id: 0,
            },
        ),
        capabilities: Some(
            Capabilities {
                buttons: true,
                pointer: true,
                lighting: false,
                scroll_inversion: false,
                hires_wheel: false,
                thumbwheel: false,
                haptic_feedback: false,
                haptic_panel: false,
            },
        ),
    };
    proof {
        let info = mouse.model_info->0;
        assert(info.unit_id@ =~= seq![9u8, 10u8, 11u8, 12u8]);
        assert(info.model_ids@ =~= seq![DIRECT_PID, 0u16, 0u16]);
        assert(mouse.model() == direct_model().paired[0]);
    }
    let mut paired: Vec<PairedDevice> = Vec::new();
    paired.push(mouse);
    assert(paired.model() =~= direct_model().paired);
    DeviceInventory {
        receiver: ReceiverInfo {
            name: "MX Vertical".to_owned(),
            vendor_id: LOGITECH_VID,
            product_id: DIRECT_PID,
            unique_id: None,
        },
        paired,
    }
}

// ── The scripted agent ──────────────────────────────────────────────────────

/// A device that discovery found.
#[derive(Debug)]
pub struct FoundDevice {
    pub address: [u8; 6],
    pub name: String,
}

/// A pairing under way: the candidate, once discovery found it.
#[derive(Debug)]
pub struct PairingSession {
    pub discovered: Option<FoundDevice>,
}

/// Why a pairing command was refused.
#[derive(Clone, Copy, Debug, PartialEq, Eq, Structural)]
pub enum PairingCommandError {
    AlreadyActive,
    NoActiveSession,
    UnknownDevice,
}

/// Everything the scripted agent answers from.
#[derive(Debug)]
pub struct State {
    /// Devices that pairing added to the receiver.
    pub paired_extra: Vec<PairedDevice>,
    /// Slot that the next pairing assigns.
    pub next_slot: u8,
    pub settings: Assoc<u8, DeviceSettings>,
    pub pairing: Option<PairingSession>,
}

/// The scripted candidate's address.
pub open spec fn candidate_address() -> Seq<u8> {
    seq![0xe0u8, 0x15u8, 0x27u8, 0x42u8, 0x91u8, 0x3au8]
}

/// The settings key of a route: the slot on the scripted receiver, or the
/// directly attached device.
pub open spec fn key_of(route: DeviceRoute) -> Option<u8> {
    match route {
        DeviceRoute::Bolt { receiver_uid, slot } => if receiver_uid@ == RECEIVER_UID@ {
            Some(slot)
        } else {
            None
        },
        DeviceRoute::Direct { vendor_id, product_id } => if vendor_id == LOGITECH_VID && product_id
            == DIRECT_PID {
            Some(DIRECT_DEVICE_INDEX)
        } else {
            None
        },
        _ => None,
    }
}

/// The settings key of a route. `None` where there is no such device.
pub fn settings_key(route: &DeviceRoute) -> (key: Option<u8>)
    ensures
        key == key_of(*route),
{
    match route {
        DeviceRoute::Bolt { receiver_uid, slot } => if same_text(
            receiver_uid.as_str(),
            RECEIVER_UID,
        ) {
            Some(*slot)
        } else {
            None
        },
        DeviceRoute::Direct { vendor_id, product_id } => if *vendor_id == LOGITECH_VID
            && *product_id == DIRECT_PID {
            Some(DIRECT_DEVICE_INDEX)
        } else {
            None
        },
        _ => None,
    }
}

/// The settings behind a route.
pub open spec fn found(settings: Map<u8, SettingsModel>, route: DeviceRoute) -> Option<SettingsModel> {
    match key_of(route) {
        Some(key) if settings.dom().contains(key) => Some(settings[key]),
        _ => None,
    }
}

/// A device that pairing adds.
pub open spec fn paired_scripted(slot: u8, name: Seq<char>) -> PairedModel {
    PairedModel {
        slot,
        codename: Some(name),
        wpid: Some(0x408a),
        kind: DeviceKind::Keyboard,
        online: true,
        battery: Some(reading(90, BatteryLevel::Full, BatteryStatus::Discharging)),
        model_info: None,
        capabilities: Some(
            Capabilities {
                buttons: false,
                pointer: false,
                lighting: false,
                scroll_inversion: false,
                hires_wheel: false,
                thumbwheel: false,
                haptic_feedback: false,
                haptic_panel: false,
            },
        ),
    }
}

impl State {
    pub open spec fn wf(self) -> bool {
        settings_wf(self.settings@)
    }

    pub fn new() -> (state: State)
        ensures
            state.wf(),
            state.paired_extra@.len() == 0,
            state.next_slot == KEYBOARD_SLOT + 1,
            state.settings@ == scripted_settings(),
            state.pairing is None,
    {
        let mut settings: Assoc<u8, DeviceSettings> = Assoc::new();
        settings.insert(
            MOUSE_SLOT,
            DeviceSettings {
                dpi: Some(
                    DpiState {
                        current: 1600,
                        capabilities: DpiCapabilities { values: dpi_steps(200, 50, 157) },
                    },
                ),
                smartshift: Some(
                    SmartShiftStatus {
                        mode: SmartShiftMode::Ratchet,
                        auto_disengage: 16,
                        tunable_torque: 50,
                    },
                ),
                lighting: false,
            },
        );
        settings.insert(OFFLINE_SLOT, DeviceSettings::unsupported());
        settings.insert(
            KEYBOARD_SLOT,
            DeviceSettings { dpi: None, smartshift: None, lighting: true },
        );
        settings.insert(
            DIRECT_DEVICE_INDEX,
            DeviceSettings {
                dpi: Some(
                    DpiState {
                        current: 1000,
                        capabilities: DpiCapabilities { values: dpi_steps(400, 100, 37) },
                    },
                ),
                smartshift: None,
                lighting: false,
            },
        );
        State { paired_extra: Vec::new(), next_slot: KEYBOARD_SLOT + 1, settings, pairing: None }
    }

    /// The inventory after so many seconds: the scripted devices, those that
    /// pairing added to the receiver, and the directly attached one.
    pub fn render_inventory(&self, seconds: u64) -> (inventories: Vec<DeviceInventory>)
        ensures
            inventories@.len() == 2,
            inventories@[0].model().receiver == bolt_receiver(),
            inventories@[0].model().paired == bolt_model(draining(seconds)).paired + models(
                self.paired_extra@,
            ),
            inventories@[1].model() == direct_model(),
    {
        let mut bolt: DeviceInventory = bolt_inventory(draining_battery(seconds));
        let ghost scripted = bolt.paired@;
        let mut i: usize = 0;
        assert(bolt.paired.model() =~= models(scripted) + models(self.paired_extra@.take(0)));
        while i < self.paired_extra.len()
            invariant
                i <= self.paired_extra@.len(),
                bolt.receiver.name@ == bolt_receiver().name,
                bolt.receiver.vendor_id == bolt_receiver().vendor_id,
                bolt.receiver.product_id == bolt_receiver().product_id,
                bolt.receiver.unique_id.model() == bolt_receiver().unique_id,
                models(scripted) == bolt_model(draining(seconds)).paired,
                bolt.paired.model() == models(scripted) + models(
                    self.paired_extra@.take(i as int),
                ),
            decreases self.paired_extra@.len() - i,
        {
            let ghost before = bolt.paired@;
            let copy: PairedDevice = self.paired_extra[i].copied();
            bolt.paired.push(copy);
            proof {
                assert(models(bolt.paired@) =~= models(before).push(copy.model()));
                assert(models(self.paired_extra@.take(i + 1)) =~= models(
                    self.paired_extra@.take(i as int),
                ).push(self.paired_extra@[i as int].model()));
                assert(bolt.paired.model() =~= models(scripted) + models(
                    self.paired_extra@.take(i + 1),
                ));
            }
            i = i + 1;
        }
        assert(self.paired_extra@.take(i as int) =~= self.paired_extra@);
        let mut inventories: Vec<DeviceInventory> = Vec::new();
        inventories.push(bolt);
        inventories.push(direct_inventory());
        inventories
    }

    /// The settings behind a route.
    pub fn settings_for(&self, route: &DeviceRoute) -> (settings: Result<
        DeviceSettings,
        WriteError,
    >)
        ensures
            match found(self.settings@, *route) {
                Some(own) => settings matches Ok(settings) && settings.model() == own,
                None => settings == Err::<DeviceSettings, WriteError>(WriteError::DeviceNotFound),
            },
    {
        match settings_key(route) {
            Some(key) => match self.settings.get(&key) {
                Some(settings) => Ok(settings.copied()),
                None => Err(WriteError::DeviceNotFound),
            },
            None => Err(WriteError::DeviceNotFound),
        }
    }

    /// Set a device's resolution to the nearest one that it can take.
    pub fn set_dpi(&mut self, route: &DeviceRoute, dpi: u32) -> (written: Result<(), WriteError>)
        requires
            old(self).wf(),
        ensures
            final(self).wf(),
            final(self).paired_extra == old(self).paired_extra,
            final(self).next_slot == old(self).next_slot,
            final(self).pairing == old(self).pairing,
            match found(old(self).settings@, *route) {
                Some(SettingsModel { dpi: Some((_, values)), smartshift, lighting }) => {
                    &&& written is Ok
                    &&& exists|at: int|
                        #![trigger is_nearest(values, dpi, at)]
                        is_nearest(values, dpi, at) && final(self).settings@
                            == old(self).settings@.insert(
                            key_of(*route)->0,
                            SettingsModel {
                                dpi: Some((values[at], values)),
                                smartshift,
                                lighting,
                            },
                        )
                },
                Some(_) => {
                    &&& written == Err::<(), WriteError>(
                        WriteError::FeatureUnsupported { feature_hex: 0x2201 },
                    )
                    &&& final(self).settings@ == old(self).settings@
                },
                None => {
                    &&& written == Err::<(), WriteError>(WriteError::DeviceNotFound)
                    &&& final(self).settings@ == old(self).settings@
                },
            },
    {
        let settings: DeviceSettings = match self.settings_for(route) {
            Ok(settings) => settings,
            Err(error) => {
                return Err(error);
            },
        };
        let key: u8 = match settings_key(route) {
            Some(key) => key,
            None => {
                return Err(WriteError::DeviceNotFound);
            },
        };
        match settings.dpi {
            Some(state) => {
                assert(old(self).settings@[key].dpi == Some(state.model()));
                let current: u16 = state.capabilities.nearest(dpi);
                self.settings.insert(
                    key,
                    DeviceSettings {
                        dpi: Some(DpiState { current, capabilities: state.capabilities }),
                        smartshift: settings.smartshift,
                        lighting: settings.lighting,
                    },
                );
                Ok(())
            },
            None => Err(WriteError::FeatureUnsupported { feature_hex: 0x2201 }),
        }
    }

    /// A device's resolution, and those it can take.
    pub fn read_dpi(&self, route: &DeviceRoute) -> (read: Result<DpiState, WriteError>)
        ensures
            match found(self.settings@, *route) {
                Some(own) => match own.dpi {
                    Some(dpi) => read matches Ok(state) && state.model() == dpi,
                    None => read == Err::<DpiState, WriteError>(
                        WriteError::FeatureUnsupported { feature_hex: 0x2201 },
                    ),
                },
                None => read == Err::<DpiState, WriteError>(WriteError::DeviceNotFound),
            },
    {
        match self.settings_for(route) {
            Ok(settings) => match settings.dpi {
                Some(state) => Ok(state),
                None => Err(WriteError::FeatureUnsupported { feature_hex: 0x2201 }),
            },
            Err(error) => Err(error),
        }
    }

    /// Whether a device takes lighting. The scripted agent keeps none.
    pub fn set_lighting(&self, route: &DeviceRoute) -> (written: Result<(), WriteError>)
        ensures
            written == (match found(self.settings@, *route) {
                Some(own) => if own.lighting {
                    Ok(())
                } else {
                    Err(WriteError::FeatureUnsupported { feature_hex: 0x8070 })
                },
                None => Err(WriteError::DeviceNotFound),
            }),
    {
        match self.settings_for(route) {
            Ok(settings) => if settings.lighting {
                Ok(())
            } else {
                Err(WriteError::FeatureUnsupported { feature_hex: 0x8070 })
            },
            Err(error) => Err(error),
        }
    }

    /// Set a device's SmartShift.
    pub fn set_smartshift(&mut self, route: &DeviceRoute, status: SmartShiftStatus) -> (written: Result<
        (),
        WriteError,
    >)
        requires
            old(self).wf(),
        ensures
            final(self).wf(),
            final(self).paired_extra == old(self).paired_extra,
            final(self).next_slot == old(self).next_slot,
            final(self).pairing == old(self).pairing,
            match found(old(self).settings@, *route) {
                Some(own) => if own.smartshift is Some {
                    &&& written is Ok
                    &&& final(self).settings@ == old(self).settings@.insert(
                        key_of(*route)->0,
                        SettingsModel { smartshift: Some(status), ..own },
                    )
                } else {
                    &&& written == Err::<(), WriteError>(
                        WriteError::FeatureUnsupported { feature_hex: 0x2110 },
                    )
                    &&& final(self).settings@ == old(self).settings@
                },
                None => {
                    &&& written == Err::<(), WriteError>(WriteError::DeviceNotFound)
                    &&& final(self).settings@ == old(self).settings@
                },
            },
    {
        let settings: DeviceSettings = match self.settings_for(route) {
            Ok(settings) => settings,
            Err(error) => {
                return Err(error);
            },
        };
        let key: u8 = match settings_key(route) {
            Some(key) => key,
            None => {
                return Err(WriteError::DeviceNotFound);
            },
        };
        if settings.smartshift.is_none() {
            return Err(WriteError::FeatureUnsupported { feature_hex: 0x2110 });
        }
        assert(old(self).settings@.dom().contains(key));
        self.settings.insert(
            key,
            DeviceSettings {
                dpi: settings.dpi,
                smartshift: Some(status),
                lighting: settings.lighting,
            },
        );
        Ok(())
    }

    /// A device's SmartShift.
    pub fn read_smartshift(&self, route: &DeviceRoute) -> (read: Result<
        SmartShiftStatus,
        WriteError,
    >)
        ensures
            read == (match found(self.settings@, *route) {
                Some(own) => match own.smartshift {
                    Some(status) => Ok(status),
                    None => Err(WriteError::FeatureUnsupported { feature_hex: 0x2110 }),
                },
                None => Err(WriteError::DeviceNotFound),
            }),
    {
        match self.settings_for(route) {
            Ok(settings) => match settings.smartshift {
                Some(status) => Ok(status),
                None => Err(WriteError::FeatureUnsupported { feature_hex: 0x2110 }),
            },
            Err(error) => Err(error),
        }
    }

    /// Add the scripted candidate to the receiver. Its slot comes back.
    pub fn pair_scripted(&mut self, name: &str) -> (slot: u8)
        requires
            old(self).wf(),
        ensures
            final(self).wf(),
            slot == old(self).next_slot,
            final(self).next_slot == (if old(self).next_slot == u8::MAX {
                u8::MAX as int
            } else {
                old(self).next_slot + 1
            }),
            models(final(self).paired_extra@) == models(old(self).paired_extra@).push(
                paired_scripted(slot, name@),
            ),
            final(self).settings@ == old(self).settings@.insert(slot, no_settings()),
            final(self).pairing == old(self).pairing,
    {
        let slot: u8 = self.next_slot;
        self.next_slot = self.next_slot.saturating_add(1);
        let device: PairedDevice = PairedDevice {
            slot,
            codename: Some(name.to_owned()),
            wpid: Some(0x408a),
            kind: DeviceKind::Keyboard,
            online: true,
            battery: Some(
                BatteryInfo {
                    percentage: 90,
                    level: BatteryLevel::Full,
                    status: BatteryStatus::Discharging,
                    freshness: BatteryFreshness::Current,
                },
            ),
            model_info: None,
            capabilities: Some(
                Capabilities {
                    buttons: false,
                    pointer: false,
                    lighting: false,
                    scroll_inversion: false,
                    hires_wheel: false,
                    thumbwheel: false,
                    haptic_feedback: false,
                    haptic_panel: false,
                },
            ),
        };
        let ghost before = self.paired_extra@;
        let ghost model = device.model();
        self.paired_extra.push(device);
        assert(models(self.paired_extra@) =~= models(before).push(model));
        self.settings.insert(slot, DeviceSettings::unsupported());
        slot
    }

    /// Begin a scripted pairing. One at a time.
    pub fn start_pairing(&mut self) -> (started: Result<(), PairingCommandError>)
        ensures
            started == (if old(self).pairing is Some {
                Err(PairingCommandError::AlreadyActive)
            } else {
                Ok(())
            }),
            *final(self) == (if old(self).pairing is Some {
                *old(self)
            } else {
                State { pairing: Some(PairingSession { discovered: None }), ..*old(self) }
            }),
    {
        if self.pairing.is_some() {
            return Err(PairingCommandError::AlreadyActive);
        }
        self.pairing = Some(PairingSession { discovered: None });
        Ok(())
    }

    /// Discovery found the candidate. Whether that is to be announced comes back:
    /// a pairing that was cancelled meanwhile finds nothing.
    pub fn discover(&mut self) -> (announce: bool)
        ensures
            announce == (old(self).pairing is Some),
            !announce ==> *final(self) == *old(self),
            announce ==> final(self).paired_extra == old(self).paired_extra && final(self).next_slot
                == old(self).next_slot && final(self).settings == old(self).settings && (
            final(self).pairing matches Some(session) && session.discovered matches Some(found)
                && found.address@ == candidate_address() && found.name@ == "ERGO K860"@),
    {
        if self.pairing.is_none() {
            return false;
        }
        let address: [u8; 6] = [0xe0, 0x15, 0x27, 0x42, 0x91, 0x3a];
        assert(address@ =~= candidate_address());
        self.pairing = Some(
            PairingSession {
                discovered: Some(FoundDevice { address, name: "ERGO K860".to_owned() }),
            },
        );
        true
    }

    /// Accept a candidate by its address. Its name comes back.
    pub fn pair_device(&self, address: [u8; 6]) -> (accepted: Result<String, PairingCommandError>)
        ensures
            match self.pairing {
                None => accepted == Err::<String, PairingCommandError>(
                    PairingCommandError::NoActiveSession,
                ),
                Some(session) => match session.discovered {
                    Some(found) if found.address@ == address@ => accepted matches Ok(name) && name
                        == found.name,
                    _ => accepted == Err::<String, PairingCommandError>(
                        PairingCommandError::UnknownDevice,
                    ),
                },
            },
    {
        match &self.pairing {
            None => Err(PairingCommandError::NoActiveSession),
            Some(session) => match &session.discovered {
                Some(found) => {
                    let mut i: usize = 0;
                    while i < 6
                        invariant
                            i <= 6,
                            forall|j: int| 0 <= j < i ==> found.address@[j] == address@[j],
                            self.pairing == Some(*session),
                            session.discovered == Some(*found),
                        decreases 6 - i,
                    {
                        if found.address[i] != address[i] {
                            return Err(PairingCommandError::UnknownDevice);
                        }
                        i = i + 1;
                    }
                    assert(found.address@ =~= address@);
                    Ok(found.name.clone())
                },
                None => Err(PairingCommandError::UnknownDevice),
            },
        }
    }

    /// The passkey was typed: the candidate joins the inventory, unless the
    /// pairing was cancelled meanwhile. Its slot comes back.
    pub fn finish_pairing(&mut self, name: &str) -> (slot: Option<u8>)
        requires
            old(self).wf(),
        ensures
            final(self).wf(),
            final(self).pairing is None,
            slot is Some <==> old(self).pairing is Some,
            slot matches Some(slot) ==> slot == old(self).next_slot && models(
                final(self).paired_extra@,
            ) == models(old(self).paired_extra@).push(paired_scripted(slot, name@))
                && final(self).settings@ == old(self).settings@.insert(slot, no_settings())
                && final(self).next_slot == (if old(self).next_slot == u8::MAX {
                u8::MAX as int
            } else {
                old(self).next_slot + 1
            }),
            slot is None ==> *final(self) == *old(self),
    {
        if self.pairing.is_none() {
            return None;
        }
        self.pairing = None;
        Some(self.pair_scripted(name))
    }

    /// Cancel the pairing under way.
    pub fn cancel_pairing(&mut self) -> (cancelled: Result<(), PairingCommandError>)
        ensures
            cancelled == (if old(self).pairing is Some {
                Ok(())
            } else {
                Err(PairingCommandError::NoActiveSession)
            }),
            *final(self) == (State { pairing: None, ..*old(self) }),
    {
        if self.pairing.is_none() {
            return Err(PairingCommandError::NoActiveSession);
        }
        self.pairing = None;
        Ok(())
    }
}

/// What a held poll for pairing updates does next.
#[derive(Clone, Copy, Debug, PartialEq, Eq, Structural)]
pub enum PollStep {
    /// Answer with the update that is there.
    Answer,
    /// Look again after [`PAIRING_POLL_TICK`].
    Wait,
    /// Answer that there is none.
    GiveUp,
}

/// Decide what a held poll does. A drained channel and a finished pairing look the
/// same: both wait the hold out, which keeps a client's loop from spinning.
pub fn next_pairing(elapsed: u64, update_ready: bool) -> (step: PollStep)
    ensures
        step == (if elapsed >= PAIRING_HOLD {
            PollStep::GiveUp
        } else if update_ready {
            PollStep::Answer
        } else {
            PollStep::Wait
        }),
{
    if elapsed >= PAIRING_HOLD {
        PollStep::GiveUp
    } else if update_ready {
        PollStep::Answer
    } else {
        PollStep::Wait
    }
}

/// What the scripted agent says of itself.
#[derive(Debug)]
pub struct AgentStatus {
    pub accessibility_granted: bool,
    pub hook_installed: bool,
    pub launch_at_login: bool,
    pub inventory_ready: bool,
    pub protocol_version: u32,
    pub agent_version: String,
}

/// The scripted agent's status: everything is well, but its version says that it
/// is a mock. The launch setting mirrors the configuration.
pub fn agent_status(launch_at_login: bool, protocol_version: u32, version: &str) -> (status:
    AgentStatus)
    ensures
        status.accessibility_granted,
        status.hook_installed,
        status.launch_at_login == launch_at_login,
        status.inventory_ready,
        status.protocol_version == protocol_version,
        status.agent_version@ == version@ + "-mock"@,
{
    let mut agent_version: String = version.to_owned();
    agent_version.append("-mock");
    AgentStatus {
        accessibility_granted: true,
        hook_installed: true,
        launch_at_login,
        inventory_ready: true,
        protocol_version,
        agent_version,
    }
}

// ── Laws ────────────────────────────────────────────────────────────────────

/// What is written over a route reads back over it.
pub proof fn writes_read_back(
    settings: Map<u8, SettingsModel>,
    route: DeviceRoute,
    after: SettingsModel,
)
    requires
        key_of(route) is Some,
    ensures
        found(settings.insert(key_of(route)->0, after), route) == Some(after),
{
}

/// A write to one route is not seen over another device's route.
pub proof fn writes_stay_with_their_device(
    settings: Map<u8, SettingsModel>,
    written: DeviceRoute,
    other: DeviceRoute,
    after: SettingsModel,
)
    requires
        key_of(written) is Some,
        key_of(other) != key_of(written),
    ensures
        found(settings.insert(key_of(written)->0, after), other) == found(settings, other),
{
}

/// The scripted mouse drains: it starts at eighty percent, loses one percent with every
/// minute until twenty, and then starts over.
pub proof fn the_mouse_drains_by_the_minute(seconds: u64, cycles: u64)
    requires
        seconds < 61 * 60,
        cycles * 3660 + seconds <= u64::MAX,
    ensures
        drained(seconds) == 80 - seconds / 60,
        drained((cycles * 3660 + seconds) as u64) == drained(seconds),
        20 <= drained(seconds) <= 80,
        seconds + 60 < 61 * 60 ==> drained((seconds + 60) as u64) == drained(seconds) - 1,
        draining(seconds).percentage == drained(seconds),
        draining(seconds).status == BatteryStatus::Discharging,
        draining(seconds).freshness == BatteryFreshness::Current,
        draining(seconds).level == (if drained(seconds) <= 25 {
            BatteryLevel::Low
        } else {
            BatteryLevel::Good
        }),
{
    let whole = cycles * 3660 + seconds;
    assert(whole / 60 == cycles * 61 + seconds as int / 60);
    assert((cycles * 61 + seconds as int / 60) % 61 == seconds as int / 60) by (nonlinear_arith)
        requires
            0 <= seconds as int / 60 < 61,
    ;
}

/// A route leads to a scripted device exactly where it is a slot of the scripted Bolt
/// receiver, or the directly attached mouse.
pub proof fn routes_lead_to_scripted_devices(
    receiver_uid: String,
    slot: u8,
    vendor_id: u16,
    product_id: u16,
    usage_page: u16,
    usage_id: u16,
)
    ensures
        key_of(DeviceRoute::Bolt { receiver_uid, slot }) == (if receiver_uid@ == "MOCK-BOLT-01"@ {
            Some(slot)
        } else {
            None
        }),
        key_of(DeviceRoute::Direct { vendor_id, product_id }) == (if vendor_id == 0x046d
            && product_id == 0xb020 {
            Some(0xffu8)
        } else {
            None
        }),
        key_of(DeviceRoute::Unifying { receiver_uid, slot }) is None,
        key_of(
            DeviceRoute::RawHid {
                vendor_id,
                product_id,
                usage_page,
                usage_id,
                identity: receiver_uid,
            },
        ) is None,
{
}

/// The settings behind a route are those that are kept for its device, and there are none
/// behind a route that leads to no device.
pub proof fn routes_have_their_settings(settings: Map<u8, SettingsModel>, route: DeviceRoute)
    ensures
        key_of(route) is None ==> found(settings, route) is None,
        key_of(route) matches Some(key) ==> {
            &&& settings.dom().contains(key) ==> found(settings, route) == Some(settings[key])
            &&& !settings.dom().contains(key) ==> found(settings, route) is None
        },
{
}

/// What the scripted devices can do: both online mice have resolutions, from those that
/// they can take, one of them SmartShift, and the keyboard alone lights up. The mouse that
/// is offline can do nothing.
pub proof fn scripted_devices_have_their_settings()
    ensures
        scripted_settings().dom() =~= set![1u8, 2u8, 3u8, 0xffu8],
        scripted_settings()[1].dpi == Some((1600u16, stepped(200, 50, 157))),
        scripted_settings()[1].smartshift == Some(
            SmartShiftStatus {
                mode: SmartShiftMode::Ratchet,
                auto_disengage: 16,
                tunable_torque: 50,
            },
        ),
        !scripted_settings()[1].lighting,
        scripted_settings()[2] == (SettingsModel { dpi: None, smartshift: None, lighting: false }),
        scripted_settings()[3] == (SettingsModel { dpi: None, smartshift: None, lighting: true }),
        scripted_settings()[0xff].dpi == Some((1000u16, stepped(400, 100, 37))),
        scripted_settings()[0xff].smartshift is None,
        !scripted_settings()[0xff].lighting,
        stepped(200, 50, 157).contains(1600u16),
        stepped(400, 100, 37).contains(1000u16),
        stepped(200, 50, 157).last() == 8000,
        stepped(400, 100, 37).last() == 4000,
{
    assert(stepped(200, 50, 157)[28] == 1600u16);
    assert(stepped(400, 100, 37)[6] == 1000u16);
}

/// The scripted inventory: three devices of one Bolt receiver in their slots, of which the
/// second is offline and unread, and one mouse attached directly.
pub proof fn the_scripted_devices_are_told_apart(battery: BatteryInfo)
    ensures
        ({
            let bolt = bolt_model(battery);
            let direct = direct_model();
            &&& bolt.receiver.vendor_id == 0x046d && bolt.receiver.product_id == 0xc548
            &&& bolt.receiver.unique_id == Some("MOCK-BOLT-01"@)
            &&& bolt.paired.len() == 3
            &&& bolt.paired[0].slot == 1 && bolt.paired[1].slot == 2 && bolt.paired[2].slot == 3
            &&& bolt.paired[0].kind == DeviceKind::Mouse && bolt.paired[1].kind == DeviceKind::Mouse
            &&& bolt.paired[2].kind == DeviceKind::Keyboard
            &&& bolt.paired[0].online && !bolt.paired[1].online && bolt.paired[2].online
            &&& bolt.paired[0].battery == Some(battery)
            &&& bolt.paired[1].battery is None && bolt.paired[1].model_info is None
                && bolt.paired[1].capabilities is None
            &&& bolt.paired[2].battery matches Some(full) && full.percentage == 100 && full.status
                == BatteryStatus::Full
            &&& bolt.paired[0].codename == Some("MX Master 3S"@)
            &&& bolt.paired[1].codename == Some("MX Anywhere 3"@)
            &&& bolt.paired[2].codename == Some("MX Keys"@)
            &&& direct.receiver.vendor_id == 0x046d && direct.receiver.product_id == 0xb020
            &&& direct.receiver.unique_id is None
            &&& direct.paired.len() == 1
            &&& direct.paired[0].slot == 0xff && direct.paired[0].online
            &&& direct.paired[0].codename == Some("MX Vertical"@)
            &&& direct.paired[0].battery matches Some(half) && half.percentage == 55 && half.status
                == BatteryStatus::Discharging
        }),
{
}

/// A device that pairing adds is an online keyboard under the candidate's name in the slot
/// that it got.
pub proof fn paired_devices_join_in_their_slot(slot: u8, name: Seq<char>)
    ensures
        ({
            let device = paired_scripted(slot, name);
            &&& device.slot == slot
            &&& device.codename == Some(name)
            &&& device.kind == DeviceKind::Keyboard
            &&& device.online
            &&& device.battery matches Some(battery) && battery.percentage == 90 && battery.status
                == BatteryStatus::Discharging
        }),
        candidate_address().len() == 6,
{
}

} // verus!
