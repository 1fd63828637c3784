//! Devices as an inventory pass reports them.
use vstd::prelude::*;

use crate::text::{byte_digits_tell_bytes_apart, decimal, hexadecimal,
    hexadecimals_write_their_number, push_decimal, push_hexadecimal};
use crate::value::Value;

verus! {

/// Charging state that the firmware reports.
#[derive(Clone, Copy, Debug, PartialEq, Eq, Structural)]
pub enum BatteryStatus {
    Discharging,
    Charging,
    ChargingSlow,
    Full,
    Error,
    Unknown,
}

/// Coarse charge level that the firmware reports.
#[derive(Clone, Copy, Debug, PartialEq, Eq, Structural)]
pub enum BatteryLevel {
    Critical,
    Low,
    Good,
    Full,
    Unknown,
}

/// Whether a reading was just taken or replayed from a cache.
#[derive(Clone, Copy, Debug, PartialEq, Eq, Structural)]
pub enum BatteryFreshness {
    Current,
    Cached,
}

/// How urgent a charge is.
#[derive(Clone, Copy, Debug, PartialEq, Eq, Structural)]
pub enum Severity {
    Normal,
    Low,
    Critical,
}

impl Default for Severity {
    fn default() -> (severity: Severity)
        ensures
            severity == Severity::Normal,
    {
        Severity::Normal
    }
}

impl Severity {
    /// Position on the scale of urgency.
    pub open spec fn rank(self) -> int {
        match self {
            Severity::Normal => 0,
            Severity::Low => 1,
            Severity::Critical => 2,
        }
    }

    /// The more urgent of two.
    pub open spec fn worse(self, other: Severity) -> Severity {
        if self.rank() < other.rank() {
            other
        } else {
            self
        }
    }

    /// The more urgent of two.
    pub fn max_with(self, other: Severity) -> (worst: Severity)
        ensures
            worst == self.worse(other),
    {
        match (self, other) {
            (Severity::Normal, _) => other,
            (Severity::Low, Severity::Critical) => other,
            _ => self,
        }
    }
}

/// Charge up to which a discharging battery is low.
pub const LOW_PERCENT: u8 = 20;

/// Charge up to which a discharging battery is critical.
pub const CRITICAL_PERCENT: u8 = 10;

/// Charge above which a warned device may be warned of again.
pub const REARM_PERCENT: u8 = 25;

/// One battery reading.
#[derive(Clone, Copy, Debug, PartialEq, Eq, Structural)]
pub struct BatteryInfo {
    pub percentage: u8,
    pub level: BatteryLevel,
    pub status: BatteryStatus,
    pub freshness: BatteryFreshness,
}

impl BatteryInfo {
    /// Whether the device takes up charge.
    pub open spec fn charging(self) -> bool {
        self.status == BatteryStatus::Charging || self.status == BatteryStatus::ChargingSlow
    }

    /// Whether the device runs on its battery, as far as the firmware says.
    pub open spec fn on_battery(self) -> bool {
        !self.charging() && self.status != BatteryStatus::Full
    }

    /// The percentage of a fresh reading.
    pub open spec fn usable(self) -> Option<u8> {
        if self.freshness == BatteryFreshness::Cached {
            None
        } else {
            Some(self.percentage)
        }
    }

    /// How urgent a fresh reading of a discharging device is.
    pub open spec fn urgency(self) -> Severity {
        if self.usable() is None || !self.on_battery() {
            Severity::Normal
        } else if self.percentage <= CRITICAL_PERCENT {
            Severity::Critical
        } else if self.percentage <= LOW_PERCENT {
            Severity::Low
        } else {
            Severity::Normal
        }
    }

    pub fn is_charging(&self) -> (charging: bool)
        ensures
            charging == self.charging(),
    {
        matches!(self.status, BatteryStatus::Charging | BatteryStatus::ChargingSlow)
    }

    pub fn usable_percentage(&self) -> (percentage: Option<u8>)
        ensures
            percentage == self.usable(),
    {
        match self.freshness {
            BatteryFreshness::Cached => None,
            BatteryFreshness::Current => Some(self.percentage),
        }
    }

    pub fn severity(&self) -> (severity: Severity)
        ensures
            severity == self.urgency(),
    {
        if self.usable_percentage().is_none() || self.is_charging() || self.status
            == BatteryStatus::Full {
            Severity::Normal
        } else if self.percentage <= CRITICAL_PERCENT {
            Severity::Critical
        } else if self.percentage <= LOW_PERCENT {
            Severity::Low
        } else {
            Severity::Normal
        }
    }

    /// Whether the reading ends a low-battery episode.
    pub open spec fn rearms(self) -> bool {
        self.usable() is Some && self.percentage > REARM_PERCENT
    }

    pub fn rearms_warning(&self) -> (rearms: bool)
        ensures
            rearms == self.rearms(),
    {
        self.usable_percentage().is_some() && self.percentage > REARM_PERCENT
    }

    /// Whether the device should be charged soon: the one threshold that every
    /// surface draws its warning from.
    pub fn needs_attention(&self) -> (low: bool)
        ensures
            low == (self.on_battery() && self.percentage <= LOW_PERCENT),
    {
        !self.is_charging() && self.status != BatteryStatus::Full && self.percentage <= LOW_PERCENT
    }
}

/// What a device is.
#[derive(Clone, Copy, Debug, PartialEq, Eq, Structural)]
pub enum DeviceKind {
    Mouse,
    Keyboard,
    Unknown,
}

impl DeviceKind {
    pub open spec fn label(self) -> Seq<char> {
        match self {
            DeviceKind::Mouse => "Mouse"@,
            DeviceKind::Keyboard => "Keyboard"@,
            DeviceKind::Unknown => "Unknown"@,
        }
    }

    /// The kind's name for people.
    pub fn name(self) -> (name: &'static str)
        ensures
            name@ == self.label(),
    {
        match self {
            DeviceKind::Mouse => "Mouse",
            DeviceKind::Keyboard => "Keyboard",
            DeviceKind::Unknown => "Unknown",
        }
    }
}

/// The transports that a model can use.
#[derive(Clone, Copy, Debug, PartialEq, Eq, Structural)]
pub struct DeviceTransports {
    pub usb: bool,
    pub equad: bool,
    pub btle: bool,
    pub bluetooth: bool,
}

/// Identity that the firmware reports.
#[derive(Debug)]
pub struct DeviceModelInfo {
    pub entity_count: u8,
    pub serial_number: Option<String>,
    pub unit_id: [u8; 4],
    pub transports: DeviceTransports,
    pub model_ids: [u16; 3],
    pub extended_model_id: u8,
}

/// What a device can do.
#[derive(Clone, Copy, Debug, PartialEq, Eq, Structural)]
pub struct Capabilities {
    pub buttons: bool,
    pub pointer: bool,
    pub lighting: bool,
    pub scroll_inversion: bool,
    pub hires_wheel: bool,
    pub thumbwheel: bool,
    pub haptic_feedback: bool,
    pub haptic_panel: bool,
}

impl Default for Capabilities {
    fn default() -> (capabilities: Capabilities)
        ensures
            capabilities == (Capabilities {
                buttons: false,
                pointer: false,
                lighting: false,
                scroll_inversion: false,
                hires_wheel: false,
                thumbwheel: false,
                haptic_feedback: false,
                haptic_panel: false,
            }),
    {
        Capabilities {
            buttons: false,
            pointer: false,
            lighting: false,
            scroll_inversion: false,
            hires_wheel: false,
            thumbwheel: false,
            haptic_feedback: false,
            haptic_panel: false,
        }
    }
}

/// One device paired with a receiver, or attached directly.
#[derive(Debug)]
pub struct PairedDevice {
    pub slot: u8,
    pub codename: Option<String>,
    pub wpid: Option<u16>,
    pub kind: DeviceKind,
    pub online: bool,
    pub battery: Option<BatteryInfo>,
    pub model_info: Option<DeviceModelInfo>,
    pub capabilities: Option<Capabilities>,
}

/// The identity that a unit number gives a device. All zeros are no number.
pub open spec fn unit_key(unit: Seq<u8>) -> Option<Seq<char>> {
    if unit[0] == 0 && unit[1] == 0 && unit[2] == 0 && unit[3] == 0 {
        None
    } else {
        Some(
            "unit:"@ + hexadecimal(unit[0] as nat, 2) + hexadecimal(unit[1] as nat, 2)
                + hexadecimal(unit[2] as nat, 2) + hexadecimal(unit[3] as nat, 2),
        )
    }
}

impl PairedDevice {
    /// The identity that stays with the device, whatever it is paired with.
    pub open spec fn lasting_key(self) -> Option<Seq<char>> {
        match self.model_info {
            Some(info) => unit_key(info.unit_id@),
            None => None,
        }
    }

    /// The identity that stays with the device, where its firmware tells one.
    pub fn physical_key(&self) -> (key: Option<String>)
        ensures
            key is Some <==> self.lasting_key() is Some,
            key is Some ==> key->0@ == self.lasting_key()->0,
    {
        let unit: [u8; 4] = match &self.model_info {
            Some(info) => info.unit_id,
            None => {
                return None;
            },
        };
        if unit[0] == 0 && unit[1] == 0 && unit[2] == 0 && unit[3] == 0 {
            return None;
        }
        let mut key: String = "unit:".to_owned();
        push_hexadecimal(&mut key, unit[0] as u32, 2);
        push_hexadecimal(&mut key, unit[1] as u32, 2);
        push_hexadecimal(&mut key, unit[2] as u32, 2);
        push_hexadecimal(&mut key, unit[3] as u32, 2);
        Some(key)
    }

    /// The name shown to people: the device's own, else its kind and slot.
    pub open spec fn shown_name(self) -> Seq<char> {
        match self.codename {
            Some(name) => name@,
            None => self.kind.label() + " (slot "@ + decimal(self.slot as nat) + ")"@,
        }
    }

    /// The name shown to people.
    pub fn display_name(&self) -> (name: String)
        ensures
            name@ == self.shown_name(),
    {
        match &self.codename {
            Some(name) => name.clone(),
            None => {
                let mut name: String = self.kind.name().to_owned();
                name.append(" (slot ");
                push_decimal(&mut name, self.slot as u64);
                name.append(")");
                name
            },
        }
    }
}

/// A receiver, or the stand-in for one of a directly attached device.
#[derive(Debug)]
pub struct ReceiverInfo {
    pub name: String,
    pub vendor_id: u16,
    pub product_id: u16,
    pub unique_id: Option<String>,
}

/// A receiver and the devices paired with it.
#[derive(Debug)]
pub struct DeviceInventory {
    pub receiver: ReceiverInfo,
    pub paired: Vec<PairedDevice>,
}

// ── Models ──────────────────────────────────────────────────────────────────

/// What a [`DeviceModelInfo`] holds.
pub struct ModelInfoModel {
    pub entity_count: u8,
    pub serial_number: Option<Seq<char>>,
    pub unit_id: Seq<u8>,
    pub transports: DeviceTransports,
    pub model_ids: Seq<u16>,
    pub extended_model_id: u8,
}

impl Value for DeviceModelInfo {
    type Model = ModelInfoModel;

    open spec fn model(&self) -> ModelInfoModel {
        ModelInfoModel {
            entity_count: self.entity_count,
            serial_number: self.serial_number.model(),
            unit_id: self.unit_id@,
            transports: self.transports,
            model_ids: self.model_ids@,
            extended_model_id: self.extended_model_id,
        }
    }

    fn same(&self, other: &DeviceModelInfo) -> (same: bool) {
        let mut same_units: bool = true;
        let mut i: usize = 0;
        while i < 4
            invariant
                i <= 4,
                same_units == (forall|j: int| 0 <= j < i ==> self.unit_id@[j] == other.unit_id@[j]),
            decreases 4 - i,
        {
            same_units = same_units && self.unit_id[i] == other.unit_id[i];
            i = i + 1;
        }
        let mut same_ids: bool = true;
        let mut k: usize = 0;
        while k < 3
            invariant
                k <= 3,
                same_ids == (forall|j: int|
                    0 <= j < k ==> self.model_ids@[j] == other.model_ids@[j]),
            decreases 3 - k,
        {
            same_ids = same_ids && self.model_ids[k] == other.model_ids[k];
            k = k + 1;
        }
        proof {
            assert(same_units ==> self.unit_id@ =~= other.unit_id@);
            assert(same_ids ==> self.model_ids@ =~= other.model_ids@);
        }
        self.entity_count == other.entity_count && self.serial_number.same(&other.serial_number)
            && same_units && self.transports == other.transports && same_ids
            && self.extended_model_id == other.extended_model_id
    }

    fn copied(&self) -> (copy: DeviceModelInfo) {
        DeviceModelInfo {
            entity_count: self.entity_count,
            serial_number: self.serial_number.copied(),
            unit_id: self.unit_id,
            transports: self.transports,
            model_ids: self.model_ids,
            extended_model_id: self.extended_model_id,
        }
    }
}

/// What a [`PairedDevice`] holds.
pub struct PairedModel {
    pub slot: u8,
    pub codename: Option<Seq<char>>,
    pub wpid: Option<u16>,
    pub kind: DeviceKind,
    pub online: bool,
    pub battery: Option<BatteryInfo>,
    pub model_info: Option<ModelInfoModel>,
    pub capabilities: Option<Capabilities>,
}

impl Value for PairedDevice {
    type Model = PairedModel;

    open spec fn model(&self) -> PairedModel {
        PairedModel {
            slot: self.slot,
            codename: self.codename.model(),
            wpid: self.wpid,
            kind: self.kind,
            online: self.online,
            battery: self.battery,
            model_info: self.model_info.model(),
            capabilities: self.capabilities,
        }
    }

    fn same(&self, other: &PairedDevice) -> (same: bool) {
        self.slot == other.slot && self.codename.same(&other.codename) && self.wpid == other.wpid
            && self.kind == other.kind && self.online == other.online && self.battery
            == other.battery && self.model_info.same(&other.model_info) && self.capabilities
            == other.capabilities
    }

    fn copied(&self) -> (copy: PairedDevice) {
        PairedDevice {
            slot: self.slot,
            codename: self.codename.copied(),
            wpid: self.wpid,
            kind: self.kind,
            online: self.online,
            battery: self.battery,
            model_info: self.model_info.copied(),
            capabilities: self.capabilities,
        }
    }
}

/// What a [`ReceiverInfo`] holds.
pub struct ReceiverModel {
    pub name: Seq<char>,
    pub vendor_id: u16,
    pub product_id: u16,
    pub unique_id: Option<Seq<char>>,
}

/// What a [`DeviceInventory`] holds.
pub struct InventoryModel {
    pub receiver: ReceiverModel,
    pub paired: Seq<PairedModel>,
}

impl Value for DeviceInventory {
    type Model = InventoryModel;

    open spec fn model(&self) -> InventoryModel {
        InventoryModel {
            receiver: ReceiverModel {
                name: self.receiver.name@,
                vendor_id: self.receiver.vendor_id,
                product_id: self.receiver.product_id,
                unique_id: self.receiver.unique_id.model(),
            },
            paired: self.paired.model(),
        }
    }

    fn same(&self, other: &DeviceInventory) -> (same: bool) {
        self.receiver.name == other.receiver.name && self.receiver.vendor_id
            == other.receiver.vendor_id && self.receiver.product_id == other.receiver.product_id
            && self.receiver.unique_id.same(&other.receiver.unique_id) && self.paired.same(
            &other.paired,
        )
    }

    fn copied(&self) -> (copy: DeviceInventory) {
        DeviceInventory {
            receiver: ReceiverInfo {
                name: self.receiver.name.clone(),
                vendor_id: self.receiver.vendor_id,
                product_id: self.receiver.product_id,
                unique_id: self.receiver.unique_id.copied(),
            },
            paired: self.paired.copied(),
        }
    }
}

// ── Laws ────────────────────────────────────────────────────────────────────

/// How urgent a reading is: a fresh one of a device that does not charge and is not full
/// is critical up to ten percent and low up to twenty; every other one is normal.
pub proof fn urgency_follows_the_charge(battery: BatteryInfo)
    ensures
        ({
            let fresh = battery.freshness == BatteryFreshness::Current;
            let powered = battery.status == BatteryStatus::Charging || battery.status
                == BatteryStatus::ChargingSlow || battery.status == BatteryStatus::Full;
            &&& battery.urgency() == Severity::Critical <==> fresh && !powered
                && battery.percentage <= 10
            &&& battery.urgency() == Severity::Low <==> fresh && !powered && 10
                < battery.percentage <= 20
            &&& battery.urgency() == Severity::Normal <==> !fresh || powered || battery.percentage
                > 20
            &&& battery.rearms() <==> fresh && battery.percentage > 25
            &&& battery.usable() == (if fresh {
                Some(battery.percentage)
            } else {
                None
            })
            &&& battery.charging() <==> battery.status == BatteryStatus::Charging
                || battery.status == BatteryStatus::ChargingSlow
            &&& battery.on_battery() <==> !powered
        }),
{
}

/// A lower charge is never less urgent, the firmware saying the same otherwise; a reading
/// that is urgent never ends an episode.
pub proof fn less_charge_is_more_urgent(a: BatteryInfo, b: BatteryInfo)
    requires
        a.status == b.status,
        a.freshness == b.freshness,
        a.percentage <= b.percentage,
    ensures
        a.urgency() == Severity::Normal ==> b.urgency() == Severity::Normal,
        b.urgency() == Severity::Critical ==> a.urgency() == Severity::Critical,
        a.urgency() != Severity::Normal ==> !a.rearms(),
{
}

/// The worse of two severities is one of them, whichever comes first: critical over low,
/// and low over normal.
pub proof fn the_worse_severity_wins(a: Severity, b: Severity)
    ensures
        a.worse(b) == b.worse(a),
        a.worse(b) == a || a.worse(b) == b,
        a.worse(Severity::Critical) == Severity::Critical,
        a.worse(Severity::Normal) == a,
        a != Severity::Critical ==> a.worse(Severity::Low) == Severity::Low,
{
}

/// A unit number tells devices apart: two devices share the key of one only where they
/// share the number. Zero is no number.
pub proof fn unit_numbers_tell_devices_apart(a: Seq<u8>, b: Seq<u8>)
    requires
        a.len() == 4,
        b.len() == 4,
    ensures
        unit_key(a) is None <==> a == seq![0u8, 0u8, 0u8, 0u8],
        unit_key(a) is Some && unit_key(a) == unit_key(b) ==> a == b,
        unit_key(a) is Some ==> unit_key(a)->0.len() == 13 && unit_key(a)->0.take(5) == "unit:"@,
{
    reveal_strlit("unit:");
    assert(a =~= seq![0u8, 0u8, 0u8, 0u8] <==> a[0] == 0 && a[1] == 0 && a[2] == 0 && a[3] == 0);
    if unit_key(a) is Some {
        let key = unit_key(a)->0;
        lemma_unit_digits(a);
        assert(key.take(5) =~= "unit:"@);
        if unit_key(b) == unit_key(a) {
            lemma_unit_digits(b);
            byte_digits_tell_bytes_apart(a[0], b[0]);
            byte_digits_tell_bytes_apart(a[1], b[1]);
            byte_digits_tell_bytes_apart(a[2], b[2]);
            byte_digits_tell_bytes_apart(a[3], b[3]);
            assert(a =~= b);
        }
    }
}

proof fn lemma_unit_digits(unit: Seq<u8>)
    requires
        unit.len() == 4,
        unit_key(unit) is Some,
    ensures
        unit_key(unit)->0.len() == 13,
        forall|i: int|
            0 <= i < 4 ==> unit_key(unit)->0.subrange(5 + 2 * i, 7 + 2 * i) == hexadecimal(
                #[trigger] unit[i] as nat,
                2,
            ),
{
    reveal_strlit("unit:");
    hexadecimals_write_their_number(unit[0] as nat, 2);
    hexadecimals_write_their_number(unit[1] as nat, 2);
    hexadecimals_write_their_number(unit[2] as nat, 2);
    hexadecimals_write_their_number(unit[3] as nat, 2);
    let key = unit_key(unit)->0;
    assert(key.subrange(5, 7) =~= hexadecimal(unit[0] as nat, 2));
    assert(key.subrange(7, 9) =~= hexadecimal(unit[1] as nat, 2));
    assert(key.subrange(9, 11) =~= hexadecimal(unit[2] as nat, 2));
    assert(key.subrange(11, 13) =~= hexadecimal(unit[3] as nat, 2));
    assert forall|i: int| 0 <= i < 4 implies key.subrange(5 + 2 * i, 7 + 2 * i) == hexadecimal(
        #[trigger] unit[i] as nat,
        2,
    ) by {
        assert(i == 0 || i == 1 || i == 2 || i == 3);
    }
}

/// A device is shown by its own name, and without one by its kind and its slot: two
/// nameless devices of a kind in different slots are shown differently.
pub proof fn devices_are_shown_by_name_or_slot(device: PairedDevice)
    ensures
        device.codename matches Some(name) ==> device.shown_name() == name@,
        device.codename is None && device.kind == DeviceKind::Mouse ==> device.shown_name()
            == "Mouse (slot "@ + decimal(device.slot as nat) + ")"@,
        device.codename is None && device.kind == DeviceKind::Keyboard ==> device.shown_name()
            == "Keyboard (slot "@ + decimal(device.slot as nat) + ")"@,
        device.codename is None && device.kind == DeviceKind::Unknown ==> device.shown_name()
            == "Unknown (slot "@ + decimal(device.slot as nat) + ")"@,
{
    reveal_strlit("Mouse");
    reveal_strlit("Keyboard");
    reveal_strlit("Unknown");
    reveal_strlit(" (slot ");
    reveal_strlit("Mouse (slot ");
    reveal_strlit("Keyboard (slot ");
    reveal_strlit("Unknown (slot ");
    assert("Mouse (slot "@ =~= "Mouse"@ + " (slot "@);
    assert("Keyboard (slot "@ =~= "Keyboard"@ + " (slot "@);
    assert("Unknown (slot "@ =~= "Unknown"@ + " (slot "@);
}

} // verus!
