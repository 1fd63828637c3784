//! Opt-in publication of accessory batteries to the system's battery widget.
use vstd::prelude::*;

use crate::device::{BatteryStatus, DeviceInventory, DeviceKind, PairedDevice, ReceiverInfo};
use crate::keys::KeySet;
use crate::retry::{earlier, earlier_of};
use crate::text::{decimal, decimals_write_their_number, push_decimal};
use crate::value::{Assoc, Value, lemma_mapped_entries};

verus! {

/// How long an accessory that is offline or absent stays published, in
/// milliseconds.
pub const OFFLINE_GRACE: u64 = 120_000;

// ── The native backend ──────────────────────────────────────────────────────

/// Why the widget cannot be written to.
#[derive(Clone, Copy, Debug, PartialEq, Eq)]
pub enum PowerSourceError {
    /// The system cannot do it, and why.
    Unavailable(&'static str),
    /// A native function failed with a code.
    Operation { operation: &'static str, code: i32 },
    /// The system handed no source out, or the source is gone.
    MissingHandle,
}

/// Why nothing can be published where the framework is missing.
pub const NO_FRAMEWORK: &'static str = "IOKit.framework could not be loaded";

/// Why nothing can be published where one of the functions is missing.
pub const NO_FUNCTIONS: &'static str = "This macOS version does not export the required IOPS power-source functions";

/// The native function that creates a source.
pub const CREATE: &'static str = "IOPSCreatePowerSource";

/// The native function that writes a source's details.
pub const SET_DETAILS: &'static str = "IOPSSetPowerSourceDetails";

/// The native function that releases a source.
pub const RELEASE: &'static str = "IOPSReleasePowerSource";

/// Whether publication can work: the framework is there, and it exports all three
/// functions. `exported` says so of [`CREATE`], [`SET_DETAILS`] and [`RELEASE`].
pub fn load_spi(framework: bool, exported: [bool; 3]) -> (loaded: Result<(), PowerSourceError>)
    ensures
        loaded == (if !framework {
            Err(PowerSourceError::Unavailable(NO_FRAMEWORK))
        } else if exported[0] && exported[1] && exported[2] {
            Ok(())
        } else {
            Err(PowerSourceError::Unavailable(NO_FUNCTIONS))
        }),
{
    if !framework {
        return Err(PowerSourceError::Unavailable(NO_FRAMEWORK));
    }
    if exported[0] && exported[1] && exported[2] {
        Ok(())
    } else {
        Err(PowerSourceError::Unavailable(NO_FUNCTIONS))
    }
}

/// The result of a native call.
pub open spec fn checked(operation: &'static str, code: i32) -> Result<(), PowerSourceError> {
    if code == 0 {
        Ok(())
    } else {
        Err(PowerSourceError::Operation { operation, code })
    }
}

/// The result of a native call, from its code.
pub fn check(operation: &'static str, code: i32) -> (result: Result<(), PowerSourceError>)
    ensures
        result == checked(operation, code),
{
    if code == 0 {
        Ok(())
    } else {
        Err(PowerSourceError::Operation { operation, code })
    }
}

/// What the widget files an accessory under.
#[derive(Clone, Copy, Debug, PartialEq, Eq, Structural)]
pub enum AccessoryCategory {
    Mouse,
    Keyboard,
}

impl AccessoryCategory {
    pub open spec fn label(self) -> Seq<char> {
        match self {
            AccessoryCategory::Mouse => "Mouse"@,
            AccessoryCategory::Keyboard => "Keyboard"@,
        }
    }

    pub fn as_str(self) -> (name: &'static str)
        ensures
            name@ == self.label(),
    {
        match self {
            AccessoryCategory::Mouse => "Mouse",
            AccessoryCategory::Keyboard => "Keyboard",
        }
    }
}

/// One accessory's reading, as the widget is told.
#[derive(Debug)]
pub struct AccessoryPower {
    pub identifier: String,
    pub name: String,
    pub category: AccessoryCategory,
    pub percentage: u8,
    pub status: BatteryStatus,
}

/// What an [`AccessoryPower`] holds.
pub struct AccessoryModel {
    pub identifier: Seq<char>,
    pub name: Seq<char>,
    pub category: AccessoryCategory,
    pub percentage: u8,
    pub status: BatteryStatus,
}

impl Value for AccessoryPower {
    type Model = AccessoryModel;

    open spec fn model(&self) -> AccessoryModel {
        AccessoryModel {
            identifier: self.identifier@,
            name: self.name@,
            category: self.category,
            percentage: self.percentage,
            status: self.status,
        }
    }

    fn same(&self, other: &AccessoryPower) -> (same: bool) {
        self.identifier == other.identifier && self.name == other.name && self.category
            == other.category && self.percentage == other.percentage && self.status == other.status
    }

    fn copied(&self) -> (copy: AccessoryPower) {
        AccessoryPower {
            identifier: self.identifier.clone(),
            name: self.name.clone(),
            category: self.category,
            percentage: self.percentage,
            status: self.status,
        }
    }
}

/// A value of the widget's dictionary.
#[derive(Debug)]
pub enum DetailValue {
    Text(String),
    Number(i32),
    Flag(bool),
}

/// Whether an entry is a text under a key.
pub open spec fn is_text(entry: (&'static str, DetailValue), key: Seq<char>, text: Seq<char>) -> bool {
    entry.0@ == key && (entry.1 matches DetailValue::Text(own) && own@ == text)
}

/// Whether an entry is a number under a key.
pub open spec fn is_number(entry: (&'static str, DetailValue), key: Seq<char>, number: i32) -> bool {
    entry.0@ == key && entry.1 == DetailValue::Number(number)
}

/// Whether an entry is a flag under a key.
pub open spec fn is_flag(entry: (&'static str, DetailValue), key: Seq<char>, flag: bool) -> bool {
    entry.0@ == key && entry.1 == DetailValue::Flag(flag)
}

/// Whether a status means that the accessory takes up charge.
pub open spec fn charges(status: BatteryStatus) -> bool {
    status == BatteryStatus::Charging || status == BatteryStatus::ChargingSlow
}

/// The widget's dictionary for an accessory. A full accessory runs on external
/// power without charging. The transport is what the widget recognises, display
/// metadata only.
pub fn details_dictionary(accessory: &AccessoryPower) -> (details: Vec<(&'static str, DetailValue)>)
    ensures
        details@.len() == 10,
        is_text(details@[0], "Type"@, "Accessory Source"@),
        is_text(details@[1], "Accessory Category"@, accessory.category.label()),
        is_text(details@[2], "Accessory Identifier"@, accessory.identifier@),
        is_text(details@[3], "Name"@, accessory.name@),
        is_text(details@[4], "Transport Type"@, "Bluetooth"@),
        is_text(
            details@[5],
            "Power Source State"@,
            if charges(accessory.status) || accessory.status == BatteryStatus::Full {
                "AC Power"@
            } else {
                "Battery Power"@
            },
        ),
        is_number(details@[6], "Current Capacity"@, accessory.percentage as i32),
        is_number(details@[7], "Max Capacity"@, 100),
        is_flag(details@[8], "Is Present"@, true),
        is_flag(details@[9], "Is Charging"@, charges(accessory.status)),
{
    let charging: bool = matches!(
        accessory.status,
        BatteryStatus::Charging | BatteryStatus::ChargingSlow
    );
    let external: bool = charging || matches!(accessory.status, BatteryStatus::Full);
    let state: &str = if external { "AC Power" } else { "Battery Power" };
    let mut details: Vec<(&'static str, DetailValue)> = Vec::new();
    details.push(("Type", DetailValue::Text("Accessory Source".to_owned())));
    details.push(
        ("Accessory Category", DetailValue::Text(accessory.category.as_str().to_owned())),
    );
    details.push(("Accessory Identifier", DetailValue::Text(accessory.identifier.clone())));
    details.push(("Name", DetailValue::Text(accessory.name.clone())));
    details.push(("Transport Type", DetailValue::Text("Bluetooth".to_owned())));
    details.push(("Power Source State", DetailValue::Text(state.to_owned())));
    details.push(("Current Capacity", DetailValue::Number(accessory.percentage as i32)));
    details.push(("Max Capacity", DetailValue::Number(100)));
    details.push(("Is Present", DetailValue::Flag(true)));
    details.push(("Is Charging", DetailValue::Flag(charging)));
    details
}

/// One opaque native source. Releasing consumes it, even where that fails.
#[derive(Debug)]
pub struct Source {
    /// The number under which the native handle is kept.
    pub handle: Option<u64>,
}

impl Source {
    /// The source from a creation's code and handle.
    pub fn create(code: i32, handle: Option<u64>) -> (source: Result<Source, PowerSourceError>)
        ensures
            source == (if code != 0 {
                Err(PowerSourceError::Operation { operation: CREATE, code })
            } else if handle is None {
                Err(PowerSourceError::MissingHandle)
            } else {
                Ok(Source { handle })
            }),
    {
        match check(CREATE, code) {
            Err(error) => Err(error),
            Ok(()) => match handle {
                Some(handle) => Ok(Source { handle: Some(handle) }),
                None => Err(PowerSourceError::MissingHandle),
            },
        }
    }

    /// The handle to write details to.
    pub fn writable(&self) -> (handle: Result<u64, PowerSourceError>)
        ensures
            handle == (match self.handle {
                Some(handle) => Ok(handle),
                None => Err(PowerSourceError::MissingHandle),
            }),
    {
        match self.handle {
            Some(handle) => Ok(handle),
            None => Err(PowerSourceError::MissingHandle),
        }
    }

    /// Take the handle to release. It is taken before the native call, which frees
    /// it whatever it returns: nobody releases it again.
    pub fn release(&mut self) -> (handle: Option<u64>)
        ensures
            handle == old(self).handle,
            final(self).handle is None,
    {
        self.handle.take()
    }
}

/// What upserting an accessory calls for.
#[derive(Clone, Copy, Debug, PartialEq, Eq, Structural)]
pub enum UpsertStep {
    /// Create a source, then report by [`IoKitPowerSourceBackend::created`].
    Create,
    /// Write the details to the source under this handle.
    Write(u64),
}

impl Value for Source {
    type Model = Option<u64>;

    open spec fn model(&self) -> Option<u64> {
        self.handle
    }

    fn same(&self, other: &Source) -> (same: bool) {
        self.handle.same(&other.handle)
    }

    fn copied(&self) -> (copy: Source) {
        Source { handle: self.handle }
    }
}

/// The native sources, each under its accessory's identifier.
#[derive(Debug)]
pub struct IoKitPowerSourceBackend {
    pub sources: Assoc<String, Source>,
}

impl IoKitPowerSourceBackend {
    /// No sources yet.
    pub fn new() -> (backend: IoKitPowerSourceBackend)
        ensures
            backend.sources@ == Map::<Seq<char>, Option<u64>>::empty(),
            backend.sources.distinct(),
    {
        IoKitPowerSourceBackend { sources: Assoc::new() }
    }

    /// Decide what writing an accessory's details calls for: a source that is
    /// there is written to, whether or not its last write worked.
    pub fn upsert(&self, identifier: &String) -> (step: Result<UpsertStep, PowerSourceError>)
        ensures
            step == (if !self.sources@.dom().contains(identifier@) {
                Ok(UpsertStep::Create)
            } else {
                match self.sources@[identifier@] {
                    Some(handle) => Ok(UpsertStep::Write(handle)),
                    None => Err(PowerSourceError::MissingHandle),
                }
            }),
    {
        match self.sources.get(identifier) {
            Some(source) => match source.writable() {
                Ok(handle) => Ok(UpsertStep::Write(handle)),
                Err(error) => Err(error),
            },
            None => Ok(UpsertStep::Create),
        }
    }

    /// Note how creating a source went. One that was created is kept before its
    /// details are written, so that it is cleaned up even where that fails.
    pub fn created(&mut self, identifier: &String, code: i32, handle: Option<u64>) -> (written_to:
        Result<u64, PowerSourceError>)
        requires
            old(self).sources.distinct(),
        ensures
            final(self).sources.distinct(),
            match checked(CREATE, code) {
                Err(error) => written_to == Err::<u64, PowerSourceError>(error)
                    && final(self).sources@ == old(self).sources@,
                Ok(_) => match handle {
                    None => written_to == Err::<u64, PowerSourceError>(
                        PowerSourceError::MissingHandle,
                    ) && final(self).sources@ == old(self).sources@,
                    Some(handle) => written_to == Ok::<u64, PowerSourceError>(handle)
                        && final(self).sources@ == old(self).sources@.insert(
                        identifier@,
                        Some(handle),
                    ),
                },
            },
    {
        let source: Source = match Source::create(code, handle) {
            Ok(source) => source,
            Err(error) => {
                return Err(error);
            },
        };
        let written_to: Result<u64, PowerSourceError> = source.writable();
        self.sources.insert(identifier.clone(), source);
        written_to
    }

    /// Forget an accessory's source. Its handle comes back once, to be released:
    /// nothing is kept, whatever the release returns.
    pub fn remove(&mut self, identifier: &String) -> (handle: Option<u64>)
        requires
            old(self).sources.distinct(),
        ensures
            final(self).sources.distinct(),
            final(self).sources@ == old(self).sources@.remove(identifier@),
            handle == (if old(self).sources@.dom().contains(identifier@) {
                old(self).sources@[identifier@]
            } else {
                None
            }),
    {
        match self.sources.remove(identifier) {
            Some(mut source) => source.release(),
            None => None,
        }
    }
}

// ── The publisher ───────────────────────────────────────────────────────────

/// What the widget's status says.
#[derive(Debug, PartialEq, Eq)]
pub enum BatteryWidgetStatus {
    Disabled,
    /// The system cannot show accessories, and why.
    Unavailable { reason: String },
    Active { published_devices: usize },
    /// Some write or removal failed.
    Failed { published_devices: usize },
}

/// What is kept of one accessory.
#[derive(Debug)]
pub struct Published {
    /// The last reading that was written, none where no write has worked.
    pub reading: Option<AccessoryPower>,
    /// When the accessory went offline, in milliseconds.
    pub offline_at: Option<u64>,
}

/// What a [`Published`] holds.
pub struct PublishedModel {
    pub reading: Option<AccessoryModel>,
    pub offline_at: Option<u64>,
}

impl Value for Published {
    type Model = PublishedModel;

    open spec fn model(&self) -> PublishedModel {
        PublishedModel { reading: self.reading.model(), offline_at: self.offline_at }
    }

    fn same(&self, other: &Published) -> (same: bool) {
        self.reading.same(&other.reading) && self.offline_at.same(&other.offline_at)
    }

    fn copied(&self) -> (copy: Published) {
        Published { reading: self.reading.copied(), offline_at: self.offline_at }
    }
}

/// Whether a receiver's accessories are published: those of the two kinds of
/// receiver that pair with ordinary mice and keyboards.
pub open spec fn is_receiver(vendor_id: u16, product_id: u16) -> bool {
    vendor_id == 0x046d && (product_id == 0xc548 || product_id == 0xc52b)
}

/// What the widget files a device under. Others are not published.
pub open spec fn category_of(kind: DeviceKind) -> Option<AccessoryCategory> {
    match kind {
        DeviceKind::Mouse => Some(AccessoryCategory::Mouse),
        DeviceKind::Keyboard => Some(AccessoryCategory::Keyboard),
        DeviceKind::Unknown => None,
    }
}

/// What the widget files a device under.
pub fn category(kind: DeviceKind) -> (category: Option<AccessoryCategory>)
    ensures
        category == category_of(kind),
{
    match kind {
        DeviceKind::Mouse => Some(AccessoryCategory::Mouse),
        DeviceKind::Keyboard => Some(AccessoryCategory::Keyboard),
        DeviceKind::Unknown => None,
    }
}

/// The identity of a slot of a receiver.
pub open spec fn slot_identifier(receiver: Seq<char>, slot: u8) -> Seq<char> {
    "receiver:"@ + receiver + ":slot:"@ + decimal(slot as nat)
}

/// The identity of a slot of a receiver.
pub fn identifier(receiver: &str, slot: u8) -> (text: String)
    ensures
        text@ == slot_identifier(receiver@, slot),
{
    let mut text: String = "receiver:".to_owned();
    text.append(receiver);
    text.append(":slot:");
    push_decimal(&mut text, slot as u64);
    text
}

/// What an inventory pass says of one accessory.
#[derive(Debug)]
pub struct Sighting {
    pub identifier: String,
    pub online: bool,
    /// The reading, where the accessory reported one.
    pub reading: Option<AccessoryPower>,
}

/// What an inventory says of a device: nothing of one that is not published.
pub open spec fn sighting_of(
    vendor_id: u16,
    product_id: u16,
    receiver: Option<Seq<char>>,
    device: PairedDevice,
    custom_name: Option<Seq<char>>,
) -> Option<(Seq<char>, bool, Option<AccessoryModel>)> {
    if !is_receiver(vendor_id, product_id) || receiver is None || category_of(device.kind) is None {
        None
    } else {
        let own = slot_identifier(receiver->0, device.slot);
        Some(
            (
                own,
                device.online,
                match device.battery {
                    Some(battery) if device.online => Some(
                        AccessoryModel {
                            identifier: own,
                            name: match custom_name {
                                Some(name) => name,
                                None => device.shown_name(),
                            },
                            category: category_of(device.kind)->0,
                            percentage: battery.percentage,
                            status: battery.status,
                        },
                    ),
                    _ => None,
                },
            ),
        )
    }
}

/// The name that the user gave a device: names are kept by the identity that stays
/// with it.
pub open spec fn name_given(names: Map<Seq<char>, Seq<char>>, device: PairedDevice) -> Option<
    Seq<char>,
> {
    match device.lasting_key() {
        Some(key) if names.dom().contains(key) => Some(names[key]),
        _ => None,
    }
}

/// What a [`Sighting`] says: which accessory, whether it is online, and its reading.
pub type SightingModel = (Seq<char>, bool, Option<AccessoryModel>);

/// What a sighting says.
pub open spec fn sighting_model(sighting: Sighting) -> SightingModel {
    (sighting.identifier@, sighting.online, sighting.reading.model())
}

/// What sightings say.
pub open spec fn sighting_models(sightings: Seq<Sighting>) -> Seq<SightingModel> {
    Seq::new(sightings.len(), |i: int| sighting_model(sightings[i]))
}

/// What an inventory says of a device, under the name that the user gave it, if any.
pub fn sight(
    vendor_id: u16,
    product_id: u16,
    receiver: Option<&String>,
    device: &PairedDevice,
    names: &Assoc<String, String>,
) -> (sighting: Option<Sighting>)
    ensures
        ({
            let expected = sighting_of(
                vendor_id,
                product_id,
                match receiver {
                    Some(receiver) => Some(receiver@),
                    None => None,
                },
                *device,
                name_given(names@, *device),
            );
            match expected {
                Some(expected) => sighting matches Some(sighting) && sighting_model(sighting)
                    == expected,
                None => sighting is None,
            }
        }),
{
    if vendor_id != 0x046d || (product_id != 0xc548 && product_id != 0xc52b) {
        return None;
    }
    let receiver: &String = match receiver {
        Some(receiver) => receiver,
        None => {
            return None;
        },
    };
    let category: AccessoryCategory = match category(device.kind) {
        Some(category) => category,
        None => {
            return None;
        },
    };
    let own: String = identifier(receiver.as_str(), device.slot);
    let given: Option<&String> = match device.physical_key() {
        Some(key) => names.get(&key),
        None => None,
    };
    let reading: Option<AccessoryPower> = match &device.battery {
        Some(battery) => if device.online {
            Some(
                AccessoryPower {
                    identifier: own.clone(),
                    name: match given {
                        Some(name) => name.clone(),
                        None => device.display_name(),
                    },
                    category,
                    percentage: battery.percentage,
                    status: battery.status,
                },
            )
        } else {
            None
        },
        None => None,
    };
    Some(Sighting { identifier: own, online: device.online, reading })
}

/// What a receiver's devices come to, in order.
pub open spec fn receiver_sightings(
    receiver: ReceiverInfo,
    paired: Seq<PairedDevice>,
    names: Map<Seq<char>, Seq<char>>,
) -> Seq<SightingModel>
    decreases paired.len(),
{
    if paired.len() == 0 {
        Seq::empty()
    } else {
        let before = receiver_sightings(receiver, paired.drop_last(), names);
        match sighting_of(
            receiver.vendor_id,
            receiver.product_id,
            match receiver.unique_id {
                Some(id) => Some(id@),
                None => None,
            },
            paired.last(),
            name_given(names, paired.last()),
        ) {
            Some(sighting) => before.push(sighting),
            None => before,
        }
    }
}

/// What inventories come to, in order.
pub open spec fn all_sightings(
    inventories: Seq<DeviceInventory>,
    names: Map<Seq<char>, Seq<char>>,
) -> Seq<SightingModel>
    decreases inventories.len(),
{
    if inventories.len() == 0 {
        Seq::empty()
    } else {
        all_sightings(inventories.drop_last(), names) + receiver_sightings(
            inventories.last().receiver,
            inventories.last().paired@,
            names,
        )
    }
}

fn push_sightings(
    seen: &mut Vec<Sighting>,
    inventory: &DeviceInventory,
    names: &Assoc<String, String>,
)
    ensures
        sighting_models(final(seen)@) == sighting_models(old(seen)@) + receiver_sightings(
            inventory.receiver,
            inventory.paired@,
            names@,
        ),
{
    let ghost before = sighting_models(seen@);
    let mut i: usize = 0;
    assert(inventory.paired@.take(0) =~= Seq::<PairedDevice>::empty());
    assert(before + Seq::<SightingModel>::empty() =~= before);
    while i < inventory.paired.len()
        invariant
            i <= inventory.paired@.len(),
            sighting_models(seen@) == before + receiver_sightings(
                inventory.receiver,
                inventory.paired@.take(i as int),
                names@,
            ),
        decreases inventory.paired@.len() - i,
    {
        proof {
            lemma_take_one_more(inventory.paired@, i as int);
        }
        let ghost so_far = sighting_models(seen@);
        let receiver: &ReceiverInfo = &inventory.receiver;
        let unique_id: Option<&String> = match &receiver.unique_id {
            Some(id) => Some(id),
            None => None,
        };
        let found: Option<Sighting> = sight(
            receiver.vendor_id,
            receiver.product_id,
            unique_id,
            &inventory.paired[i],
            names,
        );
        if let Some(sighting) = found {
            let ghost model = sighting_model(sighting);
            seen.push(sighting);
            assert(sighting_models(seen@) =~= so_far.push(model));
            assert(sighting_models(seen@) =~= before + receiver_sightings(
                inventory.receiver,
                inventory.paired@.take(i + 1),
                names@,
            ));
        }
        i = i + 1;
    }
    assert(inventory.paired@.take(i as int) =~= inventory.paired@);
}

/// What inventories say of the accessories, in order.
pub fn sightings(inventories: &[DeviceInventory], names: &Assoc<String, String>) -> (seen: Vec<
    Sighting,
>)
    ensures
        sighting_models(seen@) == all_sightings(inventories@, names@),
{
    let mut seen: Vec<Sighting> = Vec::new();
    let mut i: usize = 0;
    assert(sighting_models(seen@) =~= all_sightings(inventories@.take(0), names@));
    while i < inventories.len()
        invariant
            i <= inventories@.len(),
            sighting_models(seen@) == all_sightings(inventories@.take(i as int), names@),
        decreases inventories@.len() - i,
    {
        proof {
            lemma_take_one_more(inventories@, i as int);
        }
        push_sightings(&mut seen, &inventories[i], names);
        i = i + 1;
    }
    assert(inventories@.take(i as int) =~= inventories@);
    seen
}

/// What is kept of the accessories.
pub type Kept = Map<Seq<char>, PublishedModel>;

/// An accessory that is online no longer counts its time offline. One that is
/// offline starts to, unless nothing is kept of it.
pub open spec fn after_sighting(kept: Kept, own: Seq<char>, online: bool, now: u64) -> Kept {
    if !kept.dom().contains(own) {
        kept
    } else {
        kept.insert(
            own,
            PublishedModel {
                offline_at: if online {
                    None
                } else {
                    match kept[own].offline_at {
                        Some(at) => Some(at),
                        None => Some(now),
                    }
                },
                ..kept[own]
            },
        )
    }
}

/// The time at which an accessory's grace is over.
pub open spec fn grace_over(published: PublishedModel) -> Option<u64> {
    match published.offline_at {
        Some(at) => if at + OFFLINE_GRACE <= u64::MAX {
            Some((at + OFFLINE_GRACE) as u64)
        } else {
            Some(u64::MAX)
        },
        None => None,
    }
}

/// When the next accessory's grace is over.
pub open spec fn next_grace(entries: Seq<(String, Published)>) -> Option<u64>
    decreases entries.len(),
{
    if entries.len() == 0 {
        None
    } else {
        earlier(next_grace(entries.drop_last()), grace_over(entries.last().1.model()))
    }
}

/// How many accessories have a reading that was written.
pub open spec fn written_count(entries: Seq<(String, Published)>) -> nat
    decreases entries.len(),
{
    if entries.len() == 0 {
        0
    } else if entries.last().1.model().reading is Some {
        written_count(entries.drop_last()) + 1
    } else {
        written_count(entries.drop_last())
    }
}

/// The identifiers of what is past its grace.
pub open spec fn expired_of(entries: Seq<(String, Published)>, now: u64) -> Seq<Seq<char>>
    decreases entries.len(),
{
    if entries.len() == 0 {
        Seq::empty()
    } else {
        let before = expired_of(entries.drop_last(), now);
        match grace_over(entries.last().1.model()) {
            Some(at) if at <= now => before.push(entries.last().0@),
            _ => before,
        }
    }
}

/// Whether an accessory is past its grace.
pub open spec fn is_over(published: PublishedModel, now: u64) -> bool {
    grace_over(published) matches Some(at) && at <= now
}

/// Whether a reading is to be written: there is one, and it is not the one last
/// written.
pub open spec fn is_written(kept: Kept, own: Seq<char>, reading: Option<AccessoryModel>) -> bool {
    reading is Some && !(kept.dom().contains(own) && kept[own].reading == reading)
}

/// What is kept once the sightings are in.
pub open spec fn seen_kept(kept: Kept, sightings: Seq<SightingModel>, now: u64) -> Kept
    decreases sightings.len(),
{
    if sightings.len() == 0 {
        kept
    } else {
        after_sighting(
            seen_kept(kept, sightings.drop_last(), now),
            sightings.last().0,
            sightings.last().1,
            now,
        )
    }
}

/// The accessories that were seen.
pub open spec fn seen_names(sightings: Seq<SightingModel>) -> Set<Seq<char>> {
    Set::new(
        |own: Seq<char>|
            exists|i: int| 0 <= i < sightings.len() && (#[trigger] sightings[i]).0 == own,
    )
}

/// What is kept of an accessory that a pass did not see: it counts as offline, from
/// this pass where it did not before.
pub open spec fn absent(published: PublishedModel, now: u64) -> PublishedModel {
    PublishedModel {
        offline_at: match published.offline_at {
            Some(at) => Some(at),
            None => Some(now),
        },
        ..published
    }
}

/// What is kept once those that were not seen count as offline.
pub open spec fn absences(kept: Kept, seen: Set<Seq<char>>, now: u64) -> Kept {
    Map::new(
        |own: Seq<char>| kept.dom().contains(own),
        |own: Seq<char>|
            if seen.contains(own) {
                kept[own]
            } else {
                absent(kept[own], now)
            },
    )
}

/// What is kept once every accessory of a pass was looked at.
pub open spec fn looked_at(kept: Kept, sightings: Seq<SightingModel>, now: u64) -> Kept {
    absences(seen_kept(kept, sightings, now), seen_names(sightings), now)
}

/// What stays of what is kept: all that is not past its grace.
pub open spec fn remaining(kept: Kept, now: u64) -> Kept {
    Map::new(
        |own: Seq<char>| kept.dom().contains(own) && !is_over(kept[own], now),
        |own: Seq<char>| kept[own],
    )
}

/// The readings that a pass writes, in order.
pub open spec fn writes_of(kept: Kept, sightings: Seq<SightingModel>) -> Seq<AccessoryModel>
    decreases sightings.len(),
{
    if sightings.len() == 0 {
        Seq::empty()
    } else {
        let before = writes_of(kept, sightings.drop_last());
        let (own, _, reading) = sightings.last();
        if is_written(kept, own, reading) {
            before.push(reading->0)
        } else {
            before
        }
    }
}

/// Whether a list of identifiers has each of some, once, and no other.
pub open spec fn lists_once(listed: Seq<Seq<char>>, wanted: spec_fn(Seq<char>) -> bool) -> bool {
    &&& forall|own: Seq<char>| #[trigger] listed.contains(own) <==> wanted(own)
    &&& listed.no_duplicates()
}

/// What is kept once a write went one way or the other. A write that failed keeps the
/// reading from before, and the accessory: its native source is to be cleaned up.
pub open spec fn after_write(kept: Kept, reading: AccessoryModel, worked: bool) -> Kept {
    kept.insert(
        reading.identifier,
        PublishedModel {
            reading: if worked {
                Some(reading)
            } else if kept.dom().contains(reading.identifier) {
                kept[reading.identifier].reading
            } else {
                None
            },
            offline_at: None,
        },
    )
}

/// What is kept once all writes went one way or the other.
pub open spec fn after_writes(kept: Kept, readings: Seq<AccessoryModel>, worked: Seq<bool>) -> Kept
    decreases readings.len(),
{
    if readings.len() == 0 {
        kept
    } else {
        after_write(
            after_writes(kept, readings.drop_last(), worked),
            readings.last(),
            worked[readings.len() - 1],
        )
    }
}

/// What a pass asks of the native backend.
#[derive(Debug)]
pub struct PassPlan {
    /// Publication is on, and the backend is there.
    pub publishes: bool,
    /// The readings to write, in order.
    pub writes: Vec<AccessoryPower>,
    /// The accessories whose sources are to be removed. Nothing is kept of them:
    /// removing consumes a source even where it fails.
    pub removals: Vec<String>,
}

/// The publisher of accessory readings.
#[derive(Debug)]
pub struct PowerSourcePublisher {
    pub kept: Assoc<String, Published>,
    pub status: BatteryWidgetStatus,
}

impl PowerSourcePublisher {
    pub fn new() -> (publisher: PowerSourcePublisher)
        ensures
            publisher.kept@ == Map::<Seq<char>, PublishedModel>::empty(),
            publisher.status == BatteryWidgetStatus::Disabled,
            publisher.kept.distinct(),
    {
        PowerSourcePublisher { kept: Assoc::new(), status: BatteryWidgetStatus::Disabled }
    }

    pub fn status(&self) -> (status: &BatteryWidgetStatus)
        ensures
            *status == self.status,
    {
        &self.status
    }

    /// Decide what a pass asks of the native backend.
    ///
    /// `prepared` is `None` where publishing is off: the native functions are then
    /// never looked at. Else it says whether they are there, and if not, why. Where
    /// publishing is off or impossible, everything goes. Otherwise the sightings are
    /// taken in, accessories that were not seen count as offline, those past their
    /// grace go, and changed readings are written. How all that went is reported by
    /// [`Self::settle`].
    pub fn reconcile(
        &mut self,
        prepared: Option<Result<(), String>>,
        sightings: Vec<Sighting>,
        now: u64,
    ) -> (plan: PassPlan)
        requires
            old(self).kept.distinct(),
        ensures
            final(self).kept.distinct(),
            plan.publishes == (prepared matches Some(Ok(_))),
            final(self).status == (match prepared {
                None => BatteryWidgetStatus::Disabled,
                Some(Ok(_)) => old(self).status,
                Some(Err(reason)) => BatteryWidgetStatus::Unavailable { reason },
            }),
            !plan.publishes ==> {
                &&& plan.writes@.len() == 0
                &&& lists_once(
                    plan.removals.model(),
                    |own: Seq<char>| old(self).kept@.dom().contains(own),
                )
                &&& final(self).kept@ == Map::<Seq<char>, PublishedModel>::empty()
            },
            plan.publishes ==> {
                let seen = sighting_models(sightings@);
                let all = looked_at(old(self).kept@, seen, now);
                &&& plan.writes.model() == writes_of(old(self).kept@, seen)
                &&& lists_once(
                    plan.removals.model(),
                    |own: Seq<char>| all.dom().contains(own) && is_over(all[own], now),
                )
                &&& final(self).kept@ == remaining(all, now)
            },
    {
        match prepared {
            None => {
                self.status = BatteryWidgetStatus::Disabled;
                return self.withdraw();
            },
            Some(Err(reason)) => {
                self.status = BatteryWidgetStatus::Unavailable { reason };
                return self.withdraw();
            },
            Some(Ok(())) => {},
        }
        let names: KeySet = names_seen(&sightings);
        let writes: Vec<AccessoryPower> = self.take_sightings(sightings, now);
        self.take_absences(&names, now);
        let removals: Vec<String> = self.take_expired(now);
        PassPlan { publishes: true, writes, removals }
    }

    fn withdraw(&mut self) -> (plan: PassPlan)
        requires
            old(self).kept.distinct(),
        ensures
            final(self).kept.distinct(),
            final(self).status == old(self).status,
            !plan.publishes,
            plan.writes@.len() == 0,
            lists_once(
                plan.removals.model(),
                |own: Seq<char>| old(self).kept@.dom().contains(own),
            ),
            final(self).kept@ == Map::<Seq<char>, PublishedModel>::empty(),
    {
        let removals: Vec<String> = self.clear_all();
        PassPlan { publishes: false, writes: Vec::new(), removals }
    }

    /// Take the sightings in. The readings to be written come back: those that are
    /// not the ones last written. An accessory without a reading keeps its last one,
    /// and one that was never read is not published.
    fn take_sightings(&mut self, sightings: Vec<Sighting>, now: u64) -> (writes: Vec<AccessoryPower>)
        requires
            old(self).kept.distinct(),
        ensures
            final(self).kept.distinct(),
            final(self).status == old(self).status,
            final(self).kept@ == seen_kept(old(self).kept@, sighting_models(sightings@), now),
            writes.model() == writes_of(old(self).kept@, sighting_models(sightings@)),
    {
        let ghost models = sighting_models(sightings@);
        let mut writes: Vec<AccessoryPower> = Vec::new();
        let mut i: usize = 0;
        assert(models.take(0) =~= Seq::<SightingModel>::empty());
        assert(writes.model() =~= Seq::<AccessoryModel>::empty());
        while i < sightings.len()
            invariant
                i <= sightings@.len(),
                models == sighting_models(sightings@),
                self.kept.distinct(),
                self.status == old(self).status,
                self.kept@ == seen_kept(old(self).kept@, models.take(i as int), now),
                writes.model() == writes_of(old(self).kept@, models.take(i as int)),
            decreases sightings@.len() - i,
        {
            proof {
                lemma_take_one_more(models, i as int);
                lemma_sightings_keep_readings(old(self).kept@, models.take(i as int), now);
            }
            let ghost so_far = writes.model();
            let sighting: &Sighting = &sightings[i];
            assert(models[i as int] == sighting_model(*sighting));
            let last: Option<Published> = match self.kept.get(&sighting.identifier) {
                Some(published) => Some(published.copied()),
                None => None,
            };
            let mut unchanged: bool = false;
            if let Some(published) = last {
                unchanged = published.reading.same(&sighting.reading);
                let offline_at: Option<u64> = if sighting.online {
                    None
                } else {
                    match published.offline_at {
                        Some(at) => Some(at),
                        None => Some(now),
                    }
                };
                self.kept.insert(
                    sighting.identifier.clone(),
                    Published { reading: published.reading, offline_at },
                );
            }
            if let Some(reading) = &sighting.reading {
                if !unchanged {
                    let reading: AccessoryPower = reading.copied();
                    let ghost model = reading.model();
                    writes.push(reading);
                    assert(writes.model() =~= so_far.push(model));
                }
            }
            i = i + 1;
        }
        assert(models.take(i as int) =~= models);
        writes
    }

    /// Have what was not seen count as offline.
    fn take_absences(&mut self, seen: &KeySet, now: u64)
        requires
            old(self).kept.distinct(),
        ensures
            final(self).kept.distinct(),
            final(self).status == old(self).status,
            final(self).kept@ == absences(old(self).kept@, seen@, now),
    {
        let mut i: usize = 0;
        while i < self.kept.entries.len()
            invariant
                i <= self.kept.entries@.len() == old(self).kept.entries@.len(),
                self.status == old(self).status,
                forall|j: int|
                    0 <= j < self.kept.entries@.len() ==> (#[trigger] self.kept.entries@[j]).0 == old(
                        self,
                    ).kept.entries@[j].0,
                forall|j: int|
                    0 <= j < i ==> (#[trigger] self.kept.entries@[j]).1.model() == (if seen@.contains(
                        old(self).kept.entries@[j].0@,
                    ) {
                        old(self).kept.entries@[j].1.model()
                    } else {
                        absent(old(self).kept.entries@[j].1.model(), now)
                    }),
                forall|j: int|
                    i <= j < self.kept.entries@.len() ==> #[trigger] self.kept.entries@[j] == old(
                        self,
                    ).kept.entries@[j],
            decreases self.kept.entries@.len() - i,
        {
            if !seen.contains(&self.kept.entries[i].0) && self.kept.entries[i].1.offline_at.is_none() {
                let reading: Option<AccessoryPower> = self.kept.entries[i].1.reading.copied();
                self.kept.entries[i].1 = Published { reading, offline_at: Some(now) };
            }
            i = i + 1;
        }
        proof {
            lemma_mapped_entries(
                old(self).kept,
                self.kept,
                |own: Seq<char>, published: PublishedModel|
                    if seen@.contains(own) {
                        published
                    } else {
                        absent(published, now)
                    },
            );
            assert(self.kept@ =~= absences(old(self).kept@, seen@, now));
        }
    }

    /// Forget what is past its grace. Its identifiers come back.
    fn take_expired(&mut self, now: u64) -> (gone: Vec<String>)
        requires
            old(self).kept.distinct(),
        ensures
            final(self).kept.distinct(),
            final(self).status == old(self).status,
            final(self).kept@ == remaining(old(self).kept@, now),
            lists_once(
                gone.model(),
                |own: Seq<char>|
                    old(self).kept@.dom().contains(own) && is_over(old(self).kept@[own], now),
            ),
    {
        let mut gone: Vec<String> = Vec::new();
        let mut i: usize = 0;
        while i < self.kept.entries.len()
            invariant
                i <= self.kept.entries@.len(),
                self.kept == old(self).kept,
                self.status == old(self).status,
                gone.model() == expired_of(self.kept.entries@.take(i as int), now),
            decreases self.kept.entries@.len() - i,
        {
            proof {
                lemma_take_one_more(self.kept.entries@, i as int);
            }
            let ghost before = gone.model();
            let over: bool = match deadline_of(&self.kept.entries[i].1) {
                Some(at) => at <= now,
                None => false,
            };
            if over {
                gone.push(self.kept.entries[i].0.clone());
                assert(gone.model() =~= before.push(self.kept.entries@[i as int].0@));
            }
            i = i + 1;
        }
        assert(self.kept.entries@.take(i as int) =~= self.kept.entries@);
        proof {
            expired_lists_what_is_over(self.kept, now);
        }
        let ghost names = gone.model();
        let mut n: usize = 0;
        while n < gone.len()
            invariant
                n <= gone@.len(),
                names == gone.model(),
                self.kept.distinct(),
                self.status == old(self).status,
                forall|own: Seq<char>| #[trigger]
                    self.kept@.dom().contains(own) <==> old(self).kept@.dom().contains(own)
                        && !names.take(n as int).contains(own),
                forall|own: Seq<char>|
                    self.kept@.dom().contains(own) ==> #[trigger] self.kept@[own]
                        == old(self).kept@[own],
            decreases gone@.len() - n,
        {
            let ghost before = self.kept@;
            let _ = self.kept.remove(&gone[n]);
            proof {
                let shorter = names.take(n as int);
                let longer = names.take(n + 1);
                assert(longer =~= shorter.push(names[n as int]));
                assert forall|own: Seq<char>| longer.contains(own) <==> shorter.contains(own) || own
                    == names[n as int] by {
                    if shorter.contains(own) {
                        let k = choose|k: int| 0 <= k < shorter.len() && shorter[k] == own;
                        assert(longer[k] == own);
                    }
                    if own == names[n as int] {
                        assert(longer[n as int] == own);
                    }
                    if longer.contains(own) && own != names[n as int] {
                        let k = choose|k: int| 0 <= k < longer.len() && longer[k] == own;
                        assert(shorter[k] == own);
                    }
                }
            }
            n = n + 1;
        }
        assert(names.take(n as int) =~= names);
        assert(self.kept@ =~= remaining(old(self).kept@, now));
        gone
    }

    /// Forget everything. The identifiers come back: the native sources are to be
    /// removed.
    pub fn clear_all(&mut self) -> (all: Vec<String>)
        requires
            old(self).kept.distinct(),
        ensures
            final(self).kept.distinct(),
            final(self).status == old(self).status,
            final(self).kept@ == Map::<Seq<char>, PublishedModel>::empty(),
            lists_once(all.model(), |own: Seq<char>| old(self).kept@.dom().contains(own)),
    {
        let mut all: Vec<String> = Vec::new();
        let mut i: usize = 0;
        while i < self.kept.entries.len()
            invariant
                i <= self.kept.entries@.len(),
                self.kept == old(self).kept,
                self.status == old(self).status,
                all@.len() == i,
                forall|j: int| 0 <= j < i ==> #[trigger] all@[j] == self.kept.entries@[j].0,
            decreases self.kept.entries@.len() - i,
        {
            all.push(self.kept.entries[i].0.clone());
            i = i + 1;
        }
        proof {
            let names = all.model();
            assert forall|own: Seq<char>| #[trigger] names.contains(own)
                <==> self.kept@.dom().contains(own) by {
                if names.contains(own) {
                    let k = choose|k: int| 0 <= k < names.len() && names[k] == own;
                    self.kept.lemma_entry(k);
                }
                if self.kept@.dom().contains(own) {
                    let at = self.kept.lemma_key(own);
                    assert(names[at] == own);
                }
            }
            assert forall|k: int, n: int| 0 <= k < names.len() && 0 <= n < names.len() && k != n implies
                names[k] != names[n] by {
                assert(names[k] == self.kept.entries@[k].0@);
                assert(names[n] == self.kept.entries@[n].0@);
            }
        }
        self.kept = Assoc::new();
        all
    }

    /// Note how a pass went: which writes worked, and whether all removals did. The
    /// status counts the accessories that have been written, and says whether
    /// something failed. Where nothing is published, it stays what the pass made it.
    pub fn settle(&mut self, plan: PassPlan, worked: &Vec<bool>, removed: bool)
        requires
            old(self).kept.distinct(),
            worked@.len() == plan.writes@.len(),
        ensures
            final(self).kept.distinct(),
            final(self).kept@ == after_writes(old(self).kept@, plan.writes.model(), worked@),
            !plan.publishes ==> final(self).status == old(self).status,
            plan.publishes ==> {
                let published_devices = written_count(final(self).kept.entries@) as usize;
                final(self).status == (if !removed || worked@.contains(false) {
                    BatteryWidgetStatus::Failed { published_devices }
                } else {
                    BatteryWidgetStatus::Active { published_devices }
                })
            },
    {
        let ghost models = plan.writes.model();
        let mut failed: bool = !removed;
        let mut i: usize = 0;
        assert(models.take(0) =~= Seq::<AccessoryModel>::empty());
        while i < plan.writes.len()
            invariant
                i <= plan.writes@.len() == worked@.len(),
                models == plan.writes.model(),
                self.kept.distinct(),
                self.status == old(self).status,
                self.kept@ == after_writes(old(self).kept@, models.take(i as int), worked@),
                failed == (!removed || worked@.take(i as int).contains(false)),
            decreases plan.writes@.len() - i,
        {
            proof {
                lemma_take_one_more(models, i as int);
                assert(worked@.take(i + 1) =~= worked@.take(i as int).push(worked@[i as int]));
                let shorter = worked@.take(i as int);
                let longer = worked@.take(i + 1);
                if shorter.contains(false) {
                    let k = choose|k: int| 0 <= k < shorter.len() && shorter[k] == false;
                    assert(longer[k] == false);
                }
                if longer.contains(false) && worked@[i as int] {
                    let k = choose|k: int| 0 <= k < longer.len() && longer[k] == false;
                    assert(shorter[k] == false);
                }
                assert(longer[i as int] == worked@[i as int]);
            }
            let reading: &AccessoryPower = &plan.writes[i];
            let last: Option<AccessoryPower> = match self.kept.get(&reading.identifier) {
                Some(published) => published.reading.copied(),
                None => None,
            };
            let own: String = reading.identifier.clone();
            if worked[i] {
                self.kept.insert(
                    own,
                    Published { reading: Some(reading.copied()), offline_at: None },
                );
            } else {
                failed = true;
                self.kept.insert(own, Published { reading: last, offline_at: None });
            }
            i = i + 1;
        }
        assert(models.take(i as int) =~= models);
        assert(worked@.take(i as int) =~= worked@);
        if plan.publishes {
            let published_devices: usize = self.count();
            if failed {
                self.status = BatteryWidgetStatus::Failed { published_devices };
            } else {
                self.status = BatteryWidgetStatus::Active { published_devices };
            }
        }
    }

    fn count(&self) -> (count: usize)
        ensures
            count == written_count(self.kept.entries@),
    {
        let mut count: usize = 0;
        let mut i: usize = 0;
        while i < self.kept.entries.len()
            invariant
                i <= self.kept.entries@.len(),
                count <= i,
                count == written_count(self.kept.entries@.take(i as int)),
            decreases self.kept.entries@.len() - i,
        {
            proof {
                lemma_take_one_more(self.kept.entries@, i as int);
            }
            if self.kept.entries[i].1.reading.is_some() {
                count = count + 1;
            }
            i = i + 1;
        }
        assert(self.kept.entries@.take(i as int) =~= self.kept.entries@);
        count
    }

    /// When the next accessory's grace is over.
    pub fn next_deadline(&self) -> (deadline: Option<u64>)
        ensures
            deadline == next_grace(self.kept.entries@),
    {
        let mut deadline: Option<u64> = None;
        let mut i: usize = 0;
        while i < self.kept.entries.len()
            invariant
                i <= self.kept.entries@.len(),
                deadline == next_grace(self.kept.entries@.take(i as int)),
            decreases self.kept.entries@.len() - i,
        {
            proof {
                lemma_take_one_more(self.kept.entries@, i as int);
            }
            deadline = earlier_of(deadline, deadline_of(&self.kept.entries[i].1));
            i = i + 1;
        }
        assert(self.kept.entries@.take(i as int) =~= self.kept.entries@);
        deadline
    }
}

fn names_seen(sightings: &Vec<Sighting>) -> (names: KeySet)
    ensures
        names@ == seen_names(sighting_models(sightings@)),
{
    let ghost models = sighting_models(sightings@);
    let mut names: KeySet = KeySet::new();
    let mut i: usize = 0;
    assert(names@ =~= seen_names(models.take(0)));
    while i < sightings.len()
        invariant
            i <= sightings@.len(),
            models == sighting_models(sightings@),
            names@ == seen_names(models.take(i as int)),
        decreases sightings@.len() - i,
    {
        let _ = names.insert(&sightings[i].identifier);
        proof {
            let shorter = models.take(i as int);
            let longer = models.take(i + 1);
            let own = sightings@[i as int].identifier@;
            assert(longer[i as int].0 == own);
            assert forall|name: Seq<char>| seen_names(longer).contains(name) <==> seen_names(
                shorter,
            ).contains(name) || name == own by {
                if seen_names(shorter).contains(name) {
                    let k = choose|k: int| 0 <= k < shorter.len() && (#[trigger] shorter[k]).0 == name;
                    assert(longer[k].0 == name);
                }
                if seen_names(longer).contains(name) && name != own {
                    let k = choose|k: int| 0 <= k < longer.len() && (#[trigger] longer[k]).0 == name;
                    assert(shorter[k].0 == name);
                }
            }
            assert(names@ =~= seen_names(longer));
        }
        i = i + 1;
    }
    assert(models.take(i as int) =~= models);
    names
}

/// Sightings change no reading, and neither add nor drop an accessory.
proof fn lemma_sightings_keep_readings(kept: Kept, sightings: Seq<SightingModel>, now: u64)
    ensures
        seen_kept(kept, sightings, now).dom() =~= kept.dom(),
        forall|own: Seq<char>|
            kept.dom().contains(own) ==> (#[trigger] seen_kept(kept, sightings, now)[own]).reading
                == kept[own].reading,
    decreases sightings.len(),
{
    if sightings.len() > 0 {
        lemma_sightings_keep_readings(kept, sightings.drop_last(), now);
    }
}

proof fn lemma_take_one_more<T>(all: Seq<T>, i: int)
    requires
        0 <= i < all.len(),
    ensures
        all.take(i + 1).drop_last() == all.take(i),
        all.take(i + 1).last() == all[i],
        all.take(i + 1).len() == i + 1,
{
    assert(all.take(i + 1).drop_last() =~= all.take(i));
}

fn deadline_of(published: &Published) -> (deadline: Option<u64>)
    ensures
        deadline == grace_over(published.model()),
{
    match published.offline_at {
        Some(at) => if at <= u64::MAX - OFFLINE_GRACE {
            Some(at + OFFLINE_GRACE)
        } else {
            Some(u64::MAX)
        },
        None => None,
    }
}

// ── Laws ────────────────────────────────────────────────────────────────────

/// An accessory that goes offline gets the whole grace: however often it is seen
/// offline again, its time counts from the first.
pub proof fn the_grace_counts_from_the_first_absence(
    kept: Kept,
    own: Seq<char>,
    first: u64,
    second: u64,
)
    requires
        kept.dom().contains(own),
        kept[own].offline_at is None,
        first + OFFLINE_GRACE <= u64::MAX,
    ensures
        ({
            let once = after_sighting(kept, own, false, first);
            let twice = after_sighting(once, own, false, second);
            &&& grace_over(once[own]) == Some((first + OFFLINE_GRACE) as u64)
            &&& twice[own] == once[own]
        }),
{
}

/// Being seen online cancels the deadline and keeps the last reading, whether or
/// not there is a new one.
pub proof fn coming_online_cancels_the_deadline(kept: Kept, own: Seq<char>, now: u64)
    requires
        kept.dom().contains(own),
    ensures
        grace_over(after_sighting(kept, own, true, now)[own]) is None,
        after_sighting(kept, own, true, now)[own].reading == kept[own].reading,
{
}

/// Only changed readings are written: the reading that was written last is not
/// written again.
pub proof fn unchanged_readings_are_not_written(kept: Kept, reading: AccessoryModel)
    ensures
        !is_written(
            kept.insert(
                reading.identifier,
                PublishedModel { reading: Some(reading), offline_at: None },
            ),
            reading.identifier,
            Some(reading),
        ),
{
}

/// What is past its grace is listed, each accessory once, and nothing else.
pub proof fn expired_lists_what_is_over(kept: Assoc<String, Published>, now: u64)
    requires
        kept.distinct(),
    ensures
        lists_once(
            expired_of(kept.entries@, now),
            |own: Seq<char>| kept@.dom().contains(own) && is_over(kept@[own], now),
        ),
{
    let names = expired_of(kept.entries@, now);
    lemma_expired(kept.entries@, now);
    assert forall|own: Seq<char>| #[trigger] names.contains(own) <==> kept@.dom().contains(own)
        && is_over(kept@[own], now) by {
        if names.contains(own) {
            let at = choose|at: int|
                0 <= at < kept.entries@.len() && #[trigger] lists_entry(kept.entries@, at, own, now);
            kept.lemma_entry(at);
        }
        if kept@.dom().contains(own) && is_over(kept@[own], now) {
            let at = kept.lemma_key(own);
            kept.lemma_entry(at);
            assert(lists_entry(kept.entries@, at, own, now));
        }
    }
}

/// Whether an entry puts an accessory on the list of what is past its grace.
spec fn lists_entry(entries: Seq<(String, Published)>, at: int, own: Seq<char>, now: u64) -> bool {
    entries[at].0@ == own && is_over(entries[at].1.model(), now)
}

proof fn lemma_expired(entries: Seq<(String, Published)>, now: u64)
    requires
        forall|i: int, j: int|
            0 <= i < j < entries.len() ==> (#[trigger] entries[i]).0.model() != (
            #[trigger] entries[j]).0.model(),
    ensures
        forall|own: Seq<char>| #[trigger]
            expired_of(entries, now).contains(own) <==> exists|at: int|
                0 <= at < entries.len() && #[trigger] lists_entry(entries, at, own, now),
        expired_of(entries, now).no_duplicates(),
    decreases entries.len(),
{
    if entries.len() > 0 {
        let before = entries.drop_last();
        let last = entries.last();
        assert forall|i: int, j: int| 0 <= i < j < before.len() implies (
        #[trigger] before[i]).0.model() != (#[trigger] before[j]).0.model() by {
            assert(before[i] == entries[i] && before[j] == entries[j]);
        }
        lemma_expired(before, now);
        let shorter = expired_of(before, now);
        let longer = expired_of(entries, now);
        let over = is_over(last.1.model(), now);
        assert(longer == (if over { shorter.push(last.0@) } else { shorter }));
        assert forall|own: Seq<char>| #[trigger] longer.contains(own) <==> exists|at: int|
            0 <= at < entries.len() && #[trigger] lists_entry(entries, at, own, now) by {
            if longer.contains(own) {
                if shorter.contains(own) {
                    let at = choose|at: int|
                        0 <= at < before.len() && #[trigger] lists_entry(before, at, own, now);
                    assert(lists_entry(entries, at, own, now));
                } else {
                    let k = choose|k: int| 0 <= k < longer.len() && longer[k] == own;
                    if k < shorter.len() {
                        assert(shorter[k] == own);
                    }
                    assert(lists_entry(entries, entries.len() - 1, own, now));
                }
            }
            if exists|at: int|
                0 <= at < entries.len() && #[trigger] lists_entry(entries, at, own, now) {
                let at = choose|at: int|
                    0 <= at < entries.len() && #[trigger] lists_entry(entries, at, own, now);
                if at < before.len() {
                    assert(lists_entry(before, at, own, now));
                    assert(shorter.contains(own));
                    let k = choose|k: int| 0 <= k < shorter.len() && shorter[k] == own;
                    assert(longer[k] == own);
                } else {
                    assert(longer[shorter.len() as int] == own);
                }
            }
        }
        assert(longer.no_duplicates()) by {
            if over && shorter.contains(last.0@) {
                let at = choose|at: int|
                    0 <= at < before.len() && #[trigger] lists_entry(before, at, last.0@, now);
                assert(entries[at].0.model() != entries[entries.len() - 1].0.model());
            }
            assert forall|k: int, n: int|
                0 <= k < longer.len() && 0 <= n < longer.len() && k != n implies longer[k]
                != longer[n] by {
                if k < shorter.len() {
                    assert(longer[k] == shorter[k]);
                    assert(shorter.contains(shorter[k]));
                }
                if n < shorter.len() {
                    assert(longer[n] == shorter[n]);
                    assert(shorter.contains(shorter[n]));
                }
            }
        }
    }
}

/// An accessory that a pass does not see counts as offline from that pass. It keeps
/// its reading, and it leaves with the first pass at or after the end of its grace in
/// which it is still not seen.
pub proof fn absent_accessories_leave_with_their_grace(
    kept: Kept,
    first: Seq<SightingModel>,
    second: Seq<SightingModel>,
    own: Seq<char>,
    at: u64,
    later: u64,
)
    requires
        kept.dom().contains(own),
        kept[own].offline_at is None,
        !seen_names(first).contains(own),
        !seen_names(second).contains(own),
        at + OFFLINE_GRACE <= u64::MAX,
    ensures
        ({
            let once = remaining(looked_at(kept, first, at), at);
            let twice = looked_at(once, second, later);
            &&& once.dom().contains(own)
            &&& once[own] == (PublishedModel {
                reading: kept[own].reading,
                offline_at: Some(at),
            })
            &&& twice.dom().contains(own) && twice[own] == once[own]
            &&& is_over(twice[own], later) <==> later >= at + OFFLINE_GRACE
            &&& remaining(twice, later).dom().contains(own) <==> later < at + OFFLINE_GRACE
        }),
{
    lemma_unseen_is_untouched(kept, first, own, at);
    let once = remaining(looked_at(kept, first, at), at);
    lemma_unseen_is_untouched(once, second, own, later);
}

proof fn lemma_unseen_is_untouched(kept: Kept, sightings: Seq<SightingModel>, own: Seq<char>, now: u64)
    requires
        kept.dom().contains(own),
        !seen_names(sightings).contains(own),
    ensures
        seen_kept(kept, sightings, now).dom().contains(own),
        seen_kept(kept, sightings, now)[own] == kept[own],
    decreases sightings.len(),
{
    if sightings.len() > 0 {
        let before = sightings.drop_last();
        assert(!seen_names(before).contains(own)) by {
            if seen_names(before).contains(own) {
                let i = choose|i: int| 0 <= i < before.len() && (#[trigger] before[i]).0 == own;
                assert(sightings[i].0 == own);
            }
        }
        assert(sightings[sightings.len() - 1].0 != own);
        lemma_unseen_is_untouched(kept, before, own, now);
    }
}

/// A native call worked exactly where its code is zero; any other code comes back with
/// the name of the call.
pub proof fn zero_is_success(operation: &'static str, code: i32)
    ensures
        checked(operation, 0) == Ok::<(), PowerSourceError>(()),
        code != 0 ==> checked(operation, code) == Err::<(), PowerSourceError>(
            PowerSourceError::Operation { operation, code },
        ),
{
}

/// Mice and keyboards are filed under their own names, and nothing else is published.
pub proof fn mice_and_keyboards_are_filed(kind: DeviceKind, status: BatteryStatus)
    ensures
        category_of(kind) is Some <==> kind == DeviceKind::Mouse || kind == DeviceKind::Keyboard,
        charges(status) ==> status == BatteryStatus::Charging || status
            == BatteryStatus::ChargingSlow,
        category_of(DeviceKind::Mouse) == Some(AccessoryCategory::Mouse),
        category_of(DeviceKind::Keyboard) == Some(AccessoryCategory::Keyboard),
        category_of(DeviceKind::Unknown) is None,
        AccessoryCategory::Mouse.label() == "Mouse"@,
        AccessoryCategory::Keyboard.label() == "Keyboard"@,
        charges(BatteryStatus::Charging),
        charges(BatteryStatus::ChargingSlow),
        !charges(BatteryStatus::Full),
        !charges(BatteryStatus::Discharging),
        !charges(BatteryStatus::Error),
        !charges(BatteryStatus::Unknown),
{
}

/// What an inventory says of a device: a mouse or a keyboard of a Bolt or a Unifying
/// receiver with an identity is published under that receiver and its slot, with its
/// reading while it is online and has a battery. No other device is published.
pub proof fn receivers_publish_mice_and_keyboards(
    vendor_id: u16,
    product_id: u16,
    receiver: Option<Seq<char>>,
    device: PairedDevice,
    custom_name: Option<Seq<char>>,
)
    ensures
        ({
            let sighting = sighting_of(vendor_id, product_id, receiver, device, custom_name);
            let published = vendor_id == 0x046d && (product_id == 0xc548 || product_id == 0xc52b)
                && receiver is Some && (device.kind == DeviceKind::Mouse || device.kind
                == DeviceKind::Keyboard);
            &&& sighting is Some <==> published
            &&& published ==> {
                let (own, online, reading) = sighting->0;
                &&& own == "receiver:"@ + receiver->0 + ":slot:"@ + decimal(device.slot as nat)
                &&& online == device.online
                &&& reading is Some <==> device.online && device.battery is Some
                &&& reading is Some ==> {
                    &&& reading->0.identifier == own
                    &&& reading->0.percentage == device.battery->0.percentage
                    &&& reading->0.status == device.battery->0.status
                    &&& reading->0.category == AccessoryCategory::Mouse <==> device.kind
                        == DeviceKind::Mouse
                    &&& custom_name matches Some(name) ==> reading->0.name == name
                    &&& custom_name is None ==> reading->0.name == device.shown_name()
                }
            }
        }),
{
}

/// Two slots of one receiver are two accessories.
pub proof fn slots_tell_accessories_apart(receiver: Seq<char>, a: u8, b: u8)
    requires
        slot_identifier(receiver, a) == slot_identifier(receiver, b),
    ensures
        a == b,
{
    let lead = "receiver:"@ + receiver + ":slot:"@;
    let (x, y) = (slot_identifier(receiver, a), slot_identifier(receiver, b));
    assert(x.skip(lead.len() as int) =~= decimal(a as nat));
    assert(y.skip(lead.len() as int) =~= decimal(b as nat));
    decimals_write_their_number(a as nat);
    decimals_write_their_number(b as nat);
}

/// A device goes by the name that the user gave it, where one is kept under its lasting
/// identity; a device without one goes by none.
pub proof fn given_names_follow_the_device(names: Map<Seq<char>, Seq<char>>, device: PairedDevice)
    ensures
        device.lasting_key() is None ==> name_given(names, device) is None,
        device.lasting_key() matches Some(key) ==> {
            &&& names.dom().contains(key) ==> name_given(names, device) == Some(names[key])
            &&& !names.dom().contains(key) ==> name_given(names, device) is None
        },
{
}

/// Every device of every receiver is looked at, in order, and each that is published is
/// sighted once.
pub proof fn every_device_is_looked_at(
    receiver: ReceiverInfo,
    paired: Seq<PairedDevice>,
    device: PairedDevice,
    inventories: Seq<DeviceInventory>,
    inventory: DeviceInventory,
    names: Map<Seq<char>, Seq<char>>,
)
    ensures
        ({
            let found = sighting_of(
                receiver.vendor_id,
                receiver.product_id,
                match receiver.unique_id {
                    Some(id) => Some(id@),
                    None => None,
                },
                device,
                name_given(names, device),
            );
            let before = receiver_sightings(receiver, paired, names);
            &&& found is None ==> receiver_sightings(receiver, paired.push(device), names) == before
            &&& found is Some ==> receiver_sightings(receiver, paired.push(device), names)
                == before.push(found->0)
            &&& receiver_sightings(receiver, Seq::empty(), names).len() == 0
            &&& all_sightings(Seq::empty(), names).len() == 0
            &&& all_sightings(inventories.push(inventory), names) == all_sightings(
                inventories,
                names,
            ) + receiver_sightings(inventory.receiver, inventory.paired@, names)
        }),
{
    assert(paired.push(device).drop_last() =~= paired);
    assert(inventories.push(inventory).drop_last() =~= inventories);
}

/// An accessory leaves two minutes after it went offline, and one that is online never
/// does.
pub proof fn the_grace_is_two_minutes(reading: Option<AccessoryModel>, at: u64, now: u64)
    requires
        at + 120_000 <= u64::MAX,
    ensures
        grace_over(PublishedModel { reading, offline_at: Some(at) }) == Some((at + 120_000) as u64),
        grace_over(PublishedModel { reading, offline_at: None }) is None,
        is_over(PublishedModel { reading, offline_at: Some(at) }, now) <==> now - at >= 120_000,
        !is_over(PublishedModel { reading, offline_at: None }, now),
{
}

/// A sighting counts for its own accessory alone: seen online it stops counting its time
/// offline, seen offline it counts from then on, or goes on. It never changes a reading,
/// and never adds an accessory of which nothing is kept.
pub proof fn sightings_count_for_their_accessory(
    kept: Kept,
    before: Seq<SightingModel>,
    own: Seq<char>,
    online: bool,
    reading: Option<AccessoryModel>,
    now: u64,
    other: Seq<char>,
)
    ensures
        ({
            let earlier = seen_kept(kept, before, now);
            let after = seen_kept(kept, before.push((own, online, reading)), now);
            &&& after.dom().contains(own) == earlier.dom().contains(own)
            &&& earlier.dom().contains(own) ==> {
                &&& after[own].reading == earlier[own].reading
                &&& online ==> after[own].offline_at is None
                &&& !online && earlier[own].offline_at is None ==> after[own].offline_at == Some(now)
                &&& !online && earlier[own].offline_at is Some ==> after[own].offline_at
                    == earlier[own].offline_at
            }
            &&& other != own ==> after.dom().contains(other) == earlier.dom().contains(other) && (
            earlier.dom().contains(other) ==> after[other] == earlier[other])
        }),
{
    assert(before.push((own, online, reading)).drop_last() =~= before);
}

/// A pass writes exactly the readings that are not the ones last written, in order.
pub proof fn changed_readings_are_written(
    kept: Kept,
    before: Seq<SightingModel>,
    own: Seq<char>,
    online: bool,
    reading: AccessoryModel,
)
    ensures
        writes_of(kept, Seq::empty()).len() == 0,
        writes_of(kept, before.push((own, online, None))) == writes_of(kept, before),
        writes_of(kept, before.push((own, online, Some(reading)))) == (if kept.dom().contains(own)
            && kept[own].reading == Some(reading) {
            writes_of(kept, before)
        } else {
            writes_of(kept, before).push(reading)
        }),
{
    assert(before.push((own, online, Some(reading))).drop_last() =~= before);
    assert(before.push((own, online, None::<AccessoryModel>)).drop_last() =~= before);
}

/// A write that worked is what is kept of its accessory; one that failed keeps what was
/// written before. Either way the accessory is online, and no other one is touched.
pub proof fn writes_are_kept_as_they_went(
    kept: Kept,
    readings: Seq<AccessoryModel>,
    reading: AccessoryModel,
    worked: Seq<bool>,
    other: Seq<char>,
)
    requires
        worked.len() == readings.len() + 1,
    ensures
        ({
            let own = reading.identifier;
            let earlier = after_writes(kept, readings, worked);
            let after = after_writes(kept, readings.push(reading), worked);
            &&& after.dom().contains(own)
            &&& after[own].offline_at is None
            &&& worked.last() ==> after[own].reading == Some(reading)
            &&& !worked.last() && earlier.dom().contains(own) ==> after[own].reading
                == earlier[own].reading
            &&& !worked.last() && !earlier.dom().contains(own) ==> after[own].reading is None
            &&& other != own ==> after.dom().contains(other) == earlier.dom().contains(other) && (
            earlier.dom().contains(other) ==> after[other] == earlier[other])
            &&& after_writes(kept, Seq::empty(), worked) == kept
        }),
{
    assert(readings.push(reading).drop_last() =~= readings);
}

/// The status counts each accessory that was written, once, and the deadline is the
/// earliest end of a grace.
pub proof fn written_accessories_are_counted(
    before: Seq<(String, Published)>,
    entry: (String, Published),
)
    ensures
        written_count(Seq::empty()) == 0,
        entry.1.reading is Some ==> written_count(before.push(entry)) == written_count(before) + 1,
        entry.1.reading is None ==> written_count(before.push(entry)) == written_count(before),
        next_grace(Seq::empty()) is None,
        entry.1.offline_at is None ==> next_grace(before.push(entry)) == next_grace(before),
        entry.1.offline_at matches Some(at) ==> (at <= u64::MAX - 120_000 ==> (next_grace(
            before.push(entry),
        ) matches Some(first) && first <= at + 120_000 && (next_grace(before) matches Some(
            earlier,
        ) ==> first <= earlier) && (first == at + 120_000 || next_grace(before) == Some(first)))),
{
    assert(before.push(entry).drop_last() =~= before);
}

/// What was seen stays as it was seen; what was not is offline from now on, or still; and
/// neither adds nor drops an accessory.
pub proof fn unseen_accessories_are_offline(
    kept: Kept,
    sightings: Seq<SightingModel>,
    own: Seq<char>,
    now: u64,
)
    requires
        seen_kept(kept, sightings, now).dom().contains(own),
    ensures
        ({
            let seen = seen_kept(kept, sightings, now);
            let all = looked_at(kept, sightings, now);
            let named = exists|i: int|
                0 <= i < sightings.len() && (#[trigger] sightings[i]).0 == own;
            &&& all.dom().contains(own)
            &&& all[own].reading == seen[own].reading
            &&& named ==> all[own] == seen[own]
            &&& !named && seen[own].offline_at is None ==> all[own].offline_at == Some(now)
            &&& !named && seen[own].offline_at is Some ==> all[own].offline_at
                == seen[own].offline_at
        }),
{
}

/// An entry is told by its key and its value together.
pub proof fn entries_are_told_by_key_and_value(
    name: &'static str,
    value: String,
    number: i32,
    flag: bool,
    key: Seq<char>,
    text: Seq<char>,
    other: i32,
    set: bool,
)
    ensures
        is_text((name, DetailValue::Text(value)), key, text) <==> name@ == key && value@ == text,
        is_number((name, DetailValue::Number(number)), key, other) <==> name@ == key && number
            == other,
        is_flag((name, DetailValue::Flag(flag)), key, set) <==> name@ == key && flag == set,
        !is_text((name, DetailValue::Number(number)), key, text),
        !is_text((name, DetailValue::Flag(flag)), key, text),
        !is_number((name, DetailValue::Text(value)), key, other),
        !is_number((name, DetailValue::Flag(flag)), key, other),
        !is_flag((name, DetailValue::Text(value)), key, set),
        !is_flag((name, DetailValue::Number(number)), key, set),
{
}

/// Sightings are seen one by one, in order, each with its accessory, whether it is online,
/// and its reading.
pub proof fn sightings_are_seen_whole(sightings: Seq<Sighting>, at: int)
    requires
        0 <= at < sightings.len(),
    ensures
        sighting_models(sightings).len() == sightings.len(),
        sighting_models(sightings)[at].0 == sightings[at].identifier@,
        sighting_models(sightings)[at].1 == sightings[at].online,
        sightings[at].reading is None <==> sighting_models(sightings)[at].2 is None,
        sightings[at].reading matches Some(reading) ==> (sighting_models(
            sightings,
        )[at].2 matches Some(seen) && seen.identifier == reading.identifier@ && seen.name
            == reading.name@ && seen.category == reading.category && seen.percentage
            == reading.percentage && seen.status == reading.status),
{
}

/// A list that has each of some once has one of them wherever it has an entry, and has no
/// entry twice.
pub proof fn lists_have_each_once(
    listed: Seq<Seq<char>>,
    wanted: spec_fn(Seq<char>) -> bool,
    own: Seq<char>,
    i: int,
    j: int,
)
    requires
        lists_once(listed, wanted),
    ensures
        wanted(own) <==> exists|k: int| 0 <= k < listed.len() && listed[k] == own,
        0 <= i < j < listed.len() ==> listed[i] != listed[j],
{
    if wanted(own) {
        assert(listed.contains(own));
    }
    if exists|k: int| 0 <= k < listed.len() && listed[k] == own {
        assert(listed.contains(own));
    }
}

} // verus!
