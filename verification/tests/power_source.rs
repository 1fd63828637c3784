use openlogi_agent::device::{
    BatteryFreshness, BatteryInfo, BatteryLevel, BatteryStatus, DeviceInventory, DeviceKind,
    DeviceModelInfo, DeviceTransports, PairedDevice, ReceiverInfo,
};
use openlogi_agent::power_source::{
    check, details_dictionary, load_spi, sightings, AccessoryCategory, AccessoryPower,
    BatteryWidgetStatus, DetailValue, IoKitPowerSourceBackend, PowerSourceError,
    PowerSourcePublisher, Source, UpsertStep, NO_FRAMEWORK, NO_FUNCTIONS, OFFLINE_GRACE, RELEASE,
    SET_DETAILS,
};
use openlogi_agent::value::{Assoc, Value};

/// A widget that remembers what it was told.
#[derive(Default)]
struct FakeBackend {
    live: Vec<AccessoryPower>,
    prepares: usize,
    writes: usize,
    removals: usize,
    unavailable: bool,
    fail_write_slot: Option<u8>,
    fail_remove: bool,
}

impl FakeBackend {
    fn prepare(&mut self) -> Result<(), String> {
        self.prepares += 1;
        if self.unavailable {
            Err("missing test SPI".to_string())
        } else {
            Ok(())
        }
    }

    fn upsert(&mut self, accessory: &AccessoryPower) -> bool {
        self.writes += 1;
        if self
            .fail_write_slot
            .is_some_and(|slot| accessory.identifier.ends_with(&format!("slot:{slot}")))
        {
            return false;
        }
        self.live
            .retain(|own| own.identifier != accessory.identifier);
        self.live.push(accessory.copied());
        true
    }

    fn remove(&mut self, identifier: &str) -> bool {
        self.removals += 1;
        self.live.retain(|own| own.identifier != identifier);
        !self.fail_remove
    }

    fn reading(&self, identifier: &str) -> &AccessoryPower {
        self.live
            .iter()
            .find(|own| own.identifier == identifier)
            .expect("the accessory is live")
    }
}

struct Config {
    battery_widget: bool,
    /// The names that the user gave devices, by physical key.
    custom_names: Assoc<String, String>,
}

impl Default for Config {
    fn default() -> Self {
        Config {
            battery_widget: false,
            custom_names: Assoc::new(),
        }
    }
}

impl Config {
    fn set_device_custom_name(&mut self, key: &str, name: &str) {
        self.custom_names.insert(key.to_string(), name.to_string());
    }
}

fn enabled_config() -> Config {
    Config {
        battery_widget: true,
        ..Config::default()
    }
}

struct Publisher {
    policy: PowerSourcePublisher,
    backend: FakeBackend,
}

impl Publisher {
    fn new(backend: FakeBackend) -> Self {
        Publisher {
            policy: PowerSourcePublisher::new(),
            backend,
        }
    }

    fn clear_all(&mut self) {
        for own in self.policy.clear_all() {
            self.backend.remove(&own);
        }
    }

    fn reconcile(&mut self, config: &Config, inventories: &[DeviceInventory], now: u64) {
        let prepared = if config.battery_widget {
            Some(self.backend.prepare())
        } else {
            None
        };
        let seen = sightings(inventories, &config.custom_names);
        let plan = self.policy.reconcile(prepared, seen, now);
        let written: Vec<bool> = plan
            .writes
            .iter()
            .map(|reading| self.backend.upsert(reading))
            .collect();
        let mut removed = true;
        for own in &plan.removals {
            removed &= self.backend.remove(own);
        }
        self.policy.settle(plan, &written, removed);
    }

    fn status(&self) -> &BatteryWidgetStatus {
        self.policy.status()
    }
}

fn inventory() -> DeviceInventory {
    DeviceInventory {
        receiver: ReceiverInfo {
            name: "Logi Bolt Receiver".into(),
            vendor_id: 0x046d,
            product_id: 0xc548,
            unique_id: Some("test-receiver".into()),
        },
        paired: vec![PairedDevice {
            slot: 1,
            codename: Some("MX Master 3S".into()),
            wpid: Some(0xb034),
            kind: DeviceKind::Mouse,
            online: true,
            battery: Some(BatteryInfo {
                percentage: 77,
                level: BatteryLevel::Good,
                status: BatteryStatus::Discharging,
                freshness: BatteryFreshness::Current,
            }),
            model_info: None,
            capabilities: None,
        }],
    }
}

const NOW: u64 = 1_000_000;

#[test]
fn default_config_never_loads_spi() {
    let mut publisher = Publisher::new(FakeBackend::default());
    publisher.reconcile(&Config::default(), &[inventory()], NOW);
    assert_eq!(publisher.status(), &BatteryWidgetStatus::Disabled);
    assert_eq!(publisher.backend.prepares, 0);
    assert_eq!(publisher.backend.writes, 0);
}

#[test]
fn updates_only_changed_readings_and_uses_physical_custom_name() {
    let mut config = enabled_config();
    let mut inv = inventory();
    inv.paired[0].model_info = Some(DeviceModelInfo {
        entity_count: 1,
        serial_number: None,
        unit_id: [1, 2, 3, 4],
        transports: DeviceTransports {
            usb: false,
            equad: false,
            btle: false,
            bluetooth: false,
        },
        model_ids: [0xb034, 0, 0],
        extended_model_id: 0,
    });
    config.set_device_custom_name("unit:01020304", "Office Mouse");
    config.set_device_custom_name("unit:01020305", "Another Mouse");
    let mut publisher = Publisher::new(FakeBackend::default());
    let now = NOW;
    publisher.reconcile(&config, std::slice::from_ref(&inv), now);
    let reading = &publisher.backend.live[0];
    assert_eq!(reading.name, "Office Mouse");
    assert_eq!(reading.percentage, 77);
    assert_eq!(reading.status, BatteryStatus::Discharging);
    publisher.reconcile(&config, std::slice::from_ref(&inv), now + OFFLINE_GRACE);
    assert_eq!(publisher.backend.writes, 1);
    config.set_device_custom_name("unit:01020304", "Renamed");
    inv.paired[0].battery.as_mut().unwrap().status = BatteryStatus::ChargingSlow;
    publisher.reconcile(&config, &[inv], now + OFFLINE_GRACE);
    let reading = &publisher.backend.live[0];
    assert_eq!(reading.name, "Renamed");
    assert_eq!(reading.status, BatteryStatus::ChargingSlow);
    assert_eq!(publisher.backend.writes, 2);
}

#[test]
fn full_charge_transition_is_published_without_losing_external_power_state() {
    let now = NOW;
    let config = enabled_config();
    let mut inv = inventory();
    let mut publisher = Publisher::new(FakeBackend::default());
    inv.paired[0].battery.as_mut().unwrap().percentage = 100;
    inv.paired[0].battery.as_mut().unwrap().status = BatteryStatus::Charging;
    publisher.reconcile(&config, std::slice::from_ref(&inv), now);
    inv.paired[0].battery.as_mut().unwrap().status = BatteryStatus::Full;
    publisher.reconcile(&config, &[inv], now);
    assert_eq!(publisher.backend.writes, 2);
    assert_eq!(publisher.backend.live[0].status, BatteryStatus::Full);
}

#[test]
fn offline_and_absent_devices_receive_the_full_grace_period() {
    for absent in [false, true] {
        let mut publisher = Publisher::new(FakeBackend::default());
        let config = enabled_config();
        let now = NOW;
        let mut inv = inventory();
        publisher.reconcile(&config, std::slice::from_ref(&inv), now);
        inv.paired[0].online = false;
        let offline = if absent { vec![] } else { vec![inv] };
        let offline_at = now + 10_000;
        publisher.reconcile(&config, &offline, offline_at);
        assert_eq!(
            publisher.policy.next_deadline(),
            Some(offline_at + OFFLINE_GRACE)
        );
        publisher.reconcile(&config, &offline, offline_at + OFFLINE_GRACE - 1_000);
        assert_eq!(publisher.backend.live.len(), 1);
        publisher.reconcile(&config, &offline, offline_at + OFFLINE_GRACE);
        assert!(publisher.backend.live.is_empty());
        assert_eq!(publisher.policy.next_deadline(), None);
    }
}

#[test]
fn online_without_telemetry_cancels_offline_deadline_and_keeps_last_reading() {
    let mut publisher = Publisher::new(FakeBackend::default());
    let config = enabled_config();
    let now = NOW;
    let mut inv = inventory();
    publisher.reconcile(&config, std::slice::from_ref(&inv), now);
    publisher.reconcile(&config, &[], now + 1_000);
    inv.paired[0].battery = None;
    publisher.reconcile(&config, std::slice::from_ref(&inv), now + 2_000);
    assert_eq!(publisher.policy.next_deadline(), None);
    publisher.reconcile(&config, &[inv], now + OFFLINE_GRACE * 2);
    assert_eq!(publisher.backend.live[0].percentage, 77);
    assert_eq!(publisher.backend.writes, 1);
}

#[test]
fn filters_receivers_vendor_direct_devices_and_unsupported_kinds() {
    for (vendor, product, kind, expected) in [
        (0x046d, 0xc548, DeviceKind::Mouse, 1),
        (0x046d, 0xc52b, DeviceKind::Keyboard, 1),
        (0x046d, 0xc539, DeviceKind::Mouse, 0),
        (0x046d, 0xb807, DeviceKind::Keyboard, 0),
        (0x1234, 0xc548, DeviceKind::Mouse, 0),
        (0x046d, 0xc548, DeviceKind::Unknown, 0),
    ] {
        let mut inv = inventory();
        inv.receiver.vendor_id = vendor;
        inv.receiver.product_id = product;
        inv.paired[0].kind = kind;
        let mut publisher = Publisher::new(FakeBackend::default());
        publisher.reconcile(&enabled_config(), &[inv], NOW);
        assert_eq!(
            publisher.backend.live.len(),
            expected,
            "{vendor:x}:{product:x} {kind:?}"
        );
    }
}

#[test]
fn offline_first_sighting_and_missing_initial_reading_never_publish_zero() {
    for online in [false, true] {
        let mut inv = inventory();
        inv.paired[0].online = online;
        inv.paired[0].battery = None;
        let mut publisher = Publisher::new(FakeBackend::default());
        publisher.reconcile(&enabled_config(), &[inv], NOW);
        assert_eq!(publisher.backend.writes, 0);
        assert_eq!(publisher.policy.next_deadline(), None);
    }
}

#[test]
fn per_device_failure_preserves_successful_count_and_recovers_on_next_pass() {
    let backend = FakeBackend {
        fail_write_slot: Some(1),
        ..FakeBackend::default()
    };
    let mut publisher = Publisher::new(backend);
    let mut inv = inventory();
    let mut keyboard = inv.paired[0].copied();
    keyboard.slot = 2;
    keyboard.kind = DeviceKind::Keyboard;
    inv.paired.push(keyboard);
    let config = enabled_config();
    let now = NOW;
    publisher.reconcile(&config, std::slice::from_ref(&inv), now);
    assert!(matches!(
        publisher.status(),
        BatteryWidgetStatus::Failed {
            published_devices: 1,
            ..
        }
    ));
    assert_eq!(publisher.backend.writes, 2);
    publisher.backend.fail_write_slot = None;
    publisher.reconcile(&config, std::slice::from_ref(&inv), now);
    assert_eq!(
        publisher.status(),
        &BatteryWidgetStatus::Active {
            published_devices: 2
        }
    );
    assert_eq!(publisher.backend.writes, 3);
    publisher.backend.fail_write_slot = Some(1);
    inv.paired[0].battery.as_mut().unwrap().percentage = 50;
    publisher.reconcile(&config, &[inv], now);
    assert!(matches!(
        publisher.status(),
        BatteryWidgetStatus::Failed {
            published_devices: 2,
            ..
        }
    ));
    assert_eq!(
        publisher
            .backend
            .reading("receiver:test-receiver:slot:1")
            .percentage,
        77
    );
}

#[test]
fn unavailable_is_visible_without_devices_and_disable_clears_status() {
    let backend = FakeBackend {
        unavailable: true,
        ..FakeBackend::default()
    };
    let mut publisher = Publisher::new(backend);
    publisher.reconcile(&enabled_config(), &[], NOW);
    assert_eq!(
        publisher.status(),
        &BatteryWidgetStatus::Unavailable {
            reason: "missing test SPI".into()
        }
    );
    publisher.reconcile(&Config::default(), &[], NOW);
    assert_eq!(publisher.status(), &BatteryWidgetStatus::Disabled);
    assert_eq!(publisher.backend.prepares, 1);
}

#[test]
fn disable_removes_immediately_and_reenable_republishes() {
    let now = NOW;
    let mut publisher = Publisher::new(FakeBackend::default());
    publisher.reconcile(&enabled_config(), &[inventory()], now);
    publisher.reconcile(&Config::default(), &[inventory()], now);
    assert_eq!(publisher.status(), &BatteryWidgetStatus::Disabled);
    assert!(publisher.backend.live.is_empty());
    assert_eq!(publisher.backend.removals, 1);
    publisher.reconcile(&enabled_config(), &[inventory()], now);
    assert_eq!(
        publisher.status(),
        &BatteryWidgetStatus::Active {
            published_devices: 1
        }
    );
    assert_eq!(publisher.backend.writes, 2);
}

#[test]
fn failed_removal_is_reported_but_consumed_handle_is_never_released_twice() {
    let now = NOW;
    let config = enabled_config();
    let mut publisher = Publisher::new(FakeBackend::default());
    publisher.reconcile(&config, &[inventory()], now);
    publisher.backend.fail_remove = true;
    publisher.reconcile(&config, &[], now);
    publisher.reconcile(&config, &[], now + OFFLINE_GRACE);
    assert!(matches!(
        publisher.status(),
        BatteryWidgetStatus::Failed {
            published_devices: 0,
            ..
        }
    ));
    assert_eq!(publisher.policy.next_deadline(), None);
    publisher.clear_all();
    assert_eq!(publisher.backend.removals, 1);
    publisher.reconcile(&config, &[inventory()], now + OFFLINE_GRACE);
    assert_eq!(
        publisher.status(),
        &BatteryWidgetStatus::Active {
            published_devices: 1
        }
    );
}

#[test]
fn shutdown_cleans_up_a_failed_initial_publication() {
    let backend = FakeBackend {
        fail_write_slot: Some(1),
        ..FakeBackend::default()
    };
    let mut publisher = Publisher::new(backend);
    publisher.reconcile(&enabled_config(), &[inventory()], NOW);
    assert!(matches!(
        publisher.status(),
        BatteryWidgetStatus::Failed {
            published_devices: 0,
            ..
        }
    ));
    publisher.clear_all();
    assert_eq!(publisher.backend.removals, 1);
}

fn test_accessory(percentage: u8, status: BatteryStatus) -> AccessoryPower {
    AccessoryPower {
        identifier: "test".into(),
        name: "Mouse".into(),
        category: AccessoryCategory::Mouse,
        percentage,
        status,
    }
}

#[test]
fn native_details_preserve_full_external_power_without_active_charging() {
    for (status, power_source, charging) in [
        (BatteryStatus::Discharging, "Battery Power", false),
        (BatteryStatus::Charging, "AC Power", true),
        (BatteryStatus::ChargingSlow, "AC Power", true),
        (BatteryStatus::Full, "AC Power", false),
    ] {
        let details = details_dictionary(&test_accessory(100, status));
        let (_, state) = details
            .iter()
            .find(|(key, _)| *key == "Power Source State")
            .unwrap();
        assert!(
            matches!(state, DetailValue::Text(text) if text == power_source),
            "{status:?}"
        );
        let (_, active) = details
            .iter()
            .find(|(key, _)| *key == "Is Charging")
            .unwrap();
        assert!(
            matches!(active, DetailValue::Flag(flag) if *flag == charging),
            "{status:?}"
        );
    }
}

#[test]
fn source_drop_does_not_retry_a_failed_consuming_release() {
    let mut releases = 0;
    let mut source = Source { handle: Some(1) };
    if source.release().is_some() {
        releases += 1;
        assert_eq!(
            check(RELEASE, -1),
            Err(PowerSourceError::Operation {
                operation: "IOPSReleasePowerSource",
                code: -1
            })
        );
    }
    assert_eq!(source.release(), None);
    assert_eq!(releases, 1);
    assert_eq!(source.writable(), Err(PowerSourceError::MissingHandle));

    let mut pending = Source { handle: Some(1) };
    assert_eq!(pending.writable(), Ok(1));
    assert_eq!(
        check(SET_DETAILS, -1),
        Err(PowerSourceError::Operation {
            operation: "IOPSSetPowerSourceDetails",
            code: -1
        })
    );
    assert_eq!(pending.release(), Some(1));
}

#[test]
fn native_sources_need_the_framework_and_all_its_functions() {
    assert_eq!(
        load_spi(false, [true, true, true]),
        Err(PowerSourceError::Unavailable(NO_FRAMEWORK))
    );
    assert_eq!(
        load_spi(true, [true, false, true]),
        Err(PowerSourceError::Unavailable(NO_FUNCTIONS))
    );
    assert_eq!(load_spi(true, [true, true, true]), Ok(()));
    assert!(Source::create(-7, Some(1)).is_err());
    assert!(matches!(
        Source::create(0, None),
        Err(PowerSourceError::MissingHandle)
    ));
    assert_eq!(Source::create(0, Some(4)).unwrap().handle, Some(4));
}

#[test]
fn a_source_is_kept_until_it_is_removed_once() {
    let mut backend = IoKitPowerSourceBackend::new();
    let mouse = "mouse".to_string();
    assert_eq!(backend.upsert(&mouse), Ok(UpsertStep::Create));
    assert!(backend.created(&mouse, -1, Some(4)).is_err());
    assert_eq!(backend.upsert(&mouse), Ok(UpsertStep::Create));
    assert_eq!(
        backend.created(&mouse, 0, None),
        Err(PowerSourceError::MissingHandle)
    );
    assert_eq!(backend.created(&mouse, 0, Some(4)), Ok(4));
    assert_eq!(
        backend.upsert(&mouse),
        Ok(UpsertStep::Write(4)),
        "a failed write keeps the source for another"
    );
    assert_eq!(backend.remove(&mouse), Some(4));
    assert_eq!(backend.remove(&mouse), None);
}

#[test]
fn names_belong_to_physical_devices() {
    let mut config = enabled_config();
    config.set_device_custom_name("unit:00000000", "Nobody");
    config.set_device_custom_name("unit:0a0b0c0d", "Mine");
    let mut inv = inventory();
    let mut own = inv.paired[0].copied();
    own.slot = 2;
    own.model_info = Some(DeviceModelInfo {
        entity_count: 1,
        serial_number: None,
        unit_id: [10, 11, 12, 13],
        transports: DeviceTransports {
            usb: false,
            equad: false,
            btle: false,
            bluetooth: false,
        },
        model_ids: [0xb034, 0, 0],
        extended_model_id: 0,
    });
    let mut unnumbered = own.copied();
    unnumbered.slot = 3;
    unnumbered.model_info.as_mut().unwrap().unit_id = [0; 4];
    assert_eq!(own.physical_key().as_deref(), Some("unit:0a0b0c0d"));
    assert_eq!(unnumbered.physical_key(), None);
    inv.paired.push(own);
    inv.paired.push(unnumbered);
    let mut publisher = Publisher::new(FakeBackend::default());
    publisher.reconcile(&config, &[inv], NOW);
    let names: Vec<&str> = publisher
        .backend
        .live
        .iter()
        .map(|reading| reading.name.as_str())
        .collect();
    assert_eq!(names, ["MX Master 3S", "Mine", "MX Master 3S"]);
}
