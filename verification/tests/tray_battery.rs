use openlogi_agent::device::{
    BatteryFreshness, BatteryInfo, BatteryLevel, BatteryStatus, DeviceInventory, DeviceKind,
    PairedDevice, ReceiverInfo,
};
use openlogi_agent::tray_battery::{
    invalidate, label, publish, rows, snapshot, tooltip, TrayCell, TrayDevice, TOOLTIP_LIMIT,
};

#[test]
fn only_online_devices_that_report_battery_get_a_row() {
    let mut inv = inventory();
    inv[0].paired[1].online = false;
    inv[0].paired[2].battery = None;
    let rows = rows(&inv);
    assert_eq!(rows.len(), 1);
    assert_eq!(rows[0].name, "MX Master 3S");
}

#[test]
fn an_inventory_with_nothing_to_report_yields_no_rows() {
    let mut inv = inventory();
    for device in &mut inv[0].paired {
        device.battery = None;
    }
    assert!(rows(&inv).is_empty());
}

#[test]
fn rows_keep_inventory_order() {
    let rows = rows(&inventory());
    let names: Vec<&str> = rows.iter().map(|r| r.name.as_str()).collect();
    assert_eq!(names, ["MX Master 3S", "MX Keys", "Lift"]);
}

#[test]
fn a_row_reads_name_then_percentage() {
    let device = TrayDevice {
        name: "MX Master 3S".to_string(),
        percentage: 74,
        status: BatteryStatus::Discharging,
    };
    assert_eq!(label(&device), "MX Master 3S — 74%");
}

#[test]
fn charging_without_a_reading_says_charging_instead_of_zero() {
    let device = TrayDevice {
        name: "MX Anywhere 2S".to_string(),
        percentage: 0,
        status: BatteryStatus::Charging,
    };
    assert_eq!(label(&device), "MX Anywhere 2S — charging");
}

#[test]
fn charging_with_a_reading_still_shows_the_percentage() {
    let device = TrayDevice {
        name: "MX Keys".to_string(),
        percentage: 40,
        status: BatteryStatus::ChargingSlow,
    };
    assert_eq!(label(&device), "MX Keys — 40%");
}

#[test]
fn a_nameless_device_falls_back_to_kind_and_slot() {
    let mut inv = inventory();
    inv[0].paired[0].codename = None;
    inv[0].paired[0].kind = DeviceKind::Keyboard;
    inv[0].paired[0].slot = 3;
    assert_eq!(rows(&inv)[0].name, "Keyboard (slot 3)");
}

#[test]
fn the_tooltip_is_just_the_app_name_when_nothing_reports_battery() {
    assert_eq!(tooltip(&[]), "OpenLogi");
}

#[test]
fn the_tooltip_lists_every_device_under_the_app_name() {
    let tip = tooltip(&rows(&inventory()));
    assert_eq!(
        tip,
        "OpenLogi\nMX Master 3S — 74%\nMX Keys — 55%\nLift — 30%"
    );
}

#[test]
fn the_tooltip_uses_the_same_wording_as_the_menu_rows() {
    let charging = TrayDevice {
        name: "MX Anywhere 2S".to_string(),
        percentage: 0,
        status: BatteryStatus::Charging,
    };
    assert_eq!(tooltip(&[charging]), "OpenLogi\nMX Anywhere 2S — charging");
}

#[test]
fn a_tooltip_too_long_for_the_win32_buffer_is_truncated_with_an_ellipsis() {
    let many: Vec<TrayDevice> = (0..12)
        .map(|i| TrayDevice {
            name: format!("A Rather Long Device Name {i}"),
            percentage: 50,
            status: BatteryStatus::Discharging,
        })
        .collect();
    let tip = tooltip(&many);
    let units = tip.encode_utf16().count();
    assert!(
        units <= TOOLTIP_LIMIT,
        "tooltip must fit szTip: {units} units > {TOOLTIP_LIMIT}"
    );
    assert!(tip.ends_with('…'), "a truncated tooltip must say so: {tip}");
}

#[test]
fn a_tooltip_counts_utf_16_units() {
    let wide = TrayDevice {
        name: "😀".repeat(80),
        percentage: 50,
        status: BatteryStatus::Discharging,
    };
    let tip = tooltip(&[wide]);
    assert_eq!(tip.encode_utf16().count(), 126);
    assert!(tip.ends_with("😀…"));
}

#[test]
fn publish_reports_only_genuine_tooltip_changes() {
    let mut cell = TrayCell::new();
    let empty: Vec<DeviceInventory> = Vec::new();
    let listed = inventory();

    assert_eq!(
        publish(&mut cell, &empty),
        None,
        "startup must not re-send the tip the tray just installed"
    );

    let tip = publish(&mut cell, &listed).expect("a device row changes the tooltip");
    assert!(tip.contains("MX Master 3S"));
    assert_eq!(
        publish(&mut cell, &listed),
        None,
        "an identical snapshot must not wake the tray"
    );

    invalidate(&mut cell);
    assert_eq!(
        publish(&mut cell, &listed),
        Some(tip),
        "an invalidated cache must re-send even unchanged text"
    );
    assert_eq!(
        publish(&mut cell, &listed),
        None,
        "once re-sent, the filter goes back to dropping repeats"
    );
    let kept = snapshot(&cell);
    assert_eq!(kept.len(), 3);
    assert_eq!(kept[2].name, "Lift");
}

fn inventory() -> Vec<DeviceInventory> {
    let named = |slot: u8, codename: &str, percentage: u8| PairedDevice {
        slot,
        codename: Some(codename.to_string()),
        wpid: None,
        kind: DeviceKind::Mouse,
        online: true,
        battery: Some(BatteryInfo {
            percentage,
            level: BatteryLevel::Good,
            status: BatteryStatus::Discharging,
            freshness: BatteryFreshness::Current,
        }),
        model_info: None,
        capabilities: None,
    };
    vec![DeviceInventory {
        receiver: ReceiverInfo {
            name: "Logi Bolt Receiver".to_string(),
            vendor_id: 0x046d,
            product_id: 0xc548,
            unique_id: Some("bolt-1".to_string()),
        },
        paired: vec![
            named(1, "MX Master 3S", 74),
            named(2, "MX Keys", 55),
            named(3, "Lift", 30),
        ],
    }]
}
