use openlogi_agent::device::{
    BatteryFreshness, BatteryInfo, BatteryLevel, BatteryStatus, DeviceInventory, DeviceKind,
    PairedDevice, ReceiverInfo,
};
use openlogi_agent::tray_glyph::{
    desired, invalidate, publish, state_for, BatteryGlyph, IconCell, TrayIcon, TrayIconStyle,
};

#[test]
fn glyph_indices_round_trip() {
    for index in 0..6 {
        let glyph = BatteryGlyph::from_index(index).expect("six glyphs");
        assert_eq!(glyph.index(), index);
    }
    assert_eq!(BatteryGlyph::from_index(6), None);
}

#[test]
fn the_glyph_mirrors_the_gui_device_card_mapping() {
    // The device card follows the same rule: the
    // firmware's `Critical` is the urgent state, `needs_attention` is the
    // low one, and everything else is fine. The tray subdivides "fine"
    // into three glyphs the card has no equivalent for, but it must not
    // call a device low that the card calls fine — or the reverse. That
    // is the drift this guards against.
    let cases = [
        (
            BatteryStatus::Charging,
            BatteryLevel::Low,
            15,
            BatteryGlyph::Charging,
        ),
        (
            BatteryStatus::ChargingSlow,
            BatteryLevel::Critical,
            5,
            BatteryGlyph::Charging,
        ),
        (
            BatteryStatus::Full,
            BatteryLevel::Unknown,
            100,
            BatteryGlyph::Full,
        ),
        (
            BatteryStatus::Error,
            BatteryLevel::Good,
            60,
            BatteryGlyph::Warning,
        ),
        (
            BatteryStatus::Discharging,
            BatteryLevel::Critical,
            8,
            BatteryGlyph::Warning,
        ),
        (
            BatteryStatus::Discharging,
            BatteryLevel::Low,
            15,
            BatteryGlyph::Low,
        ),
        // The `0x1000` bucket calls 20-49 % `Low`; above the attention
        // threshold the card draws that as fine, so the tray does too.
        (
            BatteryStatus::Discharging,
            BatteryLevel::Low,
            35,
            BatteryGlyph::Medium,
        ),
        // And the converse: a comfortable bucket does not outrank a
        // reading the card is already warning about.
        (
            BatteryStatus::Discharging,
            BatteryLevel::Good,
            12,
            BatteryGlyph::Low,
        ),
        (
            BatteryStatus::Discharging,
            BatteryLevel::Good,
            60,
            BatteryGlyph::Medium,
        ),
        (
            BatteryStatus::Discharging,
            BatteryLevel::Full,
            95,
            BatteryGlyph::Full,
        ),
        (
            BatteryStatus::Discharging,
            BatteryLevel::Unknown,
            60,
            BatteryGlyph::Unknown,
        ),
        (
            BatteryStatus::Discharging,
            BatteryLevel::Unknown,
            12,
            BatteryGlyph::Low,
        ),
        (
            BatteryStatus::Unknown,
            BatteryLevel::Good,
            60,
            BatteryGlyph::Medium,
        ),
    ];
    for (status, level, percentage, expected) in cases {
        let inv = inventory(&[(1, percentage, level, status)]);
        assert_eq!(
            state_for(&inv),
            Some(expected),
            "{status:?} + {level:?} at {percentage}% should map to {expected:?}"
        );
    }
}

/// The tray's low state and the card's are the same predicate, not two
/// tables that happen to agree today.
#[test]
fn the_low_glyph_tracks_the_shared_attention_threshold() {
    for percentage in 0..=100u8 {
        let battery = BatteryInfo {
            percentage,
            level: BatteryLevel::Good,
            status: BatteryStatus::Discharging,
            freshness: BatteryFreshness::Current,
        };
        let inv = inventory(&[(
            1,
            percentage,
            BatteryLevel::Good,
            BatteryStatus::Discharging,
        )]);
        let low = state_for(&inv) == Some(BatteryGlyph::Low);
        assert_eq!(
            low,
            battery.needs_attention(),
            "{percentage}% must draw the low glyph exactly when the card warns"
        );
    }
}

#[test]
fn charge_state_wins_over_the_level() {
    let inv = inventory(&[(1, 5, BatteryLevel::Critical, BatteryStatus::Charging)]);
    assert_eq!(
        state_for(&inv),
        Some(BatteryGlyph::Charging),
        "a critical device on power is charging, not a warning"
    );
}

#[test]
fn the_lowest_battery_device_owns_the_glyph() {
    let inv = inventory(&[
        (1, 74, BatteryLevel::Good, BatteryStatus::Discharging),
        (2, 12, BatteryLevel::Critical, BatteryStatus::Discharging),
    ]);
    assert_eq!(state_for(&inv), Some(BatteryGlyph::Warning));
}

#[test]
fn ties_break_on_inventory_order() {
    let inv = inventory(&[
        (1, 20, BatteryLevel::Critical, BatteryStatus::Discharging),
        (2, 20, BatteryLevel::Good, BatteryStatus::Discharging),
    ]);
    assert_eq!(
        state_for(&inv),
        Some(BatteryGlyph::Warning),
        "the first device at the tied percentage wins"
    );
}

#[test]
fn offline_devices_are_not_candidates() {
    let mut inv = inventory(&[
        (1, 74, BatteryLevel::Good, BatteryStatus::Discharging),
        (2, 12, BatteryLevel::Critical, BatteryStatus::Discharging),
    ]);
    inv[0].paired[1].online = false;
    assert_eq!(state_for(&inv), Some(BatteryGlyph::Medium));
}

#[test]
fn nothing_to_report_means_no_glyph() {
    assert_eq!(state_for(&[]), None);

    let mut inv = inventory(&[(1, 74, BatteryLevel::Good, BatteryStatus::Discharging)]);
    inv[0].paired[0].battery = None;
    assert_eq!(
        state_for(&inv),
        None,
        "a device with no battery is not a candidate"
    );
}

#[test]
fn every_glyph_has_a_vendored_recolourable_svg() {
    for glyph in [
        BatteryGlyph::Charging,
        BatteryGlyph::Full,
        BatteryGlyph::Medium,
        BatteryGlyph::Low,
        BatteryGlyph::Warning,
        BatteryGlyph::Unknown,
    ] {
        let svg = glyph.asset();
        assert!(svg.contains("<svg"), "{glyph:?} asset is not an SVG");
        assert!(
            svg.contains("currentColor"),
            "{glyph:?} must be recolourable by stroke substitution"
        );
    }
}

#[test]
fn publish_reports_only_genuine_changes() {

    let mut cell = IconCell::new();
    let good = inventory(&[(1, 74, BatteryLevel::Good, BatteryStatus::Discharging)]);
    let still_good = inventory(&[(1, 73, BatteryLevel::Good, BatteryStatus::Discharging)]);
    let low = inventory(&[(1, 20, BatteryLevel::Low, BatteryStatus::Discharging)]);

    // First call of the process: the tray already installed the brand
    // mark, so a brand-styled tick has nothing to say.
    assert_eq!(
        publish(&mut cell, TrayIconStyle::Brand, &good),
        None,
        "startup must not re-send the brand mark the tray just installed"
    );

    assert_eq!(
        publish(&mut cell, TrayIconStyle::Battery, &good),
        Some(TrayIcon::Battery(BatteryGlyph::Medium))
    );
    assert_eq!(
        publish(&mut cell, TrayIconStyle::Battery, &good),
        None,
        "an identical snapshot must not wake the tray"
    );
    assert_eq!(
        publish(&mut cell, TrayIconStyle::Battery, &still_good),
        None,
        "a percentage change that keeps the same level must not wake the tray"
    );
    assert_eq!(
        publish(&mut cell, TrayIconStyle::Battery, &low),
        Some(TrayIcon::Battery(BatteryGlyph::Low))
    );

    // Turning the setting off must actively restore the brand mark: the
    // shell keeps whatever icon it was last handed, so merely stopping
    // updates would strand a battery glyph on screen forever.
    assert_eq!(
        publish(&mut cell, TrayIconStyle::Brand, &low),
        Some(TrayIcon::Brand),
        "disabling the battery glyph must ask for the brand mark back"
    );
    assert_eq!(
        publish(&mut cell, TrayIconStyle::Brand, &low),
        None,
        "the brand mark must not be re-sent every tick"
    );
    assert_eq!(
        publish(&mut cell, TrayIconStyle::Brand, &good),
        None,
        "battery changes are irrelevant while the brand mark is shown"
    );

    // Re-enabling must redraw even though the battery state itself has
    // not moved since the last time the glyph was shown.
    assert_eq!(
        publish(&mut cell, TrayIconStyle::Battery, &good),
        Some(TrayIcon::Battery(BatteryGlyph::Medium)),
        "re-enabling must redraw the glyph, not be filtered as unchanged"
    );

    // A handoff that never reached the shell un-records itself, so the very
    // next tick re-sends the same icon rather than filtering it as a
    // repeat and leaving the shell showing something else.
    invalidate(&mut cell);
    assert_eq!(
        publish(&mut cell, TrayIconStyle::Battery, &good),
        Some(TrayIcon::Battery(BatteryGlyph::Medium)),
        "an invalidated cache must re-send even an unchanged icon"
    );
    assert_eq!(
        publish(&mut cell, TrayIconStyle::Battery, &good),
        None,
        "once re-sent, the filter goes back to dropping repeats"
    );
}

#[test]
fn a_host_with_no_battery_device_shows_the_brand_mark() {

    assert_eq!(
        desired(TrayIconStyle::Battery, &[]),
        TrayIcon::Brand,
        "with nothing to report there is no battery to draw"
    );
}

/// Tuple: (slot, percentage, level, status).
fn inventory(devices: &[(u8, u8, BatteryLevel, BatteryStatus)]) -> Vec<DeviceInventory> {
    vec![DeviceInventory {
        receiver: ReceiverInfo {
            name: "Logi Bolt Receiver".to_string(),
            vendor_id: 0x046d,
            product_id: 0xc548,
            unique_id: Some("bolt-1".to_string()),
        },
        paired: devices
            .iter()
            .map(|&(slot, percentage, level, status)| PairedDevice {
                slot,
                codename: Some(format!("device-{slot}")),
                wpid: None,
                kind: DeviceKind::Mouse,
                online: true,
                battery: Some(BatteryInfo {
                    percentage,
                    level,
                    status,
                    freshness: BatteryFreshness::Current,
                }),
                model_info: None,
                capabilities: None,
            })
            .collect(),
    }]
}
