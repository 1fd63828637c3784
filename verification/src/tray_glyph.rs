//! What the tray icon should show, and whether that changed.
use vstd::prelude::*;

use crate::device::{BatteryInfo, BatteryLevel, BatteryStatus, DeviceInventory, PairedDevice,
    LOW_PERCENT};

verus! {

/// Which icon the user wants in the tray.
#[derive(Clone, Copy, Debug, PartialEq, Eq, Structural)]
pub enum TrayIconStyle {
    Brand,
    Battery,
}

/// What the notification-area icon should currently be.
#[derive(Clone, Copy, Debug, PartialEq, Eq, Structural)]
pub enum TrayIcon {
    /// The OpenLogi brand mark.
    Brand,
    /// A battery indicator for the lowest-charge online device.
    Battery(BatteryGlyph),
}

/// Which battery glyph the tray should draw: the charge state first, then how
/// much charge is left.
#[derive(Clone, Copy, Debug, PartialEq, Eq, Structural)]
pub enum BatteryGlyph {
    /// On power.
    Charging,
    /// At or near full charge.
    Full,
    /// Comfortable middle range.
    Medium,
    /// Running low.
    Low,
    /// Critical, or the firmware reported a charging fault.
    Warning,
    /// The firmware did not report a usable level.
    Unknown,
}

pub const SVG_CHARGING: &'static str = "<svg xmlns=\"http://www.w3.org/2000/svg\" width=\"24\" height=\"24\" viewBox=\"0 0 24 24\" fill=\"none\" stroke=\"currentColor\" stroke-width=\"2\" stroke-linecap=\"round\" stroke-linejoin=\"round\"><path d=\"M15 7h1a2 2 0 0 1 2 2v6a2 2 0 0 1-2 2h-2\"/><path d=\"M6 7H4a2 2 0 0 0-2 2v6a2 2 0 0 0 2 2h1\"/><path d=\"m11 7-3 5h4l-3 5\"/><line x1=\"22\" x2=\"22\" y1=\"11\" y2=\"13\"/></svg>";

pub const SVG_FULL: &'static str = "<svg xmlns=\"http://www.w3.org/2000/svg\" width=\"24\" height=\"24\" viewBox=\"0 0 24 24\" fill=\"none\" stroke=\"currentColor\" stroke-width=\"2\" stroke-linecap=\"round\" stroke-linejoin=\"round\"><rect width=\"16\" height=\"10\" x=\"2\" y=\"7\" rx=\"2\" ry=\"2\"/><line x1=\"22\" x2=\"22\" y1=\"11\" y2=\"13\"/><line x1=\"6\" x2=\"6\" y1=\"11\" y2=\"13\"/><line x1=\"10\" x2=\"10\" y1=\"11\" y2=\"13\"/><line x1=\"14\" x2=\"14\" y1=\"11\" y2=\"13\"/></svg>";

pub const SVG_MEDIUM: &'static str = "<svg xmlns=\"http://www.w3.org/2000/svg\" width=\"24\" height=\"24\" viewBox=\"0 0 24 24\" fill=\"none\" stroke=\"currentColor\" stroke-width=\"2\" stroke-linecap=\"round\" stroke-linejoin=\"round\"><rect width=\"16\" height=\"10\" x=\"2\" y=\"7\" rx=\"2\" ry=\"2\"/><line x1=\"22\" x2=\"22\" y1=\"11\" y2=\"13\"/><line x1=\"6\" x2=\"6\" y1=\"11\" y2=\"13\"/><line x1=\"10\" x2=\"10\" y1=\"11\" y2=\"13\"/></svg>";

pub const SVG_LOW: &'static str = "<svg xmlns=\"http://www.w3.org/2000/svg\" width=\"24\" height=\"24\" viewBox=\"0 0 24 24\" fill=\"none\" stroke=\"currentColor\" stroke-width=\"2\" stroke-linecap=\"round\" stroke-linejoin=\"round\"><rect width=\"16\" height=\"10\" x=\"2\" y=\"7\" rx=\"2\" ry=\"2\"/><line x1=\"22\" x2=\"22\" y1=\"11\" y2=\"13\"/><line x1=\"6\" x2=\"6\" y1=\"11\" y2=\"13\"/></svg>";

pub const SVG_WARNING: &'static str = "<svg xmlns=\"http://www.w3.org/2000/svg\" width=\"24\" height=\"24\" viewBox=\"0 0 24 24\" fill=\"none\" stroke=\"currentColor\" stroke-width=\"2\" stroke-linecap=\"round\" stroke-linejoin=\"round\"><path d=\"M10 17h.01\"/><path d=\"M10 7v6\"/><path d=\"M14 7h2a2 2 0 0 1 2 2v6a2 2 0 0 1-2 2h-2\"/><path d=\"M22 11v2\"/><path d=\"M6 7H4a2 2 0 0 0-2 2v6a2 2 0 0 0 2 2h2\"/></svg>";

pub const SVG_UNKNOWN: &'static str = "<svg xmlns=\"http://www.w3.org/2000/svg\" width=\"24\" height=\"24\" viewBox=\"0 0 24 24\" fill=\"none\" stroke=\"currentColor\" stroke-width=\"2\" stroke-linecap=\"round\" stroke-linejoin=\"round\"><rect width=\"16\" height=\"10\" x=\"2\" y=\"7\" rx=\"2\" ry=\"2\"/><line x1=\"22\" x2=\"22\" y1=\"11\" y2=\"13\"/></svg>";

impl BatteryGlyph {
    /// The glyph's place in the list of all of them.
    pub open spec fn place(self) -> int {
        match self {
            BatteryGlyph::Charging => 0,
            BatteryGlyph::Full => 1,
            BatteryGlyph::Medium => 2,
            BatteryGlyph::Low => 3,
            BatteryGlyph::Warning => 4,
            BatteryGlyph::Unknown => 5,
        }
    }

    /// Compact index, so that a glyph can travel as a plain number.
    pub fn index(self) -> (index: usize)
        ensures
            index == self.place(),
    {
        match self {
            BatteryGlyph::Charging => 0,
            BatteryGlyph::Full => 1,
            BatteryGlyph::Medium => 2,
            BatteryGlyph::Low => 3,
            BatteryGlyph::Warning => 4,
            BatteryGlyph::Unknown => 5,
        }
    }

    /// Inverse of [`Self::index`]. `None` for a value that never came from it.
    pub fn from_index(index: usize) -> (glyph: Option<BatteryGlyph>)
        ensures
            glyph is Some <==> index < 6,
            glyph is Some ==> glyph->0.place() == index,
    {
        match index {
            0 => Some(BatteryGlyph::Charging),
            1 => Some(BatteryGlyph::Full),
            2 => Some(BatteryGlyph::Medium),
            3 => Some(BatteryGlyph::Low),
            4 => Some(BatteryGlyph::Warning),
            5 => Some(BatteryGlyph::Unknown),
            _ => None,
        }
    }

    /// The glyph's drawing, recoloured by its `currentColor` stroke.
    pub fn asset(self) -> (svg: &'static str)
        ensures
            svg@ == (match self {
                BatteryGlyph::Charging => SVG_CHARGING@,
                BatteryGlyph::Full => SVG_FULL@,
                BatteryGlyph::Medium => SVG_MEDIUM@,
                BatteryGlyph::Low => SVG_LOW@,
                BatteryGlyph::Warning => SVG_WARNING@,
                BatteryGlyph::Unknown => SVG_UNKNOWN@,
            }),
    {
        match self {
            BatteryGlyph::Charging => SVG_CHARGING,
            BatteryGlyph::Full => SVG_FULL,
            BatteryGlyph::Medium => SVG_MEDIUM,
            BatteryGlyph::Low => SVG_LOW,
            BatteryGlyph::Warning => SVG_WARNING,
            BatteryGlyph::Unknown => SVG_UNKNOWN,
        }
    }
}

/// An index names one glyph: two glyphs at the same place are the same glyph.
pub proof fn index_round_trips(a: BatteryGlyph, b: BatteryGlyph)
    ensures
        0 <= a.place() < 6,
        a.place() == b.place() ==> a == b,
{
}

/// The glyph that one reading calls for.
pub open spec fn glyph_of(battery: BatteryInfo) -> BatteryGlyph {
    if battery.charging() {
        BatteryGlyph::Charging
    } else if battery.status == BatteryStatus::Full {
        BatteryGlyph::Full
    } else if battery.status == BatteryStatus::Error || battery.level == BatteryLevel::Critical {
        BatteryGlyph::Warning
    } else if battery.percentage <= LOW_PERCENT {
        BatteryGlyph::Low
    } else if battery.level == BatteryLevel::Full {
        BatteryGlyph::Full
    } else if battery.level == BatteryLevel::Unknown {
        BatteryGlyph::Unknown
    } else {
        BatteryGlyph::Medium
    }
}

/// Where the firmware reports neither power, nor a fault, nor a critical level, the
/// low glyph is drawn exactly for the readings that need attention.
pub proof fn the_low_glyph_tracks_attention(battery: BatteryInfo)
    requires
        battery.status == BatteryStatus::Discharging || battery.status == BatteryStatus::Unknown,
        battery.level != BatteryLevel::Critical,
    ensures
        glyph_of(battery) == BatteryGlyph::Low <==> battery.on_battery() && battery.percentage
            <= LOW_PERCENT,
{
}

/// The glyph for one battery reading. The firmware's `Critical` level is the
/// urgent state, [`BatteryInfo::needs_attention`] the low one; above that line a
/// firmware `Low` is a comfortable charge.
pub fn glyph_for(battery: &BatteryInfo) -> (glyph: BatteryGlyph)
    ensures
        glyph == glyph_of(*battery),
{
    match battery.status {
        BatteryStatus::Charging | BatteryStatus::ChargingSlow => BatteryGlyph::Charging,
        BatteryStatus::Full => BatteryGlyph::Full,
        BatteryStatus::Error => BatteryGlyph::Warning,
        BatteryStatus::Discharging | BatteryStatus::Unknown => {
            if battery.level == BatteryLevel::Critical {
                BatteryGlyph::Warning
            } else if battery.needs_attention() {
                BatteryGlyph::Low
            } else {
                match battery.level {
                    BatteryLevel::Full => BatteryGlyph::Full,
                    BatteryLevel::Unknown => BatteryGlyph::Unknown,
                    BatteryLevel::Critical | BatteryLevel::Low | BatteryLevel::Good => {
                        BatteryGlyph::Medium
                    },
                }
            }
        },
    }
}

/// The readings of one receiver's online devices.
pub open spec fn paired_readings(devices: Seq<PairedDevice>) -> Seq<BatteryInfo>
    decreases devices.len(),
{
    if devices.len() == 0 {
        Seq::empty()
    } else {
        let before = paired_readings(devices.drop_last());
        let device = devices.last();
        if device.online && device.battery is Some {
            before.push(device.battery->0)
        } else {
            before
        }
    }
}

/// The readings of every online device, in inventory order.
pub open spec fn readings(inventories: Seq<DeviceInventory>) -> Seq<BatteryInfo>
    decreases inventories.len(),
{
    if inventories.len() == 0 {
        Seq::empty()
    } else {
        readings(inventories.drop_last()) + paired_readings(inventories.last().paired@)
    }
}

/// The reading with the least charge, the earliest of those that tie.
pub open spec fn lowest(batteries: Seq<BatteryInfo>) -> Option<BatteryInfo>
    decreases batteries.len(),
{
    if batteries.len() == 0 {
        None
    } else {
        match lowest(batteries.drop_last()) {
            Some(least) if least.percentage <= batteries.last().percentage => Some(least),
            _ => Some(batteries.last()),
        }
    }
}

/// Whether no reading is below the one at `at`, and those before it are above it.
pub open spec fn is_first_minimum(batteries: Seq<BatteryInfo>, at: int) -> bool {
    &&& 0 <= at < batteries.len()
    &&& forall|i: int|
        0 <= i < batteries.len() ==> batteries[at].percentage <= (
        #[trigger] batteries[i]).percentage
    &&& forall|i: int|
        0 <= i < at ==> batteries[at].percentage < (#[trigger] batteries[i]).percentage
}

/// The lowest reading is the first of those with the least charge.
pub proof fn lowest_is_the_first_minimum(batteries: Seq<BatteryInfo>) -> (at: int)
    requires
        batteries.len() > 0,
    ensures
        is_first_minimum(batteries, at),
        lowest(batteries) == Some(batteries[at]),
    decreases batteries.len(),
{
    let before = batteries.drop_last();
    let last = batteries.len() - 1;
    if before.len() == 0 {
        assert(lowest(before) is None);
        0
    } else {
        let at = lowest_is_the_first_minimum(before);
        assert(batteries[at] == before[at]);
        assert forall|i: int| 0 <= i < before.len() implies batteries[i] == before[i] by {}
        if before[at].percentage <= batteries[last].percentage {
            at
        } else {
            last
        }
    }
}

/// The glyph of a snapshot.
pub open spec fn state_of(inventories: Seq<DeviceInventory>) -> Option<BatteryGlyph> {
    match lowest(readings(inventories)) {
        Some(battery) => Some(glyph_of(battery)),
        None => None,
    }
}

/// The glyph for a snapshot, or `None` when no online device reports a battery.
/// The device with the least charge owns it; ties keep inventory order.
pub fn state_for(inventories: &[DeviceInventory]) -> (glyph: Option<BatteryGlyph>)
    ensures
        glyph == state_of(inventories@),
{
    let mut least: Option<BatteryInfo> = None;
    let mut i: usize = 0;
    assert(readings(inventories@.take(0)) =~= Seq::<BatteryInfo>::empty());
    while i < inventories.len()
        invariant
            i <= inventories.len(),
            least == lowest(readings(inventories@.take(i as int))),
        decreases inventories.len() - i,
    {
        let paired: &Vec<PairedDevice> = &inventories[i].paired;
        let ghost earlier = readings(inventories@.take(i as int));
        let mut j: usize = 0;
        assert(earlier + paired_readings(paired@.take(0)) =~= earlier);
        while j < paired.len()
            invariant
                j <= paired.len(),
                least == lowest(earlier + paired_readings(paired@.take(j as int))),
            decreases paired.len() - j,
        {
            let device: &PairedDevice = &paired[j];
            proof {
                let shorter = paired@.take(j as int);
                let longer = paired@.take(j + 1);
                assert(longer.drop_last() =~= shorter);
                assert(longer.last() == *device);
                if device.online && device.battery is Some {
                    let seen = earlier + paired_readings(longer);
                    assert(seen.drop_last() =~= earlier + paired_readings(shorter));
                    assert(seen.last() == device.battery->0);
                }
            }
            if device.online {
                if let Some(battery) = &device.battery {
                    let lower: bool = match least {
                        Some(so_far) => battery.percentage < so_far.percentage,
                        None => true,
                    };
                    if lower {
                        least = Some(*battery);
                    }
                }
            }
            j = j + 1;
        }
        proof {
            assert(paired@.take(j as int) =~= paired@);
            assert(inventories@.take(i + 1).drop_last() =~= inventories@.take(i as int));
        }
        i = i + 1;
    }
    assert(inventories@.take(i as int) =~= inventories@);
    match least {
        Some(battery) => Some(glyph_for(&battery)),
        None => None,
    }
}

/// The icon that a style and a snapshot call for.
pub open spec fn wanted_icon(style: TrayIconStyle, inventories: Seq<DeviceInventory>) -> TrayIcon {
    match state_of(inventories) {
        Some(glyph) if style == TrayIconStyle::Battery => TrayIcon::Battery(glyph),
        _ => TrayIcon::Brand,
    }
}

/// The icon this snapshot and setting call for: the brand mark where the battery
/// style is off or where there is no battery to draw.
pub fn desired(style: TrayIconStyle, inventories: &[DeviceInventory]) -> (icon: TrayIcon)
    ensures
        icon == wanted_icon(style, inventories@),
{
    if style != TrayIconStyle::Battery {
        return TrayIcon::Brand;
    }
    match state_for(inventories) {
        Some(glyph) => TrayIcon::Battery(glyph),
        None => TrayIcon::Brand,
    }
}

/// The icon that the shell is known to show, `None` where that is not known.
#[derive(Debug)]
pub struct IconCell {
    pub last: Option<TrayIcon>,
}

impl IconCell {
    /// A cell for a tray that was installed with the brand mark.
    pub fn new() -> (cell: IconCell)
        ensures
            cell.last == Some(TrayIcon::Brand),
    {
        IconCell { last: Some(TrayIcon::Brand) }
    }
}

/// Forget what is on screen, so that the next snapshot sends its icon again even
/// where nothing about the batteries changed.
pub fn invalidate(cell: &mut IconCell)
    ensures
        final(cell).last is None,
{
    cell.last = None;
}

/// Compute the icon and report it only if it changed since it was last sent.
pub fn publish(cell: &mut IconCell, style: TrayIconStyle, inventories: &[DeviceInventory]) -> (sent:
    Option<TrayIcon>)
    ensures
        final(cell).last == Some(wanted_icon(style, inventories@)),
        sent == (if old(cell).last == Some(wanted_icon(style, inventories@)) {
            None
        } else {
            Some(wanted_icon(style, inventories@))
        }),
{
    let next: TrayIcon = desired(style, inventories);
    if let Some(last) = cell.last {
        if last == next {
            return None;
        }
    }
    cell.last = Some(next);
    Some(next)
}

/// What each glyph says. A charging device has the charging glyph, a full one the full
/// one, and one with a fault the warning, whatever else it reports. Otherwise a critical
/// level warns, a charge of at most twenty percent is low, and above that the level tells
/// full and unknown from the middle.
pub proof fn glyphs_say_what_is_reported(battery: BatteryInfo)
    ensures
        battery.status == BatteryStatus::Charging || battery.status == BatteryStatus::ChargingSlow
            <==> glyph_of(battery) == BatteryGlyph::Charging,
        battery.status == BatteryStatus::Full ==> glyph_of(battery) == BatteryGlyph::Full,
        battery.status == BatteryStatus::Error ==> glyph_of(battery) == BatteryGlyph::Warning,
        (battery.status == BatteryStatus::Discharging || battery.status == BatteryStatus::Unknown)
            ==> {
            &&& battery.level == BatteryLevel::Critical <==> glyph_of(battery)
                == BatteryGlyph::Warning
            &&& glyph_of(battery) == BatteryGlyph::Low <==> battery.level != BatteryLevel::Critical
                && battery.percentage <= 20
            &&& glyph_of(battery) == BatteryGlyph::Full <==> battery.percentage > 20
                && battery.level == BatteryLevel::Full
            &&& glyph_of(battery) == BatteryGlyph::Unknown <==> battery.percentage > 20
                && battery.level == BatteryLevel::Unknown
            &&& glyph_of(battery) == BatteryGlyph::Medium <==> battery.percentage > 20 && (
            battery.level == BatteryLevel::Low || battery.level == BatteryLevel::Good)
        },
{
}

/// The battery style draws the glyph of the online device with the least charge; without
/// one, and in the brand style, the brand mark stays.
pub proof fn the_icon_follows_style_and_charge(
    style: TrayIconStyle,
    inventories: Seq<DeviceInventory>,
    at: int,
)
    ensures
        style == TrayIconStyle::Brand ==> wanted_icon(style, inventories) == TrayIcon::Brand,
        readings(inventories).len() == 0 ==> wanted_icon(style, inventories) == TrayIcon::Brand,
        style == TrayIconStyle::Battery && is_first_minimum(readings(inventories), at)
            ==> wanted_icon(style, inventories) == TrayIcon::Battery(
            glyph_of(readings(inventories)[at]),
        ),
{
    let batteries = readings(inventories);
    if is_first_minimum(batteries, at) {
        let least = lowest_is_the_first_minimum(batteries);
        assert(batteries[at].percentage <= batteries[least].percentage);
        assert(batteries[least].percentage <= batteries[at].percentage);
    }
}

/// Every online device with a battery has its reading counted, in order, and no other
/// device has.
pub proof fn online_readings_count(
    devices: Seq<PairedDevice>,
    device: PairedDevice,
    inventories: Seq<DeviceInventory>,
    inventory: DeviceInventory,
)
    ensures
        paired_readings(Seq::empty()).len() == 0,
        paired_readings(devices.push(device)) == (if device.online && device.battery is Some {
            paired_readings(devices).push(device.battery->0)
        } else {
            paired_readings(devices)
        }),
        readings(Seq::empty()).len() == 0,
        readings(inventories.push(inventory)) == readings(inventories) + paired_readings(
            inventory.paired@,
        ),
{
    assert(devices.push(device).drop_last() =~= devices);
    assert(inventories.push(inventory).drop_last() =~= inventories);
}

} // verus!
