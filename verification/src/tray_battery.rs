//! The tray's battery snapshot: the menu rows and the hover text.
use vstd::prelude::*;

use crate::device::{BatteryStatus, DeviceInventory, PairedDevice};
use crate::text::{chars_of, decimal, push_decimal, same_text};

verus! {

/// One battery row in the tray menu.
#[derive(Debug)]
pub struct TrayDevice {
    /// User-facing device name.
    pub name: String,
    /// Reported charge percentage.
    pub percentage: u8,
    /// Charging state when the percentage was read.
    pub status: BatteryStatus,
}

/// What a row holds.
pub struct TrayRow {
    pub name: Seq<char>,
    pub percentage: u8,
    pub status: BatteryStatus,
}

impl View for TrayDevice {
    type V = TrayRow;

    open spec fn view(&self) -> TrayRow {
        TrayRow { name: self.name@, percentage: self.percentage, status: self.status }
    }
}

/// What each of the rows holds.
pub open spec fn row_views(rows: Seq<TrayDevice>) -> Seq<TrayRow> {
    Seq::new(rows.len(), |i: int| rows[i]@)
}

/// The rows of one receiver's devices: those that are online and report a battery.
pub open spec fn paired_rows(devices: Seq<PairedDevice>) -> Seq<TrayRow>
    decreases devices.len(),
{
    if devices.len() == 0 {
        Seq::empty()
    } else {
        let before = paired_rows(devices.drop_last());
        let device = devices.last();
        if device.online && device.battery is Some {
            before.push(
                TrayRow {
                    name: device.shown_name(),
                    percentage: device.battery->0.percentage,
                    status: device.battery->0.status,
                },
            )
        } else {
            before
        }
    }
}

/// The rows of a whole inventory, in inventory order.
pub open spec fn inventory_rows(inventories: Seq<DeviceInventory>) -> Seq<TrayRow>
    decreases inventories.len(),
{
    if inventories.len() == 0 {
        Seq::empty()
    } else {
        inventory_rows(inventories.drop_last()) + paired_rows(inventories.last().paired@)
    }
}

/// Derive the menu rows from an inventory snapshot.
///
/// Only online devices that actually report a battery get a row, so a host with
/// nothing to report has none.
pub fn rows(inventories: &[DeviceInventory]) -> (rows: Vec<TrayDevice>)
    ensures
        row_views(rows@) == inventory_rows(inventories@),
{
    let mut rows: Vec<TrayDevice> = Vec::new();
    let mut i: usize = 0;
    assert(row_views(rows@) =~= inventory_rows(inventories@.take(0)));
    while i < inventories.len()
        invariant
            i <= inventories.len(),
            row_views(rows@) == inventory_rows(inventories@.take(i as int)),
        decreases inventories.len() - i,
    {
        let paired: &Vec<PairedDevice> = &inventories[i].paired;
        let ghost earlier = row_views(rows@);
        let mut j: usize = 0;
        assert(row_views(rows@) =~= earlier + paired_rows(paired@.take(0)));
        while j < paired.len()
            invariant
                j <= paired.len(),
                row_views(rows@) == earlier + paired_rows(paired@.take(j as int)),
            decreases paired.len() - j,
        {
            let device: &PairedDevice = &paired[j];
            let ghost shorter = rows@;
            if device.online {
                if let Some(battery) = &device.battery {
                    rows.push(
                        TrayDevice {
                            name: device.display_name(),
                            percentage: battery.percentage,
                            status: battery.status,
                        },
                    );
                    assert(row_views(rows@) =~= row_views(shorter).push(rows@.last()@));
                }
            }
            proof {
                assert(paired@.take(j + 1).drop_last() =~= paired@.take(j as int));
                assert(paired@.take(j + 1).last() == *device);
                assert(row_views(rows@) =~= earlier + paired_rows(paired@.take(j + 1)));
            }
            j = j + 1;
        }
        proof {
            assert(paired@.take(j as int) =~= paired@);
            assert(inventories@.take(i + 1).drop_last() =~= inventories@.take(i as int));
        }
        i = i + 1;
    }
    assert(inventories@.take(i as int) =~= inventories@);
    rows
}

/// The row's text: the percentage, or the word for a device that charges while
/// it still reports nothing.
pub open spec fn row_label(row: TrayRow) -> Seq<char> {
    let charging = row.status == BatteryStatus::Charging || row.status
        == BatteryStatus::ChargingSlow;
    if charging && row.percentage == 0 {
        row.name + " — charging"@
    } else {
        row.name + " — "@ + decimal(row.percentage as nat) + "%"@
    }
}

/// The row's text, for instance `"MX Master 3S — 74%"`.
///
/// A device that charges at 0% cannot gauge its charge under load, so the row
/// says that it charges instead of showing the bogus reading.
pub fn label(device: &TrayDevice) -> (text: String)
    ensures
        text@ == row_label(device@),
{
    let charging: bool = matches!(
        device.status,
        BatteryStatus::Charging | BatteryStatus::ChargingSlow
    );
    let mut text: String = device.name.clone();
    if charging && device.percentage == 0 {
        text.append(" — charging");
    } else {
        text.append(" — ");
        push_decimal(&mut text, device.percentage as u64);
        text.append("%");
    }
    text
}

/// Largest tooltip the shell will take, in UTF-16 units.
pub const TOOLTIP_LIMIT: usize = 127;

/// UTF-16 units of one character.
pub open spec fn width(c: char) -> int {
    if (c as u32) < 0x1_0000 { 1 } else { 2 }
}

/// UTF-16 units of a text.
pub open spec fn units(text: Seq<char>) -> int
    decreases text.len(),
{
    if text.len() == 0 {
        0
    } else {
        units(text.drop_last()) + width(text.last())
    }
}

/// The longest beginning of a text within a number of UTF-16 units.
pub open spec fn fitting(text: Seq<char>, limit: int) -> Seq<char>
    decreases text.len(),
{
    if text.len() == 0 || units(text) <= limit {
        text
    } else {
        fitting(text.drop_last(), limit)
    }
}

/// The app's name, then one line per row.
pub open spec fn listing(rows: Seq<TrayRow>) -> Seq<char>
    decreases rows.len(),
{
    if rows.len() == 0 {
        "OpenLogi"@
    } else {
        listing(rows.drop_last()).push('\n') + row_label(rows.last())
    }
}

/// The hover text: the listing, cut with an ellipsis where it is too long.
pub open spec fn tip_for(rows: Seq<TrayRow>) -> Seq<char> {
    let whole = listing(rows);
    if units(whole) <= TOOLTIP_LIMIT {
        whole
    } else {
        fitting(whole, TOOLTIP_LIMIT - 1).push('…')
    }
}

proof fn lemma_units_grow(text: Seq<char>, n: int)
    requires
        0 <= n <= text.len(),
    ensures
        0 <= units(text.take(n)) <= units(text),
        n <= units(text.take(n)) <= 2 * n,
    decreases text.len() - n,
{
    lemma_units_bounds(text.take(n));
    if n < text.len() {
        lemma_units_grow(text, n + 1);
        assert(text.take(n + 1).drop_last() =~= text.take(n));
    } else {
        assert(text.take(n) =~= text);
    }
}

proof fn lemma_units_bounds(text: Seq<char>)
    ensures
        text.len() <= units(text) <= 2 * text.len(),
    decreases text.len(),
{
    if text.len() > 0 {
        lemma_units_bounds(text.drop_last());
    }
}

proof fn lemma_fitting_is(text: Seq<char>, limit: int, n: int)
    requires
        0 <= n < text.len(),
        units(text.take(n)) <= limit,
        units(text.take(n + 1)) > limit,
    ensures
        fitting(text, limit) == text.take(n),
    decreases text.len(),
{
    lemma_units_grow(text, n + 1);
    let shorter = text.drop_last();
    if n < shorter.len() {
        assert(shorter.take(n) =~= text.take(n));
        assert(shorter.take(n + 1) =~= text.take(n + 1));
        lemma_fitting_is(shorter, limit, n);
    } else {
        assert(shorter =~= text.take(n));
        assert(text.take(n + 1) =~= text);
        assert(fitting(shorter, limit) == shorter);
    }
}

fn char_width(c: char) -> (units: usize)
    ensures
        units == width(c),
{
    if (c as u32) < 0x1_0000 { 1 } else { 2 }
}

/// Hover text for the tray icon: the app name, then one line per device, in the
/// same words as the menu rows. A text that would overflow [`TOOLTIP_LIMIT`] is
/// cut on a character boundary and says so with an ellipsis.
pub fn tooltip(devices: &[TrayDevice]) -> (tip: String)
    ensures
        tip@ == tip_for(row_views(devices@)),
{
    let mut tip: String = "OpenLogi".to_owned();
    let mut i: usize = 0;
    assert(row_views(devices@).take(0) =~= Seq::<TrayRow>::empty());
    while i < devices.len()
        invariant
            i <= devices.len(),
            tip@ == listing(row_views(devices@).take(i as int)),
        decreases devices.len() - i,
    {
        let text: String = label(&devices[i]);
        tip.push('\n');
        tip.append(text.as_str());
        proof {
            let all = row_views(devices@);
            assert(all.take(i + 1).drop_last() =~= all.take(i as int));
        }
        i = i + 1;
    }
    assert(row_views(devices@).take(i as int) =~= row_views(devices@));
    let chars: Vec<char> = chars_of(tip.as_str());
    let mut clipped: String = String::new();
    let mut used: usize = 0;
    let mut whole: bool = true;
    let mut n: usize = 0;
    let ghost mut cut: int = 0;
    assert(chars@.take(0) =~= Seq::<char>::empty());
    while n < chars.len() && used <= TOOLTIP_LIMIT
        invariant
            n <= chars.len(),
            used == units(chars@.take(n as int)),
            used <= TOOLTIP_LIMIT + 2,
            0 <= cut <= n,
            clipped@ == chars@.take(cut),
            units(chars@.take(cut)) <= TOOLTIP_LIMIT - 1,
            used <= TOOLTIP_LIMIT - 1 ==> cut == n,
            used > TOOLTIP_LIMIT - 1 ==> cut < n && units(chars@.take(cut + 1)) > TOOLTIP_LIMIT - 1,
        decreases chars.len() - n,
    {
        let c: char = chars[n];
        proof {
            assert(chars@.take(n + 1).drop_last() =~= chars@.take(n as int));
            assert(chars@.take(n + 1).last() == c);
        }
        let ghost fits = used <= TOOLTIP_LIMIT - 1;
        used = used + char_width(c);
        n = n + 1;
        if used <= TOOLTIP_LIMIT - 1 {
            clipped.push(c);
            proof {
                cut = cut + 1;
                assert(clipped@ =~= chars@.take(cut));
            }
        }
    }
    if used <= TOOLTIP_LIMIT {
        assert(chars@.take(n as int) =~= chars@);
        return tip;
    }
    proof {
        lemma_units_grow(chars@, n as int);
        lemma_fitting_is(chars@, TOOLTIP_LIMIT - 1, cut);
    }
    clipped.push('…');
    clipped
}

/// Every tooltip fits the shell's buffer.
pub proof fn tooltips_fit(rows: Seq<TrayRow>)
    ensures
        units(tip_for(rows)) <= TOOLTIP_LIMIT,
{
    let whole = listing(rows);
    if units(whole) > TOOLTIP_LIMIT {
        let cut = fitting(whole, TOOLTIP_LIMIT - 1);
        lemma_fitting_fits(whole, TOOLTIP_LIMIT - 1);
        assert(cut.push('…').drop_last() =~= cut);
        assert(width('…') == 1);
    }
}

proof fn lemma_fitting_fits(text: Seq<char>, limit: int)
    requires
        limit >= 0,
    ensures
        units(fitting(text, limit)) <= limit,
    decreases text.len(),
{
    if text.len() > 0 && units(text) > limit {
        lemma_fitting_fits(text.drop_last(), limit);
    }
}

/// What the tray publishes: the rows for the menu, and the last hover text that
/// was handed to the shell.
#[derive(Debug)]
pub struct TrayCell {
    pub devices: Vec<TrayDevice>,
    /// `None` where it is not known what the shell shows.
    pub last_tip: Option<String>,
}

impl TrayCell {
    /// The tip that the shell is known to show.
    pub open spec fn shown(self) -> Option<Seq<char>> {
        match self.last_tip {
            Some(tip) => Some(tip@),
            None => None,
        }
    }

    /// A cell for a tray that was installed with the plain app name.
    pub fn new() -> (cell: TrayCell)
        ensures
            cell.devices@.len() == 0,
            cell.shown() == Some("OpenLogi"@),
    {
        TrayCell { devices: Vec::new(), last_tip: Some("OpenLogi".to_owned()) }
    }
}

/// Forget the tooltip on screen, so that the next snapshot sends its text again
/// even where it did not change.
pub fn invalidate(cell: &mut TrayCell)
    ensures
        final(cell).shown() is None,
        final(cell).devices == old(cell).devices,
{
    cell.last_tip = None;
}

/// Publish a fresh snapshot. The new tooltip comes back only if it changed.
pub fn publish(cell: &mut TrayCell, inventories: &[DeviceInventory]) -> (sent: Option<String>)
    ensures
        row_views(final(cell).devices@) == inventory_rows(inventories@),
        ({
            let tip = tip_for(inventory_rows(inventories@));
            &&& final(cell).shown() == Some(tip)
            &&& sent is Some <==> old(cell).shown() != Some(tip)
            &&& sent is Some ==> sent->0@ == tip
        }),
{
    let next: Vec<TrayDevice> = rows(inventories);
    let tip: String = tooltip(next.as_slice());
    cell.devices = next;
    if let Some(last) = &cell.last_tip {
        if same_text(last.as_str(), tip.as_str()) {
            return None;
        }
    }
    cell.last_tip = Some(tip.clone());
    Some(tip)
}

/// The rows that the menu shows.
pub fn snapshot(cell: &TrayCell) -> (devices: Vec<TrayDevice>)
    ensures
        devices@ == cell.devices@,
{
    let mut devices: Vec<TrayDevice> = Vec::new();
    let mut i: usize = 0;
    while i < cell.devices.len()
        invariant
            i <= cell.devices.len(),
            devices@ == cell.devices@.take(i as int),
        decreases cell.devices.len() - i,
    {
        let device: &TrayDevice = &cell.devices[i];
        devices.push(
            TrayDevice {
                name: device.name.clone(),
                percentage: device.percentage,
                status: device.status,
            },
        );
        i = i + 1;
        assert(devices@ =~= cell.devices@.take(i as int));
    }
    assert(devices@ =~= cell.devices@);
    devices
}

// ── Laws ────────────────────────────────────────────────────────────────────

/// Every online device with a battery has one row, in order, with its name, its charge
/// and its state; no other device has one.
pub proof fn online_devices_have_rows(
    devices: Seq<PairedDevice>,
    device: PairedDevice,
    inventories: Seq<DeviceInventory>,
    inventory: DeviceInventory,
)
    ensures
        paired_rows(Seq::empty()).len() == 0,
        paired_rows(devices.push(device)) == (if device.online && device.battery is Some {
            paired_rows(devices).push(
                TrayRow {
                    name: device.shown_name(),
                    percentage: device.battery->0.percentage,
                    status: device.battery->0.status,
                },
            )
        } else {
            paired_rows(devices)
        }),
        inventory_rows(Seq::empty()).len() == 0,
        inventory_rows(inventories.push(inventory)) == inventory_rows(inventories) + paired_rows(
            inventory.paired@,
        ),
{
    assert(devices.push(device).drop_last() =~= devices);
    assert(inventories.push(inventory).drop_last() =~= inventories);
}

/// A row says the charge in percent, except for a device that charges at zero: that one
/// says that it charges.
pub proof fn rows_say_charge_or_charging(name: Seq<char>, percentage: u8, status: BatteryStatus)
    ensures
        ({
            let label = row_label(TrayRow { name, percentage, status });
            let charging = status == BatteryStatus::Charging || status
                == BatteryStatus::ChargingSlow;
            &&& label.take(name.len() as int) == name
            &&& charging && percentage == 0 ==> label.skip(name.len() as int) == " — charging"@
            &&& !(charging && percentage == 0) ==> label.skip(name.len() as int) == " — "@
                + decimal(percentage as nat).push('%')
        }),
{
    reveal_strlit("%");
    reveal_strlit(" — ");
    reveal_strlit(" — charging");
    let label = row_label(TrayRow { name, percentage, status });
    assert(label.take(name.len() as int) =~= name);
    let charging = status == BatteryStatus::Charging || status == BatteryStatus::ChargingSlow;
    if charging && percentage == 0 {
        assert(label.skip(name.len() as int) =~= " — charging"@);
    } else {
        assert(label.skip(name.len() as int) =~= " — "@ + decimal(percentage as nat).push('%'));
    }
}

/// A tooltip that fits is the app's name and a line for each row. A longer one is cut to
/// a beginning of that text and says so with an ellipsis, and nothing more would have
/// fitted.
pub proof fn tooltips_say_as_much_as_fits(rows: Seq<TrayRow>)
    ensures
        units(listing(rows)) <= 127 ==> tip_for(rows) == listing(rows),
        units(listing(rows)) > 127 ==> {
            let kept = tip_for(rows).len() - 1;
            &&& 0 <= kept < listing(rows).len()
            &&& tip_for(rows) == listing(rows).take(kept).push('…')
            &&& units(listing(rows).take(kept)) <= 126
            &&& units(listing(rows).take(kept + 1)) > 126
        },
{
    let whole = listing(rows);
    if units(whole) > 127 {
        let kept = lemma_fitting_is_a_beginning(whole, 126);
        assert(tip_for(rows) == whole.take(kept).push('…'));
    }
}

proof fn lemma_fitting_is_a_beginning(text: Seq<char>, limit: int) -> (kept: int)
    requires
        limit >= 0,
        units(text) > limit,
    ensures
        0 <= kept < text.len(),
        fitting(text, limit) == text.take(kept),
        units(text.take(kept)) <= limit,
        units(text.take(kept + 1)) > limit,
    decreases text.len(),
{
    let shorter = text.drop_last();
    let last = text.len() - 1;
    assert(text.take(last) =~= shorter);
    assert(text.take(last + 1) =~= text);
    if units(shorter) <= limit {
        assert(fitting(shorter, limit) == shorter);
        last
    } else {
        let kept = lemma_fitting_is_a_beginning(shorter, limit);
        assert(shorter.take(kept) =~= text.take(kept));
        assert(shorter.take(kept + 1) =~= text.take(kept + 1));
        kept
    }
}

/// The listing is the app's name, then the rows' labels, each on a line of its own.
pub proof fn listings_have_a_line_for_each_row(rows: Seq<TrayRow>, row: TrayRow)
    ensures
        listing(Seq::empty()) == "OpenLogi"@,
        listing(rows.push(row)) == listing(rows) + seq!['\n'] + row_label(row),
        listing(rows.push(row)).len() == listing(rows).len() + 1 + row_label(row).len(),
{
    assert(rows.push(row).drop_last() =~= rows);
    assert(listing(rows).push('\n') =~= listing(rows) + seq!['\n']);
}

/// A character of the basic plane takes one unit and any other two; a text takes as many
/// as its characters together.
pub proof fn units_add_up(text: Seq<char>, c: char)
    ensures
        units(Seq::empty()) == 0,
        units(text.push(c)) == units(text) + (if c as u32 <= 0xffff {
            1int
        } else {
            2int
        }),
{
    assert(text.push(c).drop_last() =~= text);
}

/// Rows are seen one by one, in order, each with its name, charge and state, and a cell
/// shows the tip that it last handed out.
pub proof fn rows_are_seen_whole(rows: Seq<TrayDevice>, at: int, cell: TrayCell)
    requires
        0 <= at < rows.len(),
    ensures
        row_views(rows).len() == rows.len(),
        row_views(rows)[at].name == rows[at].name@,
        row_views(rows)[at].percentage == rows[at].percentage,
        row_views(rows)[at].status == rows[at].status,
        cell.last_tip is None <==> cell.shown() is None,
        cell.last_tip matches Some(tip) ==> cell.shown() == Some(tip@),
{
}

} // verus!
