//! How a battery row of the menu looks.
use vstd::prelude::*;

use crate::battery::DeviceBattery;
use crate::device::Severity;
use crate::text::{decimal, push_decimal};

verus! {

/// A colour by its role.
#[derive(Clone, Copy, Debug, PartialEq, Eq, Structural)]
pub enum Tint {
    /// Text on an unselected row.
    Label,
    /// Text on the selected row.
    SelectedText,
    Green,
    Orange,
    Red,
}

/// How one row is drawn.
#[derive(Debug)]
pub struct RowStyle {
    /// Whether the selection is drawn behind the row.
    pub highlighted: bool,
    /// The name, the percentage and the bolt.
    pub foreground: Tint,
    /// The battery's outline.
    pub badge: Tint,
    /// The text inside the battery.
    pub value: String,
    /// Whether the charging bolt is drawn.
    pub bolt: bool,
    /// Points of the badge's width that the value is centred in.
    pub value_width: u32,
}

/// The warning colour of a severity, none for a normal one.
pub open spec fn warning_tint(severity: Severity) -> Option<Tint> {
    match severity {
        Severity::Normal => None,
        Severity::Low => Some(Tint::Orange),
        Severity::Critical => Some(Tint::Red),
    }
}

/// The warning colour of the brand mark. `None` leaves it to the menu bar.
pub fn set_warning_tint(severity: Severity) -> (tint: Option<Tint>)
    ensures
        tint == warning_tint(severity),
{
    match severity {
        Severity::Normal => None,
        Severity::Low => Some(Tint::Orange),
        Severity::Critical => Some(Tint::Red),
    }
}

/// Decide how a row is drawn. Only the outline carries the severity's colour: the
/// small percentage stays readable on translucent backgrounds.
pub fn draw_contents(device: &DeviceBattery, selected: bool) -> (style: RowStyle)
    ensures
        style.highlighted == selected,
        style.foreground == (if selected {
            Tint::SelectedText
        } else {
            Tint::Label
        }),
        style.badge == (if device.charging {
            Tint::Green
        } else {
            match warning_tint(device.severity) {
                Some(tint) => tint,
                None => style.foreground,
            }
        }),
        style.value@ == (match device.percentage {
            Some(value) => decimal(value as nat) + "%"@,
            None => "?"@,
        }),
        style.bolt == device.charging,
        style.value_width == (if device.charging {
            33u32
        } else {
            44u32
        }),
{
    let foreground: Tint = if selected { Tint::SelectedText } else { Tint::Label };
    let badge: Tint = if device.charging {
        Tint::Green
    } else {
        match set_warning_tint(device.severity) {
            Some(tint) => tint,
            None => foreground,
        }
    };
    let value: String = match device.percentage {
        Some(value) => {
            let mut text: String = String::new();
            push_decimal(&mut text, value as u64);
            assert(text@ =~= decimal(value as nat));
            text.append("%");
            text
        },
        None => "?".to_owned(),
    };
    RowStyle {
        highlighted: selected,
        foreground,
        badge,
        value,
        bolt: device.charging,
        value_width: if device.charging { 33 } else { 44 },
    }
}

/// A rectangle. Lengths are thousandths of a point.
#[derive(Clone, Copy, Debug, PartialEq, Eq, Structural)]
pub struct Area {
    pub x: i64,
    pub y: i64,
    pub width: i64,
    pub height: i64,
}

/// Where the parts of a row are drawn, in a row that is flipped: y grows
/// downward.
#[derive(Debug)]
pub struct RowLayout {
    /// The selection behind the row.
    pub selection: Area,
    pub name: Area,
    /// The battery's outline.
    pub outline: Area,
    /// The battery's terminal, beside the outline.
    pub terminal: Area,
    /// Where the text inside the battery begins.
    pub value_at: (i64, i64),
    /// The corners of the charging bolt, in order.
    pub bolt: Vec<(i64, i64)>,
}

/// The corners of the bolt in the outline, in points.
pub open spec fn bolt_corners() -> Seq<(int, int)> {
    seq![(39, 3), (34, 10), (38, 10), (36, 15), (42, 7), (38, 7)]
}

/// Whether a layout is the one for a row of some size, with a text of some size
/// in its battery. The battery stands at the right, in the middle; the text is
/// centred in it, or in what the bolt leaves of it.
pub open spec fn is_layout(layout: RowLayout, row: (int, int), value: (int, int), charging: bool) -> bool {
    let x = row.0 - 66_000;
    let y = (row.1 - 18_000) / 2;
    let room: int = if charging {
        33_000
    } else {
        44_000
    };
    &&& layout.selection.x == 5_000 && layout.selection.y == 1_000
    &&& layout.selection.width == row.0 - 10_000 && layout.selection.height == row.1 - 2_000
    &&& layout.name.x == 20_000 && layout.name.y == 5_000
    &&& layout.name.width == row.0 - 98_000 && layout.name.height == 20_000
    &&& layout.outline.x == x && layout.outline.y == y
    &&& layout.outline.width == 44_000 && layout.outline.height == 18_000
    &&& layout.terminal.x == x + 45_000 && layout.terminal.y == y + 5_000
    &&& layout.terminal.width == 2_000 && layout.terminal.height == 8_000
    &&& layout.value_at.0 == x + (room - value.0) / 2
    &&& layout.value_at.1 == y + (18_000 - value.1) / 2
    &&& layout.bolt@.len() == (if charging {
        6nat
    } else {
        0nat
    })
    &&& forall|i: int|
        0 <= i < layout.bolt@.len() ==> {
            &&& (#[trigger] layout.bolt@[i]).0 == x + bolt_corners()[i].0 * 1000
            &&& layout.bolt@[i].1 == y + bolt_corners()[i].1 * 1000
        }
}

/// Half of a length, rounded down.
fn half(length: i64) -> (halved: i64)
    ensures
        halved == length as int / 2,
{
    if length >= 0 || length % 2 == 0 {
        length / 2
    } else {
        length / 2 - 1
    }
}

/// Lay a row out.
pub fn row_layout(row: (i64, i64), value: (i64, i64), charging: bool) -> (layout: RowLayout)
    requires
        -0x1000_0000_0000_0000 <= row.0 <= 0x1000_0000_0000_0000,
        -0x1000_0000_0000_0000 <= row.1 <= 0x1000_0000_0000_0000,
        -0x1000_0000_0000_0000 <= value.0 <= 0x1000_0000_0000_0000,
        -0x1000_0000_0000_0000 <= value.1 <= 0x1000_0000_0000_0000,
    ensures
        is_layout(
            layout,
            (row.0 as int, row.1 as int),
            (value.0 as int, value.1 as int),
            charging,
        ),
{
    let x: i64 = row.0 - 66_000;
    let y: i64 = half(row.1 - 18_000);
    let room: i64 = if charging { 33_000 } else { 44_000 };
    let mut bolt: Vec<(i64, i64)> = Vec::new();
    if charging {
        bolt.push((x + 39_000, y + 3_000));
        bolt.push((x + 34_000, y + 10_000));
        bolt.push((x + 38_000, y + 10_000));
        bolt.push((x + 36_000, y + 15_000));
        bolt.push((x + 42_000, y + 7_000));
        bolt.push((x + 38_000, y + 7_000));
    }
    RowLayout {
        selection: Area { x: 5_000, y: 1_000, width: row.0 - 10_000, height: row.1 - 2_000 },
        name: Area { x: 20_000, y: 5_000, width: row.0 - 98_000, height: 20_000 },
        outline: Area { x, y, width: 44_000, height: 18_000 },
        terminal: Area { x: x + 45_000, y: y + 5_000, width: 2_000, height: 8_000 },
        value_at: (x + half(room - value.0), y + half(18_000 - value.1)),
        bolt,
    }
}

/// Least and most width of a row, in points.
pub const ROW_MIN_WIDTH: u32 = 260;

pub const ROW_MAX_WIDTH: u32 = 440;

/// The width of a row whose name takes so many points: room for the badge, within
/// bounds.
pub fn row_width(name_width: u32) -> (width: u32)
    ensures
        width == (if name_width + 110 < ROW_MIN_WIDTH {
            ROW_MIN_WIDTH as int
        } else if name_width + 110 > ROW_MAX_WIDTH {
            ROW_MAX_WIDTH as int
        } else {
            name_width + 110
        }),
{
    if name_width > ROW_MAX_WIDTH - 110 {
        ROW_MAX_WIDTH
    } else if name_width + 110 < ROW_MIN_WIDTH {
        ROW_MIN_WIDTH
    } else {
        name_width + 110
    }
}

/// Whether a key press on a row chooses it.
pub fn key_activates(characters: &str) -> (activates: bool)
    ensures
        activates == (characters@ == "\r"@ || characters@ == " "@),
{
    crate::text::same_text(characters, "\r") || crate::text::same_text(characters, " ")
}

// ── Laws ────────────────────────────────────────────────────────────────────

/// A low battery is orange, a critical one red, and a normal one leaves its colour to the
/// surface.
pub proof fn warnings_have_their_colours()
    ensures
        warning_tint(Severity::Low) == Some(Tint::Orange),
        warning_tint(Severity::Critical) == Some(Tint::Red),
        warning_tint(Severity::Normal) is None,
{
}

/// The battery stands whole in its row, at the right: its outline in the middle, its
/// terminal right of it and in its middle, and the name ends before it.
pub proof fn the_battery_stands_at_the_right(
    layout: RowLayout,
    row: (int, int),
    value: (int, int),
    charging: bool,
)
    requires
        is_layout(layout, row, value, charging),
        row.1 % 2 == 0,
    ensures
        row.0 - (layout.outline.x + layout.outline.width) == 22_000,
        layout.outline.y == row.1 - (layout.outline.y + layout.outline.height),
        layout.outline.width == 44_000 && layout.outline.height == 18_000,
        layout.terminal.x == layout.outline.x + layout.outline.width + 1_000,
        layout.terminal.y - layout.outline.y == (layout.outline.y + layout.outline.height) - (
        layout.terminal.y + layout.terminal.height),
        layout.terminal.width == 2_000 && layout.terminal.height == 8_000,
        layout.name.x == 20_000 && layout.name.y == 5_000 && layout.name.height == 20_000,
        layout.outline.x - (layout.name.x + layout.name.width) == 12_000,
        layout.selection.x == 5_000 && layout.selection.y == 1_000,
        row.0 - (layout.selection.x + layout.selection.width) == layout.selection.x,
        row.1 - (layout.selection.y + layout.selection.height) == layout.selection.y,
{
}

/// The text is centred in the battery, upright always, and sideways in the whole of it or,
/// while it charges, in the three quarters left of the bolt.
pub proof fn the_text_is_centred(
    layout: RowLayout,
    row: (int, int),
    value: (int, int),
    charging: bool,
)
    requires
        is_layout(layout, row, value, charging),
        value.0 % 2 == 0,
        value.1 % 2 == 0,
    ensures
        ({
            let left = layout.value_at.0 - layout.outline.x;
            let above = layout.value_at.1 - layout.outline.y;
            &&& above == 18_000 - above - value.1
            &&& !charging ==> left == 44_000 - left - value.0
            &&& charging ==> left == 33_000 - left - value.0
        }),
{
}

/// The bolt is drawn only while the battery charges, and lies within its outline.
pub proof fn the_bolt_lies_in_the_battery(
    layout: RowLayout,
    row: (int, int),
    value: (int, int),
    charging: bool,
    at: int,
)
    requires
        is_layout(layout, row, value, charging),
    ensures
        !charging ==> layout.bolt@.len() == 0,
        charging ==> layout.bolt@.len() == 6,
        0 <= at < layout.bolt@.len() ==> {
            let (x, y) = layout.bolt@[at];
            &&& layout.outline.x + 33_000 < x < layout.outline.x + layout.outline.width
            &&& layout.outline.y < y < layout.outline.y + layout.outline.height
        },
        charging ==> layout.bolt@[0] == (
            (layout.outline.x + 39_000) as i64,
            (layout.outline.y + 3_000) as i64,
        ) && layout.bolt@[3] == (
            (layout.outline.x + 36_000) as i64,
            (layout.outline.y + 15_000) as i64,
        ),
{
    if charging {
        assert(layout.bolt@[0].0 == layout.outline.x + 39_000);
        assert(layout.bolt@[3].0 == layout.outline.x + 36_000);
        if 0 <= at < 6 {
            assert(layout.bolt@[at].0 == layout.outline.x + bolt_corners()[at].0 * 1000);
            assert(at == 0 || at == 1 || at == 2 || at == 3 || at == 4 || at == 5);
        }
    }
}

} // verus!
