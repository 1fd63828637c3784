//! The menu-bar item: what its menu holds, and what its Quit does.
use vstd::prelude::*;

use crate::activity_macos::ActivityGate;

verus! {

/// What a menu item asks of the GUI.
#[derive(Clone, Copy, Debug, PartialEq, Eq, Structural)]
pub enum DeeplinkCommand {
    Show,
    OpenSettings,
    OpenAbout,
    CheckForUpdates,
    Quit,
}

/// One entry of the menu.
#[derive(Clone, Copy, Debug)]
pub enum MenuEntry {
    /// An item: the key of its localised title, what it does, and the key that
    /// chooses it, empty for none.
    Item { title: &'static str, command: DeeplinkCommand, key: &'static str },
    Separator,
}

/// Whether an entry is an item with these parts.
pub open spec fn is_item(
    entry: MenuEntry,
    title: Seq<char>,
    command: DeeplinkCommand,
    key: Seq<char>,
) -> bool {
    entry matches MenuEntry::Item { title: t, command: c, key: k } && t@ == title && c == command
        && k@ == key
}

/// The tray menu. The one constructor for installing it and for rebuilding it in
/// another language, so that the two cannot drift.
pub fn build_menu() -> (menu: Vec<MenuEntry>)
    ensures
        menu@.len() == 7,
        is_item(menu@[0], "app.show_main_window"@, DeeplinkCommand::Show, "m"@),
        menu@[1] is Separator,
        is_item(menu@[2], "app.settings_dialog"@, DeeplinkCommand::OpenSettings, ","@),
        is_item(menu@[3], "about.about_openlogi"@, DeeplinkCommand::OpenAbout, ""@),
        is_item(
            menu@[4],
            "updates.check_for_updates_dialog"@,
            DeeplinkCommand::CheckForUpdates,
            "u"@,
        ),
        menu@[5] is Separator,
        is_item(menu@[6], "app.quit_openlogi"@, DeeplinkCommand::Quit, "q"@),
{
    let mut menu: Vec<MenuEntry> = Vec::new();
    menu.push(
        MenuEntry::Item {
            title: "app.show_main_window",
            command: DeeplinkCommand::Show,
            key: "m",
        },
    );
    menu.push(MenuEntry::Separator);
    menu.push(
        MenuEntry::Item {
            title: "app.settings_dialog",
            command: DeeplinkCommand::OpenSettings,
            key: ",",
        },
    );
    menu.push(
        MenuEntry::Item {
            title: "about.about_openlogi",
            command: DeeplinkCommand::OpenAbout,
            key: "",
        },
    );
    menu.push(
        MenuEntry::Item {
            title: "updates.check_for_updates_dialog",
            command: DeeplinkCommand::CheckForUpdates,
            key: "u",
        },
    );
    menu.push(MenuEntry::Separator);
    menu.push(
        MenuEntry::Item {
            title: "app.quit_openlogi",
            command: DeeplinkCommand::Quit,
            key: "q",
        },
    );
    menu
}

/// Whether Quit tells the GUI to quit too: only one that runs, for telling it
/// would otherwise launch one.
pub fn quit_tells_gui(release_running: bool, dev_running: bool) -> (tell: bool)
    ensures
        tell == (release_running || dev_running),
{
    release_running || dev_running
}

/// A console edge of the login session: fast user switching.
#[derive(Clone, Copy, Debug, PartialEq, Eq, Structural)]
pub enum SessionEdge {
    BecameActive,
    ResignedActive,
}

/// Forward a console edge to the activity gate.
pub fn observe_session(gate: &mut ActivityGate, edge: SessionEdge)
    ensures
        final(gate).wf(),
        final(gate).levels.on_console == (edge == SessionEdge::BecameActive),
        final(gate).levels.power == old(gate).levels.power,
        final(gate).levels.starting == old(gate).levels.starting,
{
    let active: bool = match edge {
        SessionEdge::BecameActive => true,
        SessionEdge::ResignedActive => false,
    };
    let _ = gate.set_on_console(active);
}

// ── Laws ────────────────────────────────────────────────────────────────────

/// An item is told by its title, its command and its key together, and a separator is no
/// item.
pub proof fn items_are_told_by_all_their_parts(
    title: &'static str,
    command: DeeplinkCommand,
    key: &'static str,
    wanted: Seq<char>,
    other: DeeplinkCommand,
    pressed: Seq<char>,
)
    ensures
        is_item(MenuEntry::Item { title, command, key }, wanted, other, pressed) <==> title@
            == wanted && command == other && key@ == pressed,
        !is_item(MenuEntry::Separator, wanted, other, pressed),
{
}

} // verus!
