//! One-shot notifications, and the navigation that the tray asks of the GUI.
use vstd::prelude::*;

verus! {

/// Where the agent runs.
#[derive(Clone, Copy, Debug, PartialEq, Eq, Structural)]
pub enum Platform {
    MacOs,
    Windows,
    Linux,
}

/// What a notification comes to.
#[derive(Debug)]
pub enum Notification {
    /// Show it in the tray.
    Show { title: String, body: String },
    /// The platform cannot show it: note it.
    LogOnly { title: String, body: String },
}

/// Decide what a notification comes to. Nothing depends on it being seen.
pub fn notify(platform: Platform, title: &str, body: &str) -> (notification: Notification)
    ensures
        platform == Platform::Windows ==> (notification matches Notification::Show {
            title: t,
            body: b,
        } && t@ == title@ && b@ == body@),
        platform != Platform::Windows ==> (notification matches Notification::LogOnly {
            title: t,
            body: b,
        } && t@ == title@ && b@ == body@),
{
    let title: String = title.to_owned();
    let body: String = body.to_owned();
    match platform {
        Platform::Windows => Notification::Show { title, body },
        Platform::MacOs => Notification::LogOnly { title, body },
        Platform::Linux => Notification::LogOnly { title, body },
    }
}

/// The device that the tray asked the GUI to select, kept until the GUI takes it.
#[derive(Debug)]
pub struct DeviceSelection {
    pub ready: bool,
    pub requested: Option<String>,
}

impl DeviceSelection {
    /// A cell that no state is attached to yet.
    pub fn new() -> (selection: DeviceSelection)
        ensures
            !selection.ready,
            selection.requested is None,
    {
        DeviceSelection { ready: false, requested: None }
    }

    /// Attach the state, once. Whether it was the first time comes back.
    pub fn init(&mut self) -> (first: bool)
        ensures
            first == !old(self).ready,
            final(self).ready,
            final(self).requested == old(self).requested,
    {
        let first: bool = !self.ready;
        self.ready = true;
        first
    }

    /// Select a device when the GUI is next shown. A request before the state is
    /// attached is dropped, and says so.
    pub fn request(&mut self, key: String) -> (accepted: bool)
        ensures
            accepted == old(self).ready,
            final(self).ready == old(self).ready,
            final(self).requested == (if accepted {
                Some(key)
            } else {
                old(self).requested
            }),
    {
        if self.ready {
            self.requested = Some(key);
            true
        } else {
            false
        }
    }
}

} // verus!
