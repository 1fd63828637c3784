//! Decision logic of a background agent for Logitech HID++ devices.
use vstd::prelude::*;

pub mod input_monitoring;
pub mod inventory;
pub mod json_api;
pub mod keyboard;
pub mod launch_agent;
pub mod launchd_handoff;
pub mod lifecycle;
pub mod mock_agent;
pub mod mock_profile;
pub mod notify;
pub mod overlay;
pub mod paths;
pub mod permissions_macos;
pub mod power_source;
pub mod relaunch;
pub mod activity_macos;
pub mod battery;
pub mod binding;
pub mod camera;
pub mod capture_manager;
pub mod capture_plan;
pub mod capture_session;
pub mod device;
pub mod dispatch;
pub mod dpi;
pub mod edge;
pub mod flow;
pub mod foreground_app;
pub mod gesture;
pub mod hold;
pub mod host_switch;
pub mod keys;
pub mod restores;
pub mod retry;
pub mod route;
pub mod shutdown;
pub mod spaces;
pub mod status_item;
pub mod swipe;
pub mod system_mouse;
pub mod text;
pub mod tray;
pub mod tray_battery;
pub mod tray_glyph;
pub mod value;
pub mod wheel;

verus! {

} // verus!
