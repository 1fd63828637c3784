# OpenLogi agent

The decisions of a background agent for Logitech devices, as a Verus library, and
the process around them.

`src/` holds the library. Every function there states what it returns and what it
changes, and Verus proves it.

- Capture: `capture_plan`, `capture_session`, `capture_manager`, `restores`,
  `gesture`, `keyboard`, `host_switch`.
- Input: `binding`, `route`, `dispatch`, `wheel`, `hold`, `spaces`, `swipe`.
- Flow between computers: `edge`, `flow`.
- Watchers: `inventory`, `camera`, `foreground_app`, `input_monitoring`,
  `shutdown`, `retry`.
- Batteries: `device`, `battery`, `tray_battery`, `tray_glyph`, `status_item`,
  `power_source`.
- The process: `lifecycle`, `activity_macos`, `launch_agent`, `launchd_handoff`,
  `relaunch`, `overlay`, `system_mouse`, `permissions_macos`, `tray`, `notify`,
  `json_api`.
- A scripted agent without hardware: `mock_agent`, `mock_profile`, `dpi`.
- Shared: `text`, `paths`, `keys`, `value`.

Times are milliseconds. Lengths of the Flow watcher and of the menu are thousandths
of a display point, lengths on a touchpad are micrometres or nanometres.

`app/` is the process: arguments, files, sockets, signals and child processes, and
what takes floating-point numbers.

`tests/` runs the library on concrete values.
