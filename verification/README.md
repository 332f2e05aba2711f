# WinBend

WinBend folds the Windows desktop like a lid closing. This crate is its verified core,
written in Verus: every function under `src/` carries a contract that Verus proves.

- `src/session.rs`: the fold session as a state machine. Each event (hotkey, sensor
  reading, lid, sleep, wake, lock, idle timer, frame tick) maps the session state to a new
  state and a list of effects; `src/session_laws.rs` proves the promises that span several
  events (a sensor fold never traps the user, a stale lid report after wake is ignored, the
  lift waits for sign-in, ...).
- `src/hotkey.rs`, `src/config.rs`, `src/text.rs`: hotkey text, the text-valued settings
  and their validation, the background colour.
- `src/screen.rs`: finding the switched-off screen in a video frame (darkness grid, flood
  fill, choice of the region that fits a screen), used by the promo compositor.
- `src/pixels.rs`, `src/preview.rs`: pixel layouts, the preview's size and PNG data URL.
- `src/camera.rs`, `src/sensor.rs`: the integer parts of webcam and accelerometer tracking
  and the encodings of their window messages.
- `src/menu.rs`, `src/page.rs`, `src/power.rs`, `src/cli.rs`, `src/links.rs`: tray
  commands, the settings page's requests, the power-setting helper, command-line options,
  project links.

`app/` is the Windows program around the library: Win32, Direct3D 11, Windows.Graphics.Capture,
WebView2, Media Foundation, WinRT sensors, the TOML settings file, and the floating-point
rendering and tracking maths. It runs the session's effects and hands the library plain values.
