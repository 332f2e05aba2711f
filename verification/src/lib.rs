//! WinBend's verified core: the fold session state machine, settings validation, hotkey
//! parsing, the tray menu and the settings page's requests, pixel conversions, the search
//! for a switched-off screen in video frames, and the small encodings the app uses to move
//! sensor and camera readings through window messages.
pub mod camera;
pub mod cli;
pub mod config;
pub mod hotkey;
pub mod links;
pub mod menu;
pub mod page;
pub mod pixels;
pub mod power;
pub mod preview;
pub mod screen;
pub mod sensor;
pub mod session;
pub mod session_laws;
pub mod text;
