//! Session state, settings, app list, menu and main-loop decisions of a
//! system tray icon for Waydroid.

pub mod text;
pub mod state;
pub mod config;
pub mod settings;
pub mod apps;
pub mod command;
pub mod idle;
pub mod menu;
pub mod flags;
pub mod watch;
