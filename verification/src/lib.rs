//! The logic of WinGlide, a taskbar navigator for Windows 11: cycling through the windows in the
//! order of their taskbar buttons, uncombining the buttons, and showing the virtual desktops.

pub mod admin;
pub mod app;
pub mod autostart;
pub mod cli;
pub mod config;
pub mod event;
pub mod hotkey;
pub mod indicator;
pub mod lists;
pub mod logging;
pub mod parsing;
pub mod primary_taskbar;
pub mod setting;
pub mod switcher;
pub mod taskbar;
pub mod text;
pub mod tray_icon;
pub mod types;
pub mod updater;
pub mod utils;
pub mod virtual_desktop;
pub mod winevent;
