//! The settings window: what it shows, and what its controls change.

pub mod hotkey_button;
pub mod setting_item;
pub mod ui;
