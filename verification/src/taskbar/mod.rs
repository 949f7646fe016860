//! Handles taskbar reading, matching buttons to windows, cycling and uncombining.

pub mod activate;
pub mod aumid;
pub mod button_window;
pub mod cache;
pub mod cycle;
pub mod enumerator;
pub mod explorer;
pub mod order;
pub mod uncombine;
pub mod window;
pub mod window_context;
