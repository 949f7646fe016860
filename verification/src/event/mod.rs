//! Event module - WinEvent hooks and UI Automation StructureChanged events.
//!
//! WinEvent: `EVENT_OBJECT_SHOW` uncombines newly created windows.
//! UIA: `StructureChanged` invalidates the taskbar button cache.

use vstd::prelude::*;

pub mod uia;
pub mod winevent;

verus! {

/// A new window is to be uncombined; its handle is the first parameter.
pub const WM_APP_UNCOMBINE: u32 = 0x500;

/// The button cache is out of date; the cause is the first parameter.
pub const WM_APP_INVALIDATE_CACHE: u32 = 0x501;

/// The configuration has changed.
pub const WM_APP_RELOAD_CONFIG: u32 = 0x502;

/// The application is to be started again with administrator rights.
pub const WM_APP_RESTART_AS_ADMIN: u32 = 0x503;

/// A message to be posted to a thread; its second parameter is zero.
#[derive(Debug, Clone, Copy, PartialEq, Eq, Structural)]
pub struct PostedMessage {
    pub thread_id: u32,
    pub message: u32,
    pub wparam: usize,
}

} // verus!
