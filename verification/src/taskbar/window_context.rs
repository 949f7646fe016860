//! The surroundings of the user: foreground window, monitor and virtual desktop.

use vstd::prelude::*;

verus! {

/// The foreground window, the monitor in use and the current virtual desktop.
#[derive(Debug, Clone, Copy, PartialEq, Eq, Structural)]
pub struct WindowContext {
    /// Zero where there is no foreground window.
    pub foreground_window: isize,
    /// Zero where no monitor could be told.
    pub monitor: isize,
    /// The identifier of the desktop, where it could be told.
    pub virtual_desktop: Option<u128>,
}

impl WindowContext {
    /// The context made of what the system tells.
    ///
    /// The monitor is detected by the cursor position first, then by the foreground window.
    /// `cursor_monitor` is absent where the cursor position could not be read.
    pub fn current_state(
        foreground_window: isize,
        cursor_monitor: Option<isize>,
        foreground_monitor: isize,
        virtual_desktop: Option<u128>,
    ) -> (context: WindowContext)
        ensures
            context.foreground_window == foreground_window,
            context.virtual_desktop == virtual_desktop,
            cursor_monitor matches Some(m) ==> context.monitor == m,
            cursor_monitor is None && foreground_window == 0 ==> context.monitor == 0,
            cursor_monitor is None && foreground_window != 0 ==> context.monitor
                == foreground_monitor,
    {
        let monitor: isize = match cursor_monitor {
            Some(m) => m,
            None => if foreground_window == 0 {
                0
            } else {
                foreground_monitor
            },
        };
        WindowContext { foreground_window, monitor, virtual_desktop }
    }
}

} // verus!
