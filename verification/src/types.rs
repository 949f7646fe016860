//! Shared data types: purely data structures, no logic.
//!
//! A window handle is the integer value of the handle; zero stands for no window.

use vstd::prelude::*;

verus! {

/// Position and size on the screen, in pixels.
#[derive(Debug, Clone, Copy, PartialEq, Eq, Structural)]
pub struct Rect {
    pub left: i32,
    pub top: i32,
    pub right: i32,
    pub bottom: i32,
}

/// Taskbar button on the Windows 11 taskbar, read from UI Automation.
#[derive(Debug, PartialEq, Eq)]
pub struct TaskbarButton {
    /// The display name of the button (e.g., "Chrome", "Edge - 3 running windows").
    pub name: String,
    /// Position and size on the screen.
    pub rect: Rect,
    /// Process that owns the button (usually explorer.exe).
    pub process_id: i32,
    /// Automation ID, which is often the AppUserModelID.
    pub automation_id: Option<String>,
}

/// Visible window on the desktop, used for matching buttons to windows.
#[derive(Debug, PartialEq, Eq)]
pub struct WindowInfo {
    /// Window handle.
    pub hwnd: isize,
    /// Window title.
    pub title: String,
    /// Process ID.
    pub process_id: u32,
    /// Position and size.
    pub rect: Rect,
    /// Executable file name (e.g., "chrome.exe").
    pub process_name: String,
    /// AppUserModelID (AUMID) of the window.
    pub aumid: Option<String>,
}

/// A target window in the cycle list: one window, not one taskbar button.
#[derive(Debug, PartialEq, Eq)]
pub struct TargetWindow {
    /// Display name (window title).
    pub name: String,
    /// Handle of the window to activate.
    pub hwnd: isize,
    /// Whether it belongs to a grouped button.
    pub is_grouped: bool,
}

/// A copy of an optional text.
pub fn clone_text(text: &Option<String>) -> (copy: Option<String>)
    ensures
        copy == *text,
{
    match text {
        Some(s) => Some(s.clone()),
        None => None,
    }
}

impl Clone for TaskbarButton {
    fn clone(&self) -> (copy: Self)
        ensures
            copy == *self,
    {
        TaskbarButton {
            name: self.name.clone(),
            rect: self.rect,
            process_id: self.process_id,
            automation_id: clone_text(&self.automation_id),
        }
    }
}

impl Clone for WindowInfo {
    fn clone(&self) -> (copy: Self)
        ensures
            copy == *self,
    {
        WindowInfo {
            hwnd: self.hwnd,
            title: self.title.clone(),
            process_id: self.process_id,
            rect: self.rect,
            process_name: self.process_name.clone(),
            aumid: clone_text(&self.aumid),
        }
    }
}

impl Clone for TargetWindow {
    fn clone(&self) -> (copy: Self)
        ensures
            copy == *self,
    {
        TargetWindow { name: self.name.clone(), hwnd: self.hwnd, is_grouped: self.is_grouped }
    }
}

/// A copy of a list of buttons.
pub fn clone_buttons(buttons: &[TaskbarButton]) -> (copy: Vec<TaskbarButton>)
    ensures
        copy@ == buttons@,
{
    let mut copy: Vec<TaskbarButton> = Vec::new();
    for i in 0..buttons.len()
        invariant
            copy@ == buttons@.take(i as int),
    {
        copy.push(buttons[i].clone());
        assert(buttons@.take(i as int).push(buttons@[i as int]) == buttons@.take(i as int + 1));
    }
    assert(buttons@.take(buttons@.len() as int) == buttons@);
    copy
}

/// A copy of a list of windows.
pub fn clone_windows(windows: &[WindowInfo]) -> (copy: Vec<WindowInfo>)
    ensures
        copy@ == windows@,
{
    let mut copy: Vec<WindowInfo> = Vec::new();
    for i in 0..windows.len()
        invariant
            copy@ == windows@.take(i as int),
    {
        copy.push(windows[i].clone());
        assert(windows@.take(i as int).push(windows@[i as int]) == windows@.take(i as int + 1));
    }
    assert(windows@.take(windows@.len() as int) == windows@);
    copy
}

} // verus!
