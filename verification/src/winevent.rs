//! WinEvent hook for titled windows: picks out the windows that are shown with a title, and names
//! the causes of a cache invalidation after the UIA events.

use vstd::prelude::*;
use vstd::string::*;

use crate::event::uia::CacheFlag;
use crate::event::winevent::{
    is_window_shown, WinEvent,
};
use crate::event::{PostedMessage, WM_APP_UNCOMBINE};
use crate::taskbar::uncombine::UncombineManager;

verus! {

/// WinEvent callback - asks for a window to be uncombined when it is shown with a title;
/// `title_length` is zero where it has none.
///
/// Nothing is posted as long as the main thread is unknown (zero) or no manager is installed, or
/// for a window that is uncombined already.
pub fn win_event_proc(
    e: &WinEvent,
    title_length: i32,
    main_thread_id: u32,
    uncombine: Option<&UncombineManager>,
) -> (post: Option<PostedMessage>)
    ensures
        post is Some <==> crate::event::winevent::shows_window(*e) && title_length != 0
            && main_thread_id != 0 && (uncombine matches Some(manager)
            && !manager.originals().dom().contains(e.hwnd)),
        post matches Some(m) ==> m == (PostedMessage {
            thread_id: main_thread_id,
            message: WM_APP_UNCOMBINE,
            wparam: e.hwnd as usize,
        }),
{
    if !is_window_shown(e) {
        return None;
    }
    if title_length == 0 {
        return None;
    }
    if main_thread_id == 0 {
        return None;
    }
    match uncombine {
        Some(manager) => {
            if manager.is_tracked(e.hwnd) {
                return None;
            }
            Some(
                PostedMessage {
                    thread_id: main_thread_id,
                    message: WM_APP_UNCOMBINE,
                    wparam: #[verifier::truncate] (e.hwnd as usize),
                },
            )
        },
        None => None,
    }
}

/// Resets the flag after the main thread has handled the message.
pub fn reset_cache_invalidated_flag(flag: &mut CacheFlag)
    ensures
        !final(flag).invalidated,
{
    crate::event::uia::reset_cache_invalidated_flag(flag);
}

/// The type of event that caused the cache invalidation (passed via WPARAM).
#[derive(Debug, Clone, Copy, PartialEq, Eq, Structural)]
pub enum InvalidateSource {
    UiaChildAdded,
    UiaChildRemoved,
    UiaChildrenInvalidated,
    UiaChildrenBulkAdded,
    UiaChildrenBulkRemoved,
    DesktopSwitch,
}

impl InvalidateSource {
    /// The number that stands for the cause in a message.
    pub open spec fn number(&self) -> usize {
        match self {
            InvalidateSource::UiaChildAdded => 0,
            InvalidateSource::UiaChildRemoved => 1,
            InvalidateSource::UiaChildrenInvalidated => 2,
            InvalidateSource::UiaChildrenBulkAdded => 3,
            InvalidateSource::UiaChildrenBulkRemoved => 4,
            InvalidateSource::DesktopSwitch => 100,
        }
    }

    /// The name of the cause.
    pub open spec fn name_text(&self) -> Seq<char> {
        match self {
            InvalidateSource::UiaChildAdded => "UiaChildAdded"@,
            InvalidateSource::UiaChildRemoved => "UiaChildRemoved"@,
            InvalidateSource::UiaChildrenInvalidated => "UiaChildrenInvalidated"@,
            InvalidateSource::UiaChildrenBulkAdded => "UiaChildrenBulkAdded"@,
            InvalidateSource::UiaChildrenBulkRemoved => "UiaChildrenBulkRemoved"@,
            InvalidateSource::DesktopSwitch => "DesktopSwitch"@,
        }
    }

    /// The name of the cause.
    pub fn label(&self) -> (name: String)
        ensures
            name@ == self.name_text(),
    {
        match self {
            InvalidateSource::UiaChildAdded => "UiaChildAdded".to_owned(),
            InvalidateSource::UiaChildRemoved => "UiaChildRemoved".to_owned(),
            InvalidateSource::UiaChildrenInvalidated => "UiaChildrenInvalidated".to_owned(),
            InvalidateSource::UiaChildrenBulkAdded => "UiaChildrenBulkAdded".to_owned(),
            InvalidateSource::UiaChildrenBulkRemoved => "UiaChildrenBulkRemoved".to_owned(),
            InvalidateSource::DesktopSwitch => "DesktopSwitch".to_owned(),
        }
    }

    /// The number that stands for the cause in a message.
    pub fn to_wparam(&self) -> (wparam: usize)
        ensures
            wparam == self.number(),
    {
        match self {
            InvalidateSource::UiaChildAdded => 0,
            InvalidateSource::UiaChildRemoved => 1,
            InvalidateSource::UiaChildrenInvalidated => 2,
            InvalidateSource::UiaChildrenBulkAdded => 3,
            InvalidateSource::UiaChildrenBulkRemoved => 4,
            InvalidateSource::DesktopSwitch => 100,
        }
    }

    /// The cause that a number stands for; one that stands for none counts as a desktop switch.
    pub open spec fn of_number(wparam: usize) -> InvalidateSource {
        if wparam == 0 {
            InvalidateSource::UiaChildAdded
        } else if wparam == 1 {
            InvalidateSource::UiaChildRemoved
        } else if wparam == 2 {
            InvalidateSource::UiaChildrenInvalidated
        } else if wparam == 3 {
            InvalidateSource::UiaChildrenBulkAdded
        } else if wparam == 4 {
            InvalidateSource::UiaChildrenBulkRemoved
        } else {
            InvalidateSource::DesktopSwitch
        }
    }

    /// Converts from WPARAM `usize` to the enum.
    pub fn from_wparam(wparam: usize) -> (source: Self)
        ensures
            source == Self::of_number(wparam),
    {
        match wparam {
            0 => Self::UiaChildAdded,
            1 => Self::UiaChildRemoved,
            2 => Self::UiaChildrenInvalidated,
            3 => Self::UiaChildrenBulkAdded,
            4 => Self::UiaChildrenBulkRemoved,
            _ => Self::DesktopSwitch,
        }
    }
}

/// A cause that is sent in a message arrives as itself.
pub proof fn law_source_survives_message(source: InvalidateSource)
    ensures
        InvalidateSource::of_number(source.number()) == source,
{
}

/// A number that stands for no change of the buttons counts as a desktop switch; its own number is one
/// of them.
pub proof fn law_other_numbers_are_desktop_switches(wparam: usize, source: InvalidateSource)
    ensures
        InvalidateSource::of_number(wparam) == InvalidateSource::DesktopSwitch <==> wparam > 4,
        wparam <= 4 ==> InvalidateSource::of_number(wparam).number() == wparam,
        InvalidateSource::DesktopSwitch.number() == 100,
        source != InvalidateSource::DesktopSwitch ==> source.number() <= 4,
{
}

} // verus!
