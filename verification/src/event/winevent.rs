//! WinEvent hook - picks out the windows that are shown for the first time, to uncombine them.

use vstd::prelude::*;
use vstd::string::*;

use crate::event::{PostedMessage, WM_APP_UNCOMBINE};
use crate::parsing;
use crate::taskbar::uncombine::UncombineManager;
use crate::taskbar::window::has_application_class;
use crate::utils;

verus! {

/// The event of a window that is shown.
pub const EVENT_OBJECT_SHOW: u32 = 0x8002;

/// The object identifier of a window itself.
pub const OBJID_WINDOW: i32 = 0;

/// The child identifier of an object itself.
pub const INDEXID_CONTAINER: i32 = 0;

/// An event, with what the system tells of its window.
#[derive(Debug)]
pub struct WinEvent {
    pub event: u32,
    /// Zero where the event has no window.
    pub hwnd: isize,
    pub id_object: i32,
    pub id_child: i32,
    pub visible: bool,
    /// The root of the window's ancestors.
    pub root: isize,
    /// The class name in UTF-16; empty where it could not be read.
    pub class_name: Vec<u16>,
}

/// The event shows a top-level window.
pub open spec fn shows_window(e: WinEvent) -> bool {
    &&& e.event == EVENT_OBJECT_SHOW
    &&& e.id_object == OBJID_WINDOW
    &&& e.id_child == INDEXID_CONTAINER
    &&& e.hwnd != 0
    &&& e.visible
    &&& e.root == e.hwnd
}

/// The window is none of the system's.
pub open spec fn of_application(e: WinEvent) -> bool {
    e.class_name@.len() == 0 || !utils::system_class(parsing::utf16_lossy(e.class_name@))
}

/// Checks whether the event shows a top-level window.
pub fn is_window_shown(e: &WinEvent) -> (r: bool)
    ensures
        r == shows_window(*e),
{
    if e.id_object != OBJID_WINDOW || e.id_child != INDEXID_CONTAINER {
        return false;
    }
    if e.hwnd == 0 {
        return false;
    }
    if e.event != EVENT_OBJECT_SHOW {
        return false;
    }
    if !e.visible {
        return false;
    }
    e.root == e.hwnd
}

/// WinEvent callback - asks for a window to be uncombined when it is shown.
///
/// Nothing is posted as long as the main thread is unknown (zero) or no manager is installed, for a
/// system window, or for a window that is uncombined already.
pub fn win_event_proc(
    e: &WinEvent,
    main_thread_id: u32,
    uncombine: Option<&UncombineManager>,
) -> (post: Option<PostedMessage>)
    ensures
        post is Some <==> shows_window(*e) && of_application(*e) && main_thread_id != 0 && (
        uncombine matches Some(manager) && !manager.originals().dom().contains(e.hwnd)),
        post matches Some(m) ==> m == (PostedMessage {
            thread_id: main_thread_id,
            message: WM_APP_UNCOMBINE,
            wparam: e.hwnd as usize,
        }),
{
    if !is_window_shown(e) || !has_application_class(&e.class_name) {
        return None;
    }
    if main_thread_id == 0 {
        return None;
    }
    match uncombine {
        Some(manager) => {
            if manager.is_tracked(e.hwnd) {
                return None;
            }
            Some(
                PostedMessage {
                    thread_id: main_thread_id,
                    message: WM_APP_UNCOMBINE,
                    wparam: #[verifier::truncate] (e.hwnd as usize),
                },
            )
        },
        None => None,
    }
}

/// The type of event that caused the cache invalidation (passed via WPARAM).
#[derive(Debug, Clone, Copy, PartialEq, Eq, Structural)]
pub enum InvalidateSource {
    ButtonAdded,
    ButtonRemoved,
    ButtonInvalidated,
    ButtonBulkAdded,
    ButtonBulkRemoved,
    DesktopSwitch,
}

impl InvalidateSource {
    /// The number that stands for the cause in a message.
    pub open spec fn number(&self) -> usize {
        match self {
            InvalidateSource::ButtonAdded => 0,
            InvalidateSource::ButtonRemoved => 1,
            InvalidateSource::ButtonInvalidated => 2,
            InvalidateSource::ButtonBulkAdded => 3,
            InvalidateSource::ButtonBulkRemoved => 4,
            InvalidateSource::DesktopSwitch => 100,
        }
    }

    /// The cause in words.
    pub open spec fn words(&self) -> Seq<char> {
        match self {
            InvalidateSource::ButtonAdded => "button added"@,
            InvalidateSource::ButtonRemoved => "button removed"@,
            InvalidateSource::ButtonInvalidated => "button invalidated"@,
            InvalidateSource::ButtonBulkAdded => "button bulk added"@,
            InvalidateSource::ButtonBulkRemoved => "button bulk removed"@,
            InvalidateSource::DesktopSwitch => "desktop switch"@,
        }
    }

    /// The cause in words.
    pub fn label(&self) -> (name: String)
        ensures
            name@ == self.words(),
    {
        match self {
            InvalidateSource::ButtonAdded => "button added".to_owned(),
            InvalidateSource::ButtonRemoved => "button removed".to_owned(),
            InvalidateSource::ButtonInvalidated => "button invalidated".to_owned(),
            InvalidateSource::ButtonBulkAdded => "button bulk added".to_owned(),
            InvalidateSource::ButtonBulkRemoved => "button bulk removed".to_owned(),
            InvalidateSource::DesktopSwitch => "desktop switch".to_owned(),
        }
    }

    /// The number that stands for the cause in a message.
    pub fn to_wparam(&self) -> (wparam: usize)
        ensures
            wparam == self.number(),
    {
        match self {
            InvalidateSource::ButtonAdded => 0,
            InvalidateSource::ButtonRemoved => 1,
            InvalidateSource::ButtonInvalidated => 2,
            InvalidateSource::ButtonBulkAdded => 3,
            InvalidateSource::ButtonBulkRemoved => 4,
            InvalidateSource::DesktopSwitch => 100,
        }
    }

    /// The cause that a number stands for; one that stands for none counts as a desktop switch.
    pub open spec fn of_number(wparam: usize) -> InvalidateSource {
        if wparam == 0 {
            InvalidateSource::ButtonAdded
        } else if wparam == 1 {
            InvalidateSource::ButtonRemoved
        } else if wparam == 2 {
            InvalidateSource::ButtonInvalidated
        } else if wparam == 3 {
            InvalidateSource::ButtonBulkAdded
        } else if wparam == 4 {
            InvalidateSource::ButtonBulkRemoved
        } else {
            InvalidateSource::DesktopSwitch
        }
    }

    /// Converts from WPARAM `usize` to the enum.
    pub fn from_wparam(wparam: usize) -> (source: Self)
        ensures
            source == Self::of_number(wparam),
    {
        match wparam {
            0 => Self::ButtonAdded,
            1 => Self::ButtonRemoved,
            2 => Self::ButtonInvalidated,
            3 => Self::ButtonBulkAdded,
            4 => Self::ButtonBulkRemoved,
            _ => Self::DesktopSwitch,
        }
    }
}

/// A cause that is sent in a message arrives as itself.
pub proof fn law_source_survives_message(source: InvalidateSource)
    ensures
        InvalidateSource::of_number(source.number()) == source,
{
}

/// A number that stands for no change of the buttons counts as a desktop switch; its own number is one
/// of them.
pub proof fn law_other_numbers_are_desktop_switches(wparam: usize, source: InvalidateSource)
    ensures
        InvalidateSource::of_number(wparam) == InvalidateSource::DesktopSwitch <==> wparam > 4,
        wparam <= 4 ==> InvalidateSource::of_number(wparam).number() == wparam,
        InvalidateSource::DesktopSwitch.number() == 100,
        source != InvalidateSource::DesktopSwitch ==> source.number() <= 4,
{
}

/// An event shows a window exactly if it is the show event of a visible window that is its own root,
/// and of nothing inside it.
pub proof fn law_shown_window(e: WinEvent)
    ensures
        shows_window(e) <==> e.event == 0x8002 && e.id_object == 0 && e.id_child == 0 && e.hwnd != 0
            && e.visible && e.root == e.hwnd,
        e.class_name@.len() == 0 ==> of_application(e),
        e.class_name@.len() > 0 ==> (of_application(e) <==> !utils::system_class(
            parsing::utf16_lossy(e.class_name@),
        )),
{
}

/// The handle of a window arrives in a message as itself, a negative one too.
pub proof fn law_handle_survives_message(hwnd: isize)
    ensures
        (hwnd as usize) as isize == hwnd,
{
    assert((hwnd as usize) as isize == hwnd) by (bit_vector);
}

} // verus!
