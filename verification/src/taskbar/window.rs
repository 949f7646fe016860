//! Which windows belong on the taskbar, and what is known of each.

use std::collections::HashMap;
use vstd::prelude::*;
use vstd::string::*;

use crate::parsing;
use crate::parsing::from_utf16_lossy;
use crate::taskbar::window_context::WindowContext;
use crate::text;
use crate::text::{chars_of, find_last, to_lowercase};
use crate::types::{Rect, WindowInfo};
use crate::utils;
use crate::utils::is_system_class;

verus! {

/// Extended style of floating toolbars.
pub const WS_EX_TOOLWINDOW: u32 = 0x80;

/// Extended style that forces a window onto the taskbar.
pub const WS_EX_APPWINDOW: u32 = 0x40000;

/// What decides whether a window belongs on the taskbar.
#[derive(Debug)]
pub struct WindowTraits {
    pub visible: bool,
    /// Not zero where the window is hidden by the compositor.
    pub cloaked: u32,
    pub ex_style: u32,
    /// The window has an owner.
    pub owned: bool,
    /// The class name in UTF-16; empty where it could not be read.
    pub class_name: Vec<u16>,
}

/// Where a window is shown.
#[derive(Debug, Clone, Copy, PartialEq, Eq, Structural)]
pub struct WindowPlace {
    /// Zero where the window is on no monitor.
    pub monitor: isize,
    /// The window is shown on all desktops.
    pub pinned: bool,
    /// The identifier of its desktop, where it could be told.
    pub desktop: Option<u128>,
}

/// A window with the styles and the owner of an application window: a tool window never is one,
/// an owned window only with the application style.
pub open spec fn application_styled(ex_style: u32, owned: bool) -> bool {
    &&& ex_style & WS_EX_TOOLWINDOW == 0
    &&& !owned || ex_style & WS_EX_APPWINDOW != 0
}

/// A window that belongs on the taskbar.
pub open spec fn shown(traits: WindowTraits) -> bool {
    &&& traits.visible
    &&& traits.cloaked == 0
    &&& application_styled(traits.ex_style, traits.owned)
    &&& traits.class_name@.len() == 0 || !utils::system_class(
        parsing::utf16_lossy(traits.class_name@),
    )
}

/// A window in the context: on its monitor, and not on another desktop. Where one of the desktops
/// is unknown, they count as one.
pub open spec fn in_context(place: WindowPlace, context: WindowContext) -> bool {
    &&& place.monitor == context.monitor
    &&& place.pinned || place.desktop is None || context.virtual_desktop is None || place.desktop
        == context.virtual_desktop
}

/// Checks whether the style and the owner are those of an application window.
pub fn has_application_style(ex_style: u32, owned: bool) -> (r: bool)
    ensures
        r == application_styled(ex_style, owned),
{
    let is_tool_window = (ex_style & WS_EX_TOOLWINDOW) != 0;
    let is_app_window = (ex_style & WS_EX_APPWINDOW) != 0;
    if is_tool_window {
        return false;
    }
    !(owned && !is_app_window)
}

/// Checks whether a class name, empty where it is unknown, is not a system class.
pub fn has_application_class(class_name: &[u16]) -> (r: bool)
    ensures
        r == (class_name@.len() == 0 || !utils::system_class(parsing::utf16_lossy(class_name@))),
{
    if class_name.len() > 0 {
        let name = from_utf16_lossy(class_name);
        if is_system_class(&name) {
            return false;
        }
    }
    true
}

/// Checks whether a window belongs on the taskbar.
pub fn is_shown(traits: &WindowTraits) -> (r: bool)
    ensures
        r == shown(*traits),
{
    if !traits.visible {
        return false;
    }
    if traits.cloaked != 0 {
        return false;
    }
    has_application_style(traits.ex_style, traits.owned) && has_application_class(
        &traits.class_name,
    )
}

/// Checks whether a window is in the context.
pub fn is_in_context(place: &WindowPlace, context: &WindowContext) -> (r: bool)
    ensures
        r == in_context(*place, *context),
{
    if place.monitor != context.monitor {
        return false;
    }
    if !place.pinned {
        if let (Some(window_id), Some(context_id)) = (place.desktop, context.virtual_desktop) {
            return window_id == context_id;
        }
    }
    true
}

/// Checks whether a window is listed: it belongs on the taskbar, and is in the context that the
/// list is made for, if any.
pub fn is_listed(
    traits: &WindowTraits,
    place: &WindowPlace,
    context: Option<&WindowContext>,
) -> (r: bool)
    ensures
        r == (shown(*traits) && (context matches Some(c) ==> in_context(*place, *c))),
{
    if !is_shown(traits) {
        return false;
    }
    match context {
        Some(c) => is_in_context(place, c),
        None => true,
    }
}

/// A title from its UTF-16 units.
pub open spec fn title_text(title: Seq<u16>) -> Seq<char> {
    if title.len() == 0 {
        Seq::empty()
    } else {
        parsing::utf16_lossy(title)
    }
}

/// The window made of what the system tells of it.
pub fn find_window_by_hwnd(
    hwnd: isize,
    title: &[u16],
    process_id: u32,
    rect: Rect,
    process_name: String,
    aumid: Option<String>,
) -> (window: WindowInfo)
    ensures
        window.hwnd == hwnd,
        window.title@ == title_text(title@),
        window.process_id == process_id,
        window.rect == rect,
        window.process_name == process_name,
        window.aumid == aumid,
{
    let title = if title.len() == 0 {
        String::new()
    } else {
        from_utf16_lossy(title)
    };
    WindowInfo { hwnd, title, process_id, rect, process_name, aumid }
}

/// The part of a path behind its last backslash.
pub open spec fn file_part(path: Seq<char>) -> Seq<char> {
    match text::last_occurrence(path, "\\"@) {
        Some(i) => path.skip(i + 1),
        None => path,
    }
}

/// The file name of an executable, in lower case.
pub fn executable_name(path: &str) -> (name: String)
    ensures
        name@ == text::lowercase(file_part(path@)),
{
    let chars = chars_of(path);
    let separator = chars_of("\\");
    proof {
        reveal_strlit("\\");
        text::lemma_last_occurrence(path@, "\\"@);
    }
    match find_last(&chars, &separator) {
        Some(i) => {
            let end: usize = path.unicode_len();
            let file = path.substring_char(i + 1, end);
            assert(file@ == path@.skip(i + 1));
            to_lowercase(file)
        },
        None => to_lowercase(path),
    }
}

/// What the system tells of the executable of a process.
#[derive(Debug)]
pub enum ProcessImage {
    /// The process could not be opened.
    NotOpened,
    /// The process was opened, but its path could not be read.
    NoPath,
    /// The path in UTF-16.
    Path(Vec<u16>),
}

/// The name of the executable of a process; empty where it is unknown.
pub open spec fn image_name(image: ProcessImage) -> Seq<char> {
    match image {
        ProcessImage::Path(units) => if units@.len() > 0 {
            text::lowercase(file_part(parsing::utf16_lossy(units@)))
        } else {
            Seq::empty()
        },
        _ => Seq::empty(),
    }
}

/// The names of the executables of the processes that were seen so far.
pub struct ProcessNames {
    names: HashMap<u32, String>,
}

impl ProcessNames {
    /// The known names, by process.
    pub closed spec fn known(&self) -> Map<u32, String> {
        self.names@
    }

    /// No process is known.
    pub fn new() -> (names: Self)
        ensures
            names.known() == Map::<u32, String>::empty(),
    {
        ProcessNames { names: HashMap::new() }
    }

    /// The name of the process, if it is known. Otherwise the caller asks the system, and hands the
    /// answer to [`Self::learn`].
    pub fn cached(&self, process_id: u32) -> (name: Option<String>)
        ensures
            name == if self.known().dom().contains(process_id) {
                Some(self.known()[process_id])
            } else {
                None
            },
    {
        broadcast use vstd::std_specs::hash::group_hash_axioms;

        match self.names.get(&process_id) {
            Some(name) => Some(name.clone()),
            None => None,
        }
    }

    /// The name of the process from what the system tells. It is kept, unless the process could not
    /// be opened.
    pub fn learn(&mut self, process_id: u32, image: ProcessImage) -> (name: String)
        ensures
            name@ == image_name(image),
            final(self).known() == if image is NotOpened {
                old(self).known()
            } else {
                old(self).known().insert(process_id, name)
            },
    {
        broadcast use vstd::std_specs::hash::group_hash_axioms;

        let name = match &image {
            ProcessImage::NotOpened => {
                return String::new();
            },
            ProcessImage::NoPath => String::new(),
            ProcessImage::Path(units) => if units.len() > 0 {
                let path = from_utf16_lossy(units);
                executable_name(&path)
            } else {
                String::new()
            },
        };
        self.names.insert(process_id, name.clone());
        name
    }
}

/// A system window is never listed, and neither is a tool window.
pub proof fn law_system_windows_are_ignored(traits: WindowTraits)
    requires
        shown(traits),
    ensures
        traits.ex_style & WS_EX_TOOLWINDOW == 0,
        traits.class_name@.len() > 0 ==> !utils::system_class(
            parsing::utf16_lossy(traits.class_name@),
        ),
{
}

/// A visible window that the compositor does not hide and that no other owns is shown, unless it is a
/// tool window or its class is one of the system's.
pub proof fn law_plain_window_is_shown(traits: WindowTraits)
    requires
        traits.visible,
        traits.cloaked == 0,
        !traits.owned,
        traits.ex_style & 0x80 == 0,
        traits.class_name@.len() == 0 || !utils::system_class(
            parsing::utf16_lossy(traits.class_name@),
        ),
    ensures
        shown(traits),
{
}

/// What hides a window: being invisible, cloaked, a tool window, or owned without the application
/// style.
pub proof fn law_hidden_windows(traits: WindowTraits)
    ensures
        !traits.visible ==> !shown(traits),
        traits.cloaked != 0 ==> !shown(traits),
        traits.ex_style & 0x80 != 0 ==> !shown(traits),
        traits.owned && traits.ex_style & 0x40000 == 0 ==> !shown(traits),
{
}

/// An owner does not count for a window with the application style, and no other style counts.
pub proof fn law_application_style_outweighs_the_owner(a: WindowTraits, b: WindowTraits)
    requires
        a.visible == b.visible,
        a.cloaked == b.cloaked,
        a.class_name@ == b.class_name@,
        a.ex_style & 0x80 == b.ex_style & 0x80,
        a.owned ==> a.ex_style & 0x40000 != 0,
        b.owned ==> b.ex_style & 0x40000 != 0,
    ensures
        shown(a) == shown(b),
{
}

/// A window is in the context of its own monitor alone. There it is in that of every desktop if it is
/// pinned, of its own one otherwise; an unknown desktop is no obstacle.
pub proof fn law_context_is_monitor_and_desktop(
    place: WindowPlace,
    context: WindowContext,
    own: u128,
    current: u128,
)
    ensures
        place.monitor != context.monitor ==> !in_context(place, context),
        place.monitor == context.monitor && (place.pinned || place.desktop is None
            || context.virtual_desktop is None) ==> in_context(place, context),
        place.monitor == context.monitor && !place.pinned && place.desktop == Some(own)
            && context.virtual_desktop == Some(current) ==> (in_context(place, context) <==> own
            == current),
{
}

/// The file part of a path is what stands behind its last backslash; a name without one is its own.
pub proof fn law_file_part_of_a_path(dir: Seq<char>, file: Seq<char>)
    requires
        !file.contains('\\'),
    ensures
        file_part(dir + "\\"@ + file) == file,
        file_part(file) == file,
{
    reveal_strlit("\\");
    let path = dir + "\\"@ + file;
    assert(path.subrange(dir.len() as int, dir.len() as int + 1) =~= "\\"@);
    assert forall|j: int| j > dir.len() implies !text::occurs_at(path, "\\"@, j) by {
        if text::occurs_at(path, "\\"@, j) {
            assert(path.subrange(j, j + 1)[0] == '\\');
            assert(file[j - dir.len() - 1] == '\\');
        }
    }
    text::lemma_is_last_occurrence(path, "\\"@, dir.len() as int);
    assert(path.skip(dir.len() as int + 1) =~= file);
    text::lemma_last_occurrence(file, "\\"@);
    if let Some(i) = text::last_occurrence(file, "\\"@) {
        assert(file.subrange(i, i + 1)[0] == '\\');
        assert(file[i] == '\\');
    }
}

/// The name of a process is the file part of its path in lower case, and empty where no path was had.
pub proof fn law_process_name_is_the_file_part(units: Vec<u16>, dir: Seq<char>, file: Seq<char>)
    requires
        units@.len() > 0,
        parsing::utf16_lossy(units@) == dir + "\\"@ + file,
        !file.contains('\\'),
    ensures
        image_name(ProcessImage::Path(units)) == text::lowercase(file),
        image_name(ProcessImage::NotOpened) == Seq::<char>::empty(),
        title_text(units@) == parsing::utf16_lossy(units@),
        title_text(Seq::empty()) == Seq::<char>::empty(),
        image_name(ProcessImage::NoPath) == Seq::<char>::empty(),
{
    law_file_part_of_a_path(dir, file);
}

} // verus!
