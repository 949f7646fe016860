//! The icon in the system tray: its data, its menu and its theme.

use vstd::prelude::*;
use vstd::slice::slice_subrange;
use vstd::string::*;

use crate::text;
use crate::text::encode_wide;

verus! {

pub const IDM_EXIT: u32 = 1;

pub const IDM_SHOW_CONSOLE: u32 = 3;

pub const IDM_SETTINGS: u32 = 4;

pub const MF_STRING: u32 = 0;

pub const MF_UNCHECKED: u32 = 0;

pub const MF_GRAYED: u32 = 1;

pub const MF_DISABLED: u32 = 2;

pub const MF_CHECKED: u32 = 8;

pub const MF_SEPARATOR: u32 = 0x800;

/// The message that the tray sends to the hidden window.
pub const WM_USER_TRAYICON: u32 = 0x600;

/// The icon as it is registered: the window that it sends messages to, and the handle of its image.
/// Zero stands for none.
#[derive(Debug, Clone, Copy, PartialEq, Eq, Structural)]
pub struct TrayIcon {
    pub hwnd: isize,
    pub icon: isize,
}

/// An entry of the menu.
#[derive(Debug)]
pub struct MenuItem {
    pub flags: u32,
    pub id: u32,
    /// Nothing for a separator.
    pub label: Option<String>,
}

/// The units of the tooltip with zeros behind them, up to 128 units.
pub open spec fn tooltip_units() -> Seq<u16> {
    let shown = text::units_of("Taskbar Switcher"@);
    shown + Seq::new((128 - shown.len()) as nat, |i: int| 0u16)
}

/// The tooltip, filled up with zeros to 128 units.
pub fn tooltip() -> (units: Vec<u16>)
    ensures
        units@ == tooltip_units(),
        units@.len() == 128,
{
    let mut units = encode_wide("Taskbar Switcher");
    let ghost shown = units@;
    proof {
        reveal_strlit("Taskbar Switcher");
        lemma_units_bound("Taskbar Switcher"@);
    }
    while units.len() < 128
        invariant
            shown.len() <= units@.len() <= 128,
            units@ == shown + Seq::new((units@.len() - shown.len()) as nat, |i: int| 0u16),
        decreases 128 - units@.len(),
    {
        let ghost before = units@;
        units.push(0);
        assert(units@ =~= shown + Seq::new((units@.len() - shown.len()) as nat, |i: int| 0u16));
    }
    units
}

proof fn lemma_units_bound(s: Seq<char>)
    ensures
        text::units_of(s).len() <= 2 * s.len(),
    decreases s.len(),
{
    if s.len() > 0 {
        lemma_units_bound(s.drop_last());
    }
}

/// The image for the theme: a dark taskbar gets the dark icon.
#[derive(Debug, Clone, Copy, PartialEq, Eq, Structural)]
pub enum IconTheme {
    Light,
    Dark,
}

/// The image for the theme.
pub fn icon_theme(is_light_theme: bool) -> (theme: IconTheme)
    ensures
        theme == if is_light_theme {
            IconTheme::Light
        } else {
            IconTheme::Dark
        },
{
    if is_light_theme {
        IconTheme::Light
    } else {
        IconTheme::Dark
    }
}

/// The image inside an icon file, from the offset that the system found.
pub fn icon_data(bytes: &[u8], offset: i32) -> (data: &[u8])
    requires
        0 <= offset <= bytes@.len(),
    ensures
        data@ == bytes@.skip(offset as int),
{
    let data = slice_subrange(bytes, offset as usize, bytes.len());
    assert(data@ =~= bytes@.skip(offset as int));
    data
}

impl TrayIcon {
    /// An icon that is not linked to a window yet.
    pub fn create(icon: isize) -> (tray: Self)
        ensures
            tray == (TrayIcon { hwnd: 0, icon }),
    {
        TrayIcon { hwnd: 0, icon }
    }

    /// Takes over the image for the current theme. Returns the old image, which is to be destroyed
    /// once the new one is shown.
    pub fn update_theme(&mut self, new_icon: isize) -> (old_icon: isize)
        ensures
            old_icon == old(self).icon,
            *final(self) == (TrayIcon { icon: new_icon, ..*old(self) }),
    {
        let old_icon = self.icon;
        self.icon = new_icon;
        old_icon
    }

    /// Links the icon to the window that gets its messages.
    pub fn register(&mut self, hwnd: isize)
        ensures
            *final(self) == (TrayIcon { hwnd, ..*old(self) }),
    {
        self.hwnd = hwnd;
    }
}

/// The flags of the entry for the console: greyed out in CLI debug mode, otherwise checked while
/// the console is visible.
pub open spec fn console_flags(cli_mode: bool, console_visible: bool) -> u32 {
    if cli_mode {
        3
    } else if console_visible {
        MF_CHECKED
    } else {
        MF_UNCHECKED
    }
}

/// The entry has these flags, this identifier and this label.
pub open spec fn is_entry(item: MenuItem, flags: u32, id: u32, label: Seq<char>) -> bool {
    &&& item.flags == flags
    &&& item.id == id
    &&& item.label matches Some(l) && l@ == label
}

/// The entries of the menu: the console, the settings, a separator, and the exit.
pub fn create_menu(cli_mode: bool, console_visible: bool) -> (items: Vec<MenuItem>)
    ensures
        items@.len() == 4,
        is_entry(
            items@[0],
            console_flags(cli_mode, console_visible),
            IDM_SHOW_CONSOLE,
            "Debug Console"@,
        ),
        is_entry(items@[1], MF_STRING, IDM_SETTINGS, "Settings..."@),
        items@[2] == (MenuItem { flags: MF_SEPARATOR, id: 0, label: None }),
        is_entry(items@[3], MF_STRING, IDM_EXIT, "Exit"@),
{
    assert(0u32 | (1u32 | 2u32) == 3u32) by (bit_vector);
    assert(0u32 | 8u32 == 8u32) by (bit_vector);
    assert(0u32 | 0u32 == 0u32) by (bit_vector);
    let flags: u32 = MF_STRING | if cli_mode {
        MF_GRAYED | MF_DISABLED
    } else if console_visible {
        MF_CHECKED
    } else {
        MF_UNCHECKED
    };
    let mut items: Vec<MenuItem> = Vec::new();
    items.push(MenuItem { flags, id: IDM_SHOW_CONSOLE, label: Some("Debug Console".to_owned()) });
    items.push(
        MenuItem { flags: MF_STRING, id: IDM_SETTINGS, label: Some("Settings...".to_owned()) },
    );
    items.push(MenuItem { flags: MF_SEPARATOR, id: 0, label: None });
    items.push(MenuItem { flags: MF_STRING, id: IDM_EXIT, label: Some("Exit".to_owned()) });
    items
}

/// The entry for the console is greyed out and disabled exactly in CLI debug mode, and checked exactly
/// outside of it while the console is visible.
pub proof fn law_console_entry(cli_mode: bool, console_visible: bool)
    ensures
        ({
            let flags = console_flags(cli_mode, console_visible);
            &&& flags & 1 != 0 <==> cli_mode
            &&& flags & 2 != 0 <==> cli_mode
            &&& flags & 8 != 0 <==> console_visible && !cli_mode
            &&& flags & !11u32 == 0
        }),
{
    assert(3u32 & 1 != 0 && 3u32 & 2 != 0 && 3u32 & 8 == 0 && 3u32 & !11u32 == 0) by (bit_vector);
    assert(8u32 & 1 == 0 && 8u32 & 2 == 0 && 8u32 & 8 != 0 && 8u32 & !11u32 == 0) by (bit_vector);
    assert(0u32 & 1 == 0 && 0u32 & 2 == 0 && 0u32 & 8 == 0 && 0u32 & !11u32 == 0) by (bit_vector);
}

/// The tooltip is the name with zeros behind it.
pub proof fn law_tooltip_is_filled_up(i: int)
    requires
        0 <= i < 128,
    ensures
        tooltip_units().len() == 128,
        i < text::units_of("Taskbar Switcher"@).len() ==> tooltip_units()[i] == text::units_of(
            "Taskbar Switcher"@,
        )[i],
        i >= text::units_of("Taskbar Switcher"@).len() ==> tooltip_units()[i] == 0,
{
    reveal_strlit("Taskbar Switcher");
    lemma_units_bound("Taskbar Switcher"@);
}

} // verus!
