//! The pages of the settings window, and what their controls change.

use vstd::prelude::*;
use vstd::string::*;

use crate::config::AppConfig;
use crate::setting::setting_item::{HotkeyEdit, SettingAction, SettingItemProps, SwitchEdit};

verus! {

/// The configuration after a switch was turned.
pub open spec fn switched(config: AppConfig, edit: SwitchEdit, is_on: bool) -> AppConfig {
    match edit {
        SwitchEdit::UncombineMode => AppConfig { uncombine_mode: is_on, ..config },
        SwitchEdit::CycleTaskbarBased => AppConfig { cycle_taskbar_based: is_on, ..config },
    }
}

/// The hotkey to move left: modifiers and key.
pub open spec fn left_hotkey(config: AppConfig) -> (u32, u32) {
    (config.hotkey_left_modifiers, config.hotkey_left_vk)
}

/// The hotkey to move right: modifiers and key.
pub open spec fn right_hotkey(config: AppConfig) -> (u32, u32) {
    (config.hotkey_right_modifiers, config.hotkey_right_vk)
}

/// The configuration with these two hotkeys.
pub open spec fn with_hotkeys(config: AppConfig, left: (u32, u32), right: (u32, u32)) -> AppConfig {
    AppConfig {
        hotkey_left_modifiers: left.0,
        hotkey_left_vk: left.1,
        hotkey_right_modifiers: right.0,
        hotkey_right_vk: right.1,
        ..config
    }
}

/// The configuration after a hotkey was captured. Where the other direction uses it, that one gets
/// the hotkey that is replaced.
pub open spec fn recaptured(config: AppConfig, edit: HotkeyEdit, hotkey: (u32, u32)) -> AppConfig {
    match edit {
        HotkeyEdit::Left => with_hotkeys(
            config,
            hotkey,
            if right_hotkey(config) == hotkey {
                left_hotkey(config)
            } else {
                right_hotkey(config)
            },
        ),
        HotkeyEdit::Right => with_hotkeys(
            config,
            if left_hotkey(config) == hotkey {
                right_hotkey(config)
            } else {
                left_hotkey(config)
            },
            hotkey,
        ),
    }
}

/// Turns a switch. The result is to be saved, and the application told to load it again.
pub fn apply_switch(config: &AppConfig, edit: SwitchEdit, is_on: bool) -> (changed: AppConfig)
    ensures
        changed == switched(*config, edit, is_on),
{
    let mut new_config = *config;
    match edit {
        SwitchEdit::UncombineMode => {
            new_config.uncombine_mode = is_on;
        },
        SwitchEdit::CycleTaskbarBased => {
            new_config.cycle_taskbar_based = is_on;
        },
    }
    new_config
}

/// Takes over a captured hotkey. The result is to be saved, and the application told to load it
/// again.
pub fn apply_hotkey(config: &AppConfig, edit: HotkeyEdit, mods: u32, vk: u32) -> (changed:
    AppConfig)
    ensures
        changed == recaptured(*config, edit, (mods, vk)),
{
    let mut new_config = *config;
    match edit {
        HotkeyEdit::Left => {
            if new_config.hotkey_right_modifiers == mods && new_config.hotkey_right_vk == vk {
                new_config.hotkey_right_modifiers = new_config.hotkey_left_modifiers;
                new_config.hotkey_right_vk = new_config.hotkey_left_vk;
            }
            new_config.hotkey_left_modifiers = mods;
            new_config.hotkey_left_vk = vk;
        },
        HotkeyEdit::Right => {
            if new_config.hotkey_left_modifiers == mods && new_config.hotkey_left_vk == vk {
                new_config.hotkey_left_modifiers = new_config.hotkey_right_modifiers;
                new_config.hotkey_left_vk = new_config.hotkey_right_vk;
            }
            new_config.hotkey_right_modifiers = mods;
            new_config.hotkey_right_vk = vk;
        },
    }
    new_config
}

/// The item has this icon, title, description and action, and is enabled.
pub open spec fn shows(
    item: SettingItemProps,
    icon: Option<char>,
    title: Seq<char>,
    description: Option<Seq<char>>,
    action: Option<SettingAction>,
) -> bool {
    &&& item.icon == icon
    &&& item.title matches Some(t) && t@ == title
    &&& item.description is Some <==> description is Some
    &&& item.description matches Some(d) ==> description == Some(d@)
    &&& item.action == action
    &&& !item.always_expand
    &&& item.enabled
}

fn leaf(icon: Option<char>, title: &str, description: Option<&str>, action: Option<SettingAction>) -> (item:
    SettingItemProps)
    ensures
        item.children is None,
        shows(
            item,
            icon,
            title@,
            match description {
                Some(d) => Some(d@),
                None => None,
            },
            action,
        ),
{
    let description = match description {
        Some(d) => Some(d.to_owned()),
        None => None,
    };
    SettingItemProps {
        icon,
        title: Some(title.to_owned()),
        description,
        action,
        children: None,
        always_expand: false,
        enabled: true,
    }
}

/// The settings of the taskbar: uncombining, and cycling with its two hotkeys below.
pub fn taskbar_settings(config: &AppConfig) -> (items: Vec<SettingItemProps>)
    ensures
        items@.len() == 2,
        items@[0].children is None,
        shows(
            items@[0],
            Some('\u{E7C4}'),
            "Uncombine Mode"@,
            Some("Disallow group windows on the taskbar"@),
            Some(
                SettingAction::Switch {
                    on: config.uncombine_mode,
                    edit: Some(SwitchEdit::UncombineMode),
                },
            ),
        ),
        shows(
            items@[1],
            Some('\u{E8AB}'),
            "Cycle taskbar buttons"@,
            Some("Switch windows based on taskbar buttons"@),
            Some(
                SettingAction::Switch {
                    on: config.cycle_taskbar_based,
                    edit: Some(SwitchEdit::CycleTaskbarBased),
                },
            ),
        ),
        items@[1].children matches Some(children) && {
            &&& children@.len() == 2
            &&& children@[0].children is None
            &&& children@[1].children is None
            &&& shows(
                children@[0],
                None,
                "Cycle left"@,
                None,
                Some(
                    SettingAction::Hotkey {
                        hotkey: left_hotkey(*config),
                        direction: HotkeyEdit::Left,
                    },
                ),
            )
            &&& shows(
                children@[1],
                None,
                "Cycle right"@,
                None,
                Some(
                    SettingAction::Hotkey {
                        hotkey: right_hotkey(*config),
                        direction: HotkeyEdit::Right,
                    },
                ),
            )
        },
{
    let uncombine = leaf(
        Some('\u{E7C4}'),
        "Uncombine Mode",
        Some("Disallow group windows on the taskbar"),
        Some(
            SettingAction::Switch {
                on: config.uncombine_mode,
                edit: Some(SwitchEdit::UncombineMode),
            },
        ),
    );
    let left = leaf(
        None,
        "Cycle left",
        None,
        Some(
            SettingAction::Hotkey {
                hotkey: (config.hotkey_left_modifiers, config.hotkey_left_vk),
                direction: HotkeyEdit::Left,
            },
        ),
    );
    let right = leaf(
        None,
        "Cycle right",
        None,
        Some(
            SettingAction::Hotkey {
                hotkey: (config.hotkey_right_modifiers, config.hotkey_right_vk),
                direction: HotkeyEdit::Right,
            },
        ),
    );
    let mut cycle = leaf(
        Some('\u{E8AB}'),
        "Cycle taskbar buttons",
        Some("Switch windows based on taskbar buttons"),
        Some(
            SettingAction::Switch {
                on: config.cycle_taskbar_based,
                edit: Some(SwitchEdit::CycleTaskbarBased),
            },
        ),
    );
    let mut children: Vec<SettingItemProps> = Vec::new();
    children.push(left);
    children.push(right);
    cycle.children = Some(children);
    let mut items: Vec<SettingItemProps> = Vec::new();
    items.push(uncombine);
    items.push(cycle);
    items
}

/// The settings of the virtual desktops.
pub fn virtual_desktop_settings() -> (items: Vec<SettingItemProps>)
    ensures
        items@.len() == 2,
        items@[0].children is None,
        items@[1].children is None,
        shows(
            items@[0],
            Some('\u{E712}'),
            "Desktop Indicator"@,
            Some("Show the virtual desktop indicator on the taskbar"@),
            Some(SettingAction::Switch { on: true, edit: None }),
        ),
        shows(
            items@[1],
            Some('\u{E7B5}'),
            "Jump to Desktop"@,
            Some("Quickly jump to the desktop by index"@),
            None,
        ),
{
    let indicator = leaf(
        Some('\u{E712}'),
        "Desktop Indicator",
        Some("Show the virtual desktop indicator on the taskbar"),
        Some(SettingAction::Switch { on: true, edit: None }),
    );
    let jump = leaf(
        Some('\u{E7B5}'),
        "Jump to Desktop",
        Some("Quickly jump to the desktop by index"),
        None,
    );
    let mut items: Vec<SettingItemProps> = Vec::new();
    items.push(indicator);
    items.push(jump);
    items
}

/// Two different hotkeys stay different, whichever of them is captured anew.
pub proof fn law_hotkeys_stay_different(config: AppConfig, edit: HotkeyEdit, hotkey: (u32, u32))
    requires
        left_hotkey(config) != right_hotkey(config),
    ensures
        left_hotkey(recaptured(config, edit, hotkey)) != right_hotkey(
            recaptured(config, edit, hotkey),
        ),
{
}

/// Capturing the hotkey of the other direction swaps the two.
pub proof fn law_taken_hotkey_is_swapped(config: AppConfig)
    ensures
        recaptured(config, HotkeyEdit::Left, right_hotkey(config)) == with_hotkeys(
            config,
            right_hotkey(config),
            left_hotkey(config),
        ),
        recaptured(config, HotkeyEdit::Right, left_hotkey(config)) == with_hotkeys(
            config,
            right_hotkey(config),
            left_hotkey(config),
        ),
{
}

/// A switch changes its own setting and nothing else.
pub proof fn law_switch_changes_one_setting(config: AppConfig, edit: SwitchEdit, is_on: bool)
    ensures
        ({
            let changed = switched(config, edit, is_on);
            &&& edit == SwitchEdit::UncombineMode ==> changed.uncombine_mode == is_on
                && changed.cycle_taskbar_based == config.cycle_taskbar_based
            &&& edit == SwitchEdit::CycleTaskbarBased ==> changed.cycle_taskbar_based == is_on
                && changed.uncombine_mode == config.uncombine_mode
            &&& changed.hotkey_left_vk == config.hotkey_left_vk
            &&& changed.hotkey_left_modifiers == config.hotkey_left_modifiers
            &&& changed.hotkey_right_vk == config.hotkey_right_vk
            &&& changed.hotkey_right_modifiers == config.hotkey_right_modifiers
            &&& changed.desktop_indicator == config.desktop_indicator
            &&& changed.jump_desktop_modifiers == config.jump_desktop_modifiers
        }),
{
}

/// A captured hotkey is that of its direction afterwards. The other direction keeps its hotkey unless
/// it is the captured one; then it gets the one that was replaced. Nothing else changes.
pub proof fn law_captured_hotkey_is_taken_over(config: AppConfig, mods: u32, vk: u32)
    ensures
        ({
            let left = recaptured(config, HotkeyEdit::Left, (mods, vk));
            let taken = config.hotkey_right_modifiers == mods && config.hotkey_right_vk == vk;
            &&& left.hotkey_left_modifiers == mods && left.hotkey_left_vk == vk
            &&& !taken ==> left.hotkey_right_modifiers == config.hotkey_right_modifiers
                && left.hotkey_right_vk == config.hotkey_right_vk
            &&& taken ==> left.hotkey_right_modifiers == config.hotkey_left_modifiers
                && left.hotkey_right_vk == config.hotkey_left_vk
        }),
        ({
            let right = recaptured(config, HotkeyEdit::Right, (mods, vk));
            let taken = config.hotkey_left_modifiers == mods && config.hotkey_left_vk == vk;
            &&& right.hotkey_right_modifiers == mods && right.hotkey_right_vk == vk
            &&& !taken ==> right.hotkey_left_modifiers == config.hotkey_left_modifiers
                && right.hotkey_left_vk == config.hotkey_left_vk
            &&& taken ==> right.hotkey_left_modifiers == config.hotkey_right_modifiers
                && right.hotkey_left_vk == config.hotkey_right_vk
        }),
{
}

/// Capturing a hotkey leaves the other settings alone.
pub proof fn law_capture_changes_hotkeys_alone(
    config: AppConfig,
    edit: HotkeyEdit,
    hotkey: (u32, u32),
)
    ensures
        ({
            let changed = recaptured(config, edit, hotkey);
            &&& changed.uncombine_mode == config.uncombine_mode
            &&& changed.cycle_taskbar_based == config.cycle_taskbar_based
            &&& changed.desktop_indicator == config.desktop_indicator
            &&& changed.jump_desktop_modifiers == config.jump_desktop_modifiers
        }),
        left_hotkey(config) == (config.hotkey_left_modifiers, config.hotkey_left_vk),
        right_hotkey(config) == (config.hotkey_right_modifiers, config.hotkey_right_vk),
{
}

} // verus!
