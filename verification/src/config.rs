//! The user preferences, and the rules that they keep.

use vstd::prelude::*;

use crate::cli::Args;

verus! {

/// Virtual key code of `[`.
pub const VK_OEM_4: u32 = 219;

/// Virtual key code of `]`.
pub const VK_OEM_6: u32 = 221;

/// The modifier Alt.
pub const MOD_ALT: u32 = 1;

/// Main configuration struct for the application.
#[derive(Debug, Clone, Copy, PartialEq, Eq, Structural)]
pub struct AppConfig {
    /// Prevents the taskbar buttons groups from being combined on the taskbar.
    pub uncombine_mode: bool,
    /// Cycle mode based on the order of taskbar buttons.
    pub cycle_taskbar_based: bool,
    /// Virtual key code (VK) of the hotkey to move left.
    pub hotkey_left_vk: u32,
    /// Modifiers for the hotkey to move left.
    pub hotkey_left_modifiers: u32,
    /// Virtual key code (VK) of the hotkey to move right.
    pub hotkey_right_vk: u32,
    /// Modifiers for the hotkey to move right.
    pub hotkey_right_modifiers: u32,
    /// Allows displaying the Desktop Indicator.
    pub desktop_indicator: bool,
    /// Modifiers for the Jump to Desktop hotkey (e.g. Alt + <number>).
    pub jump_desktop_modifiers: u32,
}

/// The configuration before the user has changed anything.
pub open spec fn default_config() -> AppConfig {
    AppConfig {
        uncombine_mode: true,
        cycle_taskbar_based: true,
        hotkey_left_vk: VK_OEM_4,
        hotkey_left_modifiers: MOD_ALT,
        hotkey_right_vk: VK_OEM_6,
        hotkey_right_modifiers: MOD_ALT,
        desktop_indicator: true,
        jump_desktop_modifiers: MOD_ALT,
    }
}

impl Default for AppConfig {
    fn default() -> (config: Self)
        ensures
            config == default_config(),
    {
        AppConfig {
            uncombine_mode: true,
            cycle_taskbar_based: true,
            hotkey_left_vk: VK_OEM_4,
            hotkey_left_modifiers: MOD_ALT,
            hotkey_right_vk: VK_OEM_6,
            hotkey_right_modifiers: MOD_ALT,
            desktop_indicator: true,
            jump_desktop_modifiers: MOD_ALT,
        }
    }
}

/// What the configuration file held.
#[derive(Debug, Clone, Copy, PartialEq, Eq, Structural)]
pub enum StoredConfig {
    /// The file could not be read.
    Missing,
    /// The file could be read, but holds no configuration.
    Malformed,
    /// The configuration in the file.
    Parsed(AppConfig),
}

/// A configuration that was loaded.
#[derive(Debug, Clone, Copy, PartialEq, Eq, Structural)]
pub struct LoadedConfig {
    pub config: AppConfig,
    /// The configuration is to be written to the file.
    pub save: bool,
}

impl AppConfig {
    /// Cycling along the taskbar needs uncombined buttons.
    pub open spec fn cycles_uncombined(&self) -> bool {
        self.cycle_taskbar_based ==> self.uncombine_mode
    }

    /// The configuration with uncombining switched on where cycling needs it.
    pub open spec fn corrected(&self) -> AppConfig {
        AppConfig {
            uncombine_mode: self.uncombine_mode || self.cycle_taskbar_based,
            ..*self
        }
    }

    /// Loads the configuration from what the file held, or the default configuration if the file is
    /// not found or an error occurs. A missing file is written.
    pub fn load(stored: StoredConfig) -> (loaded: LoadedConfig)
        ensures
            loaded == match stored {
                StoredConfig::Missing => LoadedConfig { config: default_config(), save: true },
                StoredConfig::Malformed => LoadedConfig { config: default_config(), save: false },
                StoredConfig::Parsed(config) => LoadedConfig {
                    config: config.corrected(),
                    save: false,
                },
            },
            loaded.config.cycles_uncombined(),
    {
        match stored {
            StoredConfig::Parsed(parsed) => {
                let mut config = parsed;
                if config.cycle_taskbar_based {
                    config.uncombine_mode = true;
                }
                LoadedConfig { config, save: false }
            },
            StoredConfig::Malformed => LoadedConfig { config: AppConfig::default(), save: false },
            StoredConfig::Missing => LoadedConfig { config: AppConfig::default(), save: true },
        }
    }
}

/// The configuration that the application starts with: combine mode switches uncombining off.
pub fn start_config(config: AppConfig, args: &Args) -> (started: AppConfig)
    ensures
        started == (AppConfig {
            uncombine_mode: config.uncombine_mode && !args.combine_enabled,
            ..config
        }),
{
    let mut started = config;
    if args.combine_enabled {
        started.uncombine_mode = false;
    }
    started
}

/// Loading a configuration that was loaded and saved changes nothing.
pub proof fn law_load_is_stable(config: AppConfig)
    ensures
        config.corrected().corrected() == config.corrected(),
        config.cycles_uncombined() ==> config.corrected() == config,
{
}

/// Loading switches uncombining on where the configuration cycles along the taskbar, and changes
/// nothing else.
pub proof fn law_load_corrects_uncombining_alone(config: AppConfig)
    ensures
        config.corrected().uncombine_mode <==> config.uncombine_mode || config.cycle_taskbar_based,
        config.corrected().cycle_taskbar_based == config.cycle_taskbar_based,
        config.corrected().hotkey_left_vk == config.hotkey_left_vk,
        config.corrected().hotkey_left_modifiers == config.hotkey_left_modifiers,
        config.corrected().hotkey_right_vk == config.hotkey_right_vk,
        config.corrected().hotkey_right_modifiers == config.hotkey_right_modifiers,
        config.corrected().desktop_indicator == config.desktop_indicator,
        config.corrected().jump_desktop_modifiers == config.jump_desktop_modifiers,
        config.cycles_uncombined() <==> !config.cycle_taskbar_based || config.uncombine_mode,
{
}

/// The default configuration has everything switched on, Alt as its only modifier, and the brackets
/// as its keys.
pub proof fn law_default_configuration(config: AppConfig)
    requires
        config == default_config(),
    ensures
        config.uncombine_mode,
        config.cycle_taskbar_based,
        config.desktop_indicator,
        config.hotkey_left_modifiers == 1,
        config.hotkey_right_modifiers == 1,
        config.jump_desktop_modifiers == 1,
        config.hotkey_left_vk == 219,
        config.hotkey_right_vk == 221,
        config.cycles_uncombined(),
{
}

} // verus!
