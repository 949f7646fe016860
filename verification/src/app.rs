//! Application state and the routing of messages.
//!
//! [`App`] holds what the application knows: the taskbar, the hotkeys, the windows with an AUMID of
//! their own. Each message of the system is handed to it; it answers with what is to be done.

use vstd::prelude::*;
use vstd::string::*;

use crate::config::AppConfig;
use crate::event::uia::{reset_cache_invalidated_flag, CacheFlag};
use crate::event::winevent::InvalidateSource;
use crate::event::{
    WM_APP_INVALIDATE_CACHE, WM_APP_RELOAD_CONFIG, WM_APP_RESTART_AS_ADMIN, WM_APP_UNCOMBINE,
};
use crate::hotkey;
use crate::hotkey::{HotkeyAction, HotkeyManager};
use crate::parsing;
use crate::parsing::from_utf16_lossy;
use crate::taskbar::cycle::CycleDirection;
use crate::taskbar::enumerator::TaskbarEnumerator;
use crate::taskbar::uncombine;
use crate::taskbar::uncombine::{AumidChange, AumidRestore, UncombineManager};
use crate::text::text_eq;
use crate::tray_icon::{IDM_EXIT, IDM_SETTINGS, IDM_SHOW_CONSOLE, WM_USER_TRAYICON};
use crate::types::WindowInfo;

verus! {

pub const WM_DESTROY: u32 = 0x0002;

pub const WM_QUERYENDSESSION: u32 = 0x0011;

pub const WM_ENDSESSION: u32 = 0x0016;

pub const WM_SETTINGCHANGE: u32 = 0x001A;

pub const WM_COMMAND: u32 = 0x0111;

pub const WM_LBUTTONUP: u32 = 0x0202;

pub const WM_RBUTTONUP: u32 = 0x0205;

pub const WM_HOTKEY: u32 = 0x0312;

/// Where a message without a window goes.
#[derive(Debug, Clone, Copy, PartialEq, Eq, Structural)]
pub enum ThreadMessage {
    /// To [`App::handle_hotkey`].
    Hotkey,
    /// To [`App::handle_uncombine`].
    Uncombine,
    /// To [`App::handle_cache_invalidate`].
    InvalidateCache,
    /// To [`App::handle_reload_config`].
    ReloadConfig,
    /// Nowhere.
    Ignored,
}

/// What a message to the hidden window asks for.
#[derive(Debug, Clone, Copy, PartialEq, Eq, Structural)]
pub enum WindowAction {
    Nothing,
    /// Show the menu of the tray icon at the cursor.
    ShowMenu,
    /// Load the configuration, and hand it to [`App::handle_reload_config`].
    ReloadConfig,
    /// Start again with administrator rights, with or without the settings window, then quit.
    RestartAsAdmin { reopen_ui: bool },
    /// End the message loop.
    Quit,
    ToggleConsole,
    ShowSettings,
    /// Put the tray icon back: the taskbar has been created anew.
    ReregisterTrayIcon,
    /// Show the tray icon of the current theme.
    UpdateTheme,
}

/// The answer to a message to the hidden window.
#[derive(Debug, Clone, Copy, PartialEq, Eq, Structural)]
pub struct WindowReply {
    /// The result of the message; nothing where the default handling is to answer.
    pub result: Option<isize>,
    pub action: WindowAction,
    /// The application no longer runs.
    pub stops: bool,
}

/// What the message loop does next.
#[derive(Debug, Clone, Copy, PartialEq, Eq, Structural)]
pub enum LoopStep {
    /// Leave the loop.
    Stop,
    /// Leave the loop: no message could be received.
    Fail,
    /// Route the message as one without a window.
    DispatchThreadMessage,
    /// Hand the message to its window.
    DispatchWindowMessage,
}

/// What a hotkey asks for.
#[derive(Debug, Clone, Copy, PartialEq, Eq, Structural)]
pub enum HotkeyStep {
    Nothing,
    /// Cycle to the neighbor in this direction.
    Cycle(CycleDirection),
    /// Switch to the virtual desktop with this index.
    SwitchDesktop(u32),
}

/// What becomes of the indicator window.
#[derive(Debug, Clone, Copy, PartialEq, Eq, Structural)]
pub enum IndicatorChange {
    Keep,
    /// Create and show it, and report to [`App::indicator_created`].
    Create,
    /// Destroy it.
    Destroy,
}

/// What a new configuration asks for.
#[derive(Debug)]
pub struct ReloadPlan {
    /// The windows that get an AUMID of their own.
    pub changes: Vec<AumidChange>,
    /// The windows that get their original AUMID back.
    pub restores: Vec<AumidRestore>,
    /// The hotkeys that are to be unregistered; those of the manager are to be registered then.
    pub unregister: Vec<i32>,
    pub indicator: IndicatorChange,
}

/// The low-order word (16 bits) of a 32-bit value.
pub fn loword(value: u32) -> (word: u32)
    ensures
        word == value & 0xFFFF,
        word == value % 0x10000,
{
    assert(value & 0xFFFF == value % 0x10000) by (bit_vector);
    value & 0xFFFF
}

/// Where a message without a window goes.
pub open spec fn route(message: u32) -> ThreadMessage {
    if message == WM_HOTKEY {
        ThreadMessage::Hotkey
    } else if message == WM_APP_UNCOMBINE {
        ThreadMessage::Uncombine
    } else if message == WM_APP_INVALIDATE_CACHE {
        ThreadMessage::InvalidateCache
    } else if message == WM_APP_RELOAD_CONFIG {
        ThreadMessage::ReloadConfig
    } else {
        ThreadMessage::Ignored
    }
}

/// Routes messages that are posted to the thread and have no window.
pub fn dispatch_thread_message(message: u32) -> (to: ThreadMessage)
    ensures
        to == route(message),
{
    if message == WM_HOTKEY {
        ThreadMessage::Hotkey
    } else if message == WM_APP_UNCOMBINE {
        ThreadMessage::Uncombine
    } else if message == WM_APP_INVALIDATE_CACHE {
        ThreadMessage::InvalidateCache
    } else if message == WM_APP_RELOAD_CONFIG {
        ThreadMessage::ReloadConfig
    } else {
        ThreadMessage::Ignored
    }
}

/// What the message loop does with what it received: `result` is zero at the end and -1 on failure.
pub fn loop_step(result: i32, has_window: bool) -> (step: LoopStep)
    ensures
        step == if result == 0 {
            LoopStep::Stop
        } else if result == -1 {
            LoopStep::Fail
        } else if has_window {
            LoopStep::DispatchWindowMessage
        } else {
            LoopStep::DispatchThreadMessage
        },
{
    if result == 0 {
        return LoopStep::Stop;
    }
    if result == -1 {
        return LoopStep::Fail;
    }
    if has_window {
        LoopStep::DispatchWindowMessage
    } else {
        LoopStep::DispatchThreadMessage
    }
}

/// An answer without stopping.
pub open spec fn handled(result: isize, action: WindowAction) -> WindowReply {
    WindowReply { result: Some(result), action, stops: false }
}

/// What a command of the tray menu asks for.
pub open spec fn command_reply(id: u32) -> WindowReply {
    if id == IDM_EXIT {
        WindowReply { result: Some(0), action: WindowAction::Quit, stops: true }
    } else if id == IDM_SHOW_CONSOLE {
        handled(0, WindowAction::ToggleConsole)
    } else if id == IDM_SETTINGS {
        handled(0, WindowAction::ShowSettings)
    } else {
        handled(0, WindowAction::Nothing)
    }
}

/// The answer to a message to the hidden window. The number of the message that tells of a new
/// taskbar is known at run time only.
pub open spec fn reply(
    taskbar_created: u32,
    msg: u32,
    wparam: usize,
    lparam: isize,
    section: Seq<u16>,
) -> WindowReply {
    if msg == WM_USER_TRAYICON {
        if lparam as u32 == WM_LBUTTONUP || lparam as u32 == WM_RBUTTONUP {
            handled(0, WindowAction::ShowMenu)
        } else {
            handled(0, WindowAction::Nothing)
        }
    } else if msg == WM_APP_RELOAD_CONFIG {
        handled(0, WindowAction::ReloadConfig)
    } else if msg == WM_APP_RESTART_AS_ADMIN {
        handled(0, WindowAction::RestartAsAdmin { reopen_ui: wparam == 1 })
    } else if msg == WM_COMMAND {
        command_reply((wparam as u32) & 0xFFFF)
    } else if msg == WM_DESTROY {
        WindowReply { result: Some(0), action: WindowAction::Nothing, stops: true }
    } else if msg == WM_QUERYENDSESSION {
        handled(1, WindowAction::Nothing)
    } else if msg == WM_ENDSESSION {
        if wparam != 0 {
            WindowReply { result: Some(0), action: WindowAction::Quit, stops: true }
        } else {
            handled(0, WindowAction::Nothing)
        }
    } else if msg == taskbar_created {
        handled(0, WindowAction::ReregisterTrayIcon)
    } else if msg == WM_SETTINGCHANGE {
        if section.len() > 0 && parsing::utf16_lossy(section) == "ImmersiveColorSet"@ {
            handled(0, WindowAction::UpdateTheme)
        } else {
            handled(0, WindowAction::Nothing)
        }
    } else {
        WindowReply { result: None, action: WindowAction::Nothing, stops: false }
    }
}

fn handle_command(id: u32) -> (r: WindowReply)
    ensures
        r == command_reply(id),
{
    match id {
        IDM_EXIT => WindowReply { result: Some(0), action: WindowAction::Quit, stops: true },
        IDM_SHOW_CONSOLE => WindowReply {
            result: Some(0),
            action: WindowAction::ToggleConsole,
            stops: false,
        },
        IDM_SETTINGS => WindowReply {
            result: Some(0),
            action: WindowAction::ShowSettings,
            stops: false,
        },
        _ => WindowReply { result: Some(0), action: WindowAction::Nothing, stops: false },
    }
}

/// What a hotkey asks for.
pub open spec fn hotkey_step(hotkeys: Seq<hotkey::Hotkey>, id: i32) -> HotkeyStep {
    match hotkey::find_id(hotkeys, id, 0) {
        Some(i) => match hotkeys[i].action {
            HotkeyAction::CycleLeft => HotkeyStep::Cycle(CycleDirection::Backward),
            HotkeyAction::CycleRight => HotkeyStep::Cycle(CycleDirection::Forward),
            HotkeyAction::SwitchVirtualDesktop(index) => HotkeyStep::SwitchDesktop(index),
        },
        None => HotkeyStep::Nothing,
    }
}

/// What becomes of the indicator window.
pub open spec fn indicator_change(wanted: bool, present: bool) -> IndicatorChange {
    if wanted && !present {
        IndicatorChange::Create
    } else if !wanted && present {
        IndicatorChange::Destroy
    } else {
        IndicatorChange::Keep
    }
}

/// Represents the entire state of the WinGlide application.
pub struct App {
    /// Enumerates and navigates buttons on the Taskbar.
    pub enumerator: TaskbarEnumerator,
    /// Manager for the global hotkeys.
    pub hotkey_manager: HotkeyManager,
    /// Manager for the windows with an AUMID of their own.
    pub uncombine_manager: UncombineManager,
    /// Whether the uncombine mode is enabled.
    pub uncombine_enabled: bool,
    /// The message loop goes on.
    pub running: bool,
    /// There is an indicator window.
    pub has_indicator: bool,
    /// The number of the message that tells of a new taskbar.
    pub taskbar_created: u32,
}

impl App {
    /// Links all core components of the application. An indicator window is to be created where the
    /// configuration asks for one.
    pub fn new(
        config: &AppConfig,
        enumerator: TaskbarEnumerator,
        hotkey_manager: HotkeyManager,
        taskbar_created: u32,
    ) -> (app: App)
        ensures
            app.enumerator == enumerator,
            app.hotkey_manager == hotkey_manager,
            app.uncombine_manager.originals() == Map::<isize, Option<String>>::empty(),
            app.uncombine_enabled == config.uncombine_mode,
            app.running,
            app.has_indicator == config.desktop_indicator,
            app.taskbar_created == taskbar_created,
    {
        App {
            enumerator,
            hotkey_manager,
            uncombine_manager: UncombineManager::new(),
            uncombine_enabled: config.uncombine_mode,
            running: true,
            has_indicator: config.desktop_indicator,
            taskbar_created,
        }
    }

    /// Applies the uncombine mode at the start of the message loop. Returns the windows that get an
    /// AUMID of their own.
    pub fn start(&mut self, windows: &[WindowInfo]) -> (changes: Vec<AumidChange>)
        ensures
            old(self).uncombine_enabled ==> final(self).uncombine_manager.originals()
                == uncombine::pass_over(
                windows@,
                windows@,
                old(self).uncombine_manager.originals(),
            ).originals && uncombine::announces(
                changes@,
                uncombine::pass_over(
                    windows@,
                    windows@,
                    old(self).uncombine_manager.originals(),
                ).changed,
            ),
            !old(self).uncombine_enabled ==> changes@.len() == 0 && final(self).uncombine_manager
                == old(self).uncombine_manager,
            final(self).enumerator == old(self).enumerator,
            final(self).hotkey_manager == old(self).hotkey_manager,
            final(self).uncombine_enabled == old(self).uncombine_enabled,
            final(self).running == old(self).running,
            final(self).has_indicator == old(self).has_indicator,
            final(self).taskbar_created == old(self).taskbar_created,
    {
        if self.uncombine_enabled {
            self.uncombine_manager.uncombine_all(windows)
        } else {
            Vec::new()
        }
    }

    /// Processes messages to the hidden window. `section` is the text that a changed setting comes
    /// with, in UTF-16, empty where there is none.
    pub fn handle_window_message(
        &mut self,
        msg: u32,
        wparam: usize,
        lparam: isize,
        section: &[u16],
    ) -> (r: WindowReply)
        ensures
            r == reply(old(self).taskbar_created, msg, wparam, lparam, section@),
            *final(self) == (App { running: old(self).running && !r.stops, ..*old(self) }),
    {
        let r = window_reply(self.taskbar_created, msg, wparam, lparam, section);
        if r.stops {
            self.running = false;
        }
        r
    }

    /// Takes over a new configuration; `windows` are the visible ones.
    pub fn handle_reload_config(&mut self, config: &AppConfig, windows: &[WindowInfo]) -> (plan:
        ReloadPlan)
        ensures
            final(self).uncombine_enabled == config.uncombine_mode,
            config.uncombine_mode ==> {
                let pass = uncombine::pass_over(
                    windows@,
                    windows@,
                    old(self).uncombine_manager.originals(),
                );
                &&& final(self).uncombine_manager.originals() == pass.originals
                &&& uncombine::announces(plan.changes@, pass.changed)
                &&& plan.restores@.len() == 0
            },
            !config.uncombine_mode ==> {
                &&& final(self).uncombine_manager.originals() == Map::<
                    isize,
                    Option<String>,
                >::empty()
                &&& plan.changes@.len() == 0
                &&& uncombine::gives_back(
                    plan.restores@,
                    old(self).uncombine_manager.originals(),
                )
            },
            plan.unregister@ == hotkey::ids_of(old(self).hotkey_manager.managed()),
            final(self).hotkey_manager.managed() == hotkey::hotkeys_of(*config),
            plan.indicator == indicator_change(config.desktop_indicator, old(self).has_indicator),
            final(self).has_indicator == (old(self).has_indicator && config.desktop_indicator),
            final(self).enumerator == old(self).enumerator,
            final(self).running == old(self).running,
            final(self).taskbar_created == old(self).taskbar_created,
    {
        self.uncombine_enabled = config.uncombine_mode;
        let (changes, restores) = if config.uncombine_mode {
            (self.uncombine_manager.uncombine_all(windows), Vec::new())
        } else {
            (Vec::new(), self.uncombine_manager.restore_all())
        };
        let unregister = self.hotkey_manager.reload(config);
        let indicator = if config.desktop_indicator && !self.has_indicator {
            IndicatorChange::Create
        } else if !config.desktop_indicator && self.has_indicator {
            self.has_indicator = false;
            IndicatorChange::Destroy
        } else {
            IndicatorChange::Keep
        };
        ReloadPlan { changes, restores, unregister, indicator }
    }

    /// Takes note that the indicator window was created.
    pub fn indicator_created(&mut self)
        ensures
            *final(self) == (App { has_indicator: true, ..*old(self) }),
    {
        self.has_indicator = true;
    }

    /// Handles global hotkey press events.
    ///
    /// Afterwards the caller discards the hotkey messages that have piled up meanwhile: while a key
    /// is held down, they would go on cycling after it is released.
    pub fn handle_hotkey(&self, wparam: usize) -> (step: HotkeyStep)
        ensures
            step == hotkey_step(self.hotkey_manager.managed(), wparam as i32),
    {
        match self.hotkey_manager.action_from_id(#[verifier::truncate] (wparam as i32)) {
            Some(HotkeyAction::CycleLeft) => HotkeyStep::Cycle(CycleDirection::Backward),
            Some(HotkeyAction::CycleRight) => HotkeyStep::Cycle(CycleDirection::Forward),
            Some(HotkeyAction::SwitchVirtualDesktop(index)) => HotkeyStep::SwitchDesktop(index),
            None => HotkeyStep::Nothing,
        }
    }

    /// Handles the request to uncombine a newly appearing window. Where a change is returned and
    /// could be made, [`Self::uncombined`] is called.
    pub fn handle_uncombine(&mut self, wparam: usize, windows: &[WindowInfo]) -> (change: Option<
        AumidChange,
    >)
        ensures
            change is Some <==> old(self).uncombine_enabled && uncombine::takes_own_button(
                windows@,
                old(self).uncombine_manager.originals(),
                wparam as isize,
            ),
            change matches Some(c) ==> {
                &&& c.hwnd == wparam as isize
                &&& c.aumid@ == uncombine::unique_aumid(wparam as isize)
                &&& final(self).uncombine_manager.originals() == old(
                    self,
                ).uncombine_manager.originals().insert(
                    wparam as isize,
                    windows@[uncombine::position_of(windows@, wparam as isize, 0)].aumid,
                )
            },
            change is None ==> final(self).uncombine_manager.originals() == old(
                self,
            ).uncombine_manager.originals(),
            final(self).enumerator == old(self).enumerator,
            final(self).hotkey_manager == old(self).hotkey_manager,
            final(self).uncombine_enabled == old(self).uncombine_enabled,
            final(self).running == old(self).running,
            final(self).has_indicator == old(self).has_indicator,
            final(self).taskbar_created == old(self).taskbar_created,
    {
        let hwnd: isize = #[verifier::truncate] (wparam as isize);
        if self.uncombine_enabled {
            self.uncombine_manager.uncombine_one(hwnd, windows)
        } else {
            None
        }
    }

    /// Takes note that a window has got its own AUMID: the taskbar has changed.
    pub fn uncombined(&mut self)
        ensures
            final(self).enumerator.cache.button_cache is None,
            final(self).enumerator.cache.last_desktop_id == old(
                self,
            ).enumerator.cache.last_desktop_id,
            final(self).enumerator.taskbars == old(self).enumerator.taskbars,
            final(self).enumerator.uia_thread_id == old(self).enumerator.uia_thread_id,
            final(self).enumerator.last_active_index == old(self).enumerator.last_active_index,
            *final(self) == (App { enumerator: final(self).enumerator, ..*old(self) }),
    {
        self.enumerator.invalidate_cache();
    }

    /// Clears the cached Taskbar buttons when a structural change in the Taskbar is detected, and
    /// resets the flag to prepare for the next one. Returns the cause.
    pub fn handle_cache_invalidate(&mut self, wparam: usize, flag: &mut CacheFlag) -> (source:
        InvalidateSource)
        ensures
            source == InvalidateSource::of_number(wparam),
            !final(flag).invalidated,
            final(self).enumerator.cache.button_cache is None,
            final(self).enumerator.cache.last_desktop_id == old(
                self,
            ).enumerator.cache.last_desktop_id,
            final(self).enumerator.taskbars == old(self).enumerator.taskbars,
            final(self).enumerator.uia_thread_id == old(self).enumerator.uia_thread_id,
            final(self).enumerator.last_active_index == old(self).enumerator.last_active_index,
            *final(self) == (App { enumerator: final(self).enumerator, ..*old(self) }),
    {
        let source = InvalidateSource::from_wparam(wparam);
        self.enumerator.invalidate_cache();
        reset_cache_invalidated_flag(flag);
        source
    }
}

fn window_reply(
    taskbar_created: u32,
    msg: u32,
    wparam: usize,
    lparam: isize,
    section: &[u16],
) -> (r: WindowReply)
    ensures
        r == reply(taskbar_created, msg, wparam, lparam, section@),
{
    let nothing = WindowReply { result: Some(0), action: WindowAction::Nothing, stops: false };
    if msg == WM_USER_TRAYICON {
        let mouse_event: u32 = #[verifier::truncate] (lparam as u32);
        if mouse_event == WM_LBUTTONUP || mouse_event == WM_RBUTTONUP {
            return WindowReply { action: WindowAction::ShowMenu, ..nothing };
        }
        nothing
    } else if msg == WM_APP_RELOAD_CONFIG {
        WindowReply { action: WindowAction::ReloadConfig, ..nothing }
    } else if msg == WM_APP_RESTART_AS_ADMIN {
        WindowReply {
            action: WindowAction::RestartAsAdmin { reopen_ui: wparam == 1 },
            ..nothing
        }
    } else if msg == WM_COMMAND {
        let id: u32 = loword(#[verifier::truncate] (wparam as u32));
        handle_command(id)
    } else if msg == WM_DESTROY {
        WindowReply { stops: true, ..nothing }
    } else if msg == WM_QUERYENDSESSION {
        WindowReply { result: Some(1), ..nothing }
    } else if msg == WM_ENDSESSION {
        if wparam != 0 {
            WindowReply { action: WindowAction::Quit, stops: true, ..nothing }
        } else {
            nothing
        }
    } else if msg == taskbar_created {
        WindowReply { action: WindowAction::ReregisterTrayIcon, ..nothing }
    } else if msg == WM_SETTINGCHANGE {
        if section.len() > 0 && text_eq(
            from_utf16_lossy(section).as_str(),
            "ImmersiveColorSet",
        ) {
            WindowReply { action: WindowAction::UpdateTheme, ..nothing }
        } else {
            nothing
        }
    } else {
        WindowReply { result: None, ..nothing }
    }
}

/// The keys that cycle: with cycling enabled the first hotkey goes left and the second right.
pub proof fn law_cycle_keys(config: AppConfig)
    requires
        config.cycle_taskbar_based,
    ensures
        hotkey_step(hotkey::hotkeys_of(config), 1) == HotkeyStep::Cycle(CycleDirection::Backward),
        hotkey_step(hotkey::hotkeys_of(config), 2) == HotkeyStep::Cycle(CycleDirection::Forward),
{
    hotkey::law_hotkey_triggers_its_action(config, 0);
    hotkey::law_hotkey_triggers_its_action(config, 1);
}

/// The keys that jump: the hotkey of the digit `n` switches to the desktop of that number.
pub proof fn law_jump_keys(config: AppConfig, n: int)
    requires
        config.jump_desktop_modifiers != 0,
        1 <= n <= 9,
    ensures
        hotkey_step(hotkey::hotkeys_of(config), (10 + n) as i32) == HotkeyStep::SwitchDesktop(
            (n - 1) as u32,
        ),
{
    let i = hotkey::cycle_hotkeys(config).len() + n - 1;
    assert(hotkey::hotkeys_of(config)[i] == hotkey::jump_hotkey(config, n));
    hotkey::law_hotkey_triggers_its_action(config, i);
}

/// After a new configuration was taken over there is an indicator window exactly if it is wanted,
/// once one that is to be created has been.
pub proof fn law_indicator_follows_config(wanted: bool, present: bool)
    ensures
        ((present && wanted) || indicator_change(wanted, present) is Create) == wanted,
        indicator_change(wanted, present) is Destroy ==> present,
{
}

/// The application stops only on the exit command, when its window is destroyed, or at the end of
/// the session.
pub proof fn law_stops_only_when_told(
    taskbar_created: u32,
    msg: u32,
    wparam: usize,
    lparam: isize,
    section: Seq<u16>,
)
    requires
        reply(taskbar_created, msg, wparam, lparam, section).stops,
    ensures
        msg == WM_DESTROY || (msg == WM_ENDSESSION && wparam != 0) || (msg == WM_COMMAND && (
        wparam as u32) & 0xFFFF == IDM_EXIT),
{
}

/// Of the messages without a window, four have somewhere to go, and each of them goes to its own
/// place.
pub proof fn law_routes(message: u32)
    ensures
        route(message) == ThreadMessage::Hotkey <==> message == 0x312,
        route(message) == ThreadMessage::Uncombine <==> message == 0x500,
        route(message) == ThreadMessage::InvalidateCache <==> message == 0x501,
        route(message) == ThreadMessage::ReloadConfig <==> message == 0x502,
{
}

/// A hotkey asks for what the first hotkey with that identifier is for: to the left is backward, to the
/// right is forward. An identifier that no hotkey has asks for nothing.
pub proof fn law_hotkey_asks_for_its_action(hotkeys: Seq<hotkey::Hotkey>, id: i32, i: int)
    requires
        0 <= i <= hotkeys.len(),
        forall|k: int| 0 <= k < i ==> (#[trigger] hotkeys[k]).id != id,
        i < hotkeys.len() ==> hotkeys[i].id == id,
    ensures
        i == hotkeys.len() ==> hotkey_step(hotkeys, id) == HotkeyStep::Nothing,
        i < hotkeys.len() ==> {
            &&& hotkeys[i].action == HotkeyAction::CycleLeft <==> hotkey_step(hotkeys, id)
                == HotkeyStep::Cycle(CycleDirection::Backward)
            &&& hotkeys[i].action == HotkeyAction::CycleRight <==> hotkey_step(hotkeys, id)
                == HotkeyStep::Cycle(CycleDirection::Forward)
            &&& hotkeys[i].action matches HotkeyAction::SwitchVirtualDesktop(d) ==> hotkey_step(
                hotkeys,
                id,
            ) == HotkeyStep::SwitchDesktop(d)
        },
{
    hotkey::law_hotkey_is_found_by_its_id(hotkeys, id);
    if let Some(k) = hotkey::find_id(hotkeys, id, 0) {
        if i < hotkeys.len() {
            assert(k == i) by {
                if k < i {
                    assert(hotkeys[k].id != id);
                } else if i < k {
                    assert(hotkeys[i].id != id);
                }
            }
        } else {
            assert(hotkeys[k].id != id);
        }
    } else if i < hotkeys.len() {
        assert(hotkeys[i].id != id);
    }
}

/// The indicator window stays as it is exactly if it is there and wanted, or neither.
pub proof fn law_indicator_changes_only_when_needed(wanted: bool, present: bool)
    ensures
        indicator_change(wanted, present) == IndicatorChange::Keep <==> wanted == present,
        indicator_change(wanted, present) == IndicatorChange::Create ==> wanted,
        indicator_change(wanted, present) == IndicatorChange::Destroy ==> !wanted,
{
}

/// The messages that the hidden window answers are these and no others; the default handling answers
/// the rest, and nothing is done.
pub proof fn law_answered_messages(
    taskbar_created: u32,
    msg: u32,
    wparam: usize,
    lparam: isize,
    section: Seq<u16>,
)
    ensures
        ({
            let r = reply(taskbar_created, msg, wparam, lparam, section);
            &&& r.result is None <==> msg != 0x600 && msg != 0x502 && msg != 0x503 && msg != 0x111
                && msg != 2 && msg != 0x11 && msg != 0x16 && msg != taskbar_created && msg != 0x1A
            &&& r.result is None ==> r.action == WindowAction::Nothing && !r.stops
            &&& r.result matches Some(v) ==> (v == 0 || v == 1) && (v == 1 <==> msg == 0x11)
            &&& r.stops && msg != 2 ==> r.action == WindowAction::Quit
            &&& r.action == WindowAction::Quit ==> r.stops
        }),
{
}

/// What each message asks for. Where the number of the message that tells of a new taskbar is one of
/// the fixed ones, that one comes first, except for the message of a changed setting.
pub proof fn law_requested_actions(
    taskbar_created: u32,
    msg: u32,
    wparam: usize,
    lparam: isize,
    section: Seq<u16>,
)
    ensures
        ({
            let action = reply(taskbar_created, msg, wparam, lparam, section).action;
            let low = (wparam as u32) & 0xFFFF;
            &&& action == WindowAction::ShowMenu <==> msg == 0x600 && (lparam as u32 == 0x202
                || lparam as u32 == 0x205)
            &&& action == WindowAction::ReloadConfig <==> msg == 0x502
            &&& action is RestartAsAdmin <==> msg == 0x503
            &&& action matches WindowAction::RestartAsAdmin { reopen_ui } ==> (reopen_ui <==> wparam
                == 1)
            &&& action == WindowAction::ToggleConsole <==> msg == 0x111 && low == 3
            &&& action == WindowAction::ShowSettings <==> msg == 0x111 && low == 4
            &&& action == WindowAction::Quit <==> (msg == 0x111 && low == 1) || (msg == 0x16
                && wparam != 0)
            &&& action == WindowAction::ReregisterTrayIcon <==> msg == taskbar_created && msg
                != 0x600 && msg != 0x502 && msg != 0x503 && msg != 0x111 && msg != 2 && msg != 0x11
                && msg != 0x16
            &&& action == WindowAction::UpdateTheme <==> msg == 0x1A && msg != taskbar_created
                && section.len() > 0
                && parsing::utf16_lossy(section) == "ImmersiveColorSet"@
        }),
{
}

/// The application stops on the exit command, when its window is destroyed, and when the session ends.
pub proof fn law_stops_when_told(
    taskbar_created: u32,
    msg: u32,
    wparam: usize,
    lparam: isize,
    section: Seq<u16>,
)
    ensures
        reply(taskbar_created, msg, wparam, lparam, section).stops <==> msg == 2 || (msg == 0x16
            && wparam != 0) || (msg == 0x111 && (wparam as u32) & 0xFFFF == 1),
{
}

} // verus!
