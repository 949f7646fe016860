use winglide::admin::{is_running_as_admin, restart_as_admin, restart_parameters, RestartError};
use winglide::app::{
    dispatch_thread_message, loop_step, loword, App, HotkeyStep, IndicatorChange, LoopStep,
    ThreadMessage, WindowAction,
};
use winglide::autostart::{
    autostart_outcome, is_autostart_enabled, quote_path, set_autostart, unit_bytes, AutostartError,
    RunKeyChange,
};
use winglide::cli::{help_text, is_given, parse_args, Args, RunMode};
use winglide::config::{start_config, AppConfig, StoredConfig};
use winglide::event::uia::{
    change_source, handle_structure_changed_event, reset_cache_invalidated_flag, CacheFlag,
};
use winglide::event::winevent::{is_window_shown, win_event_proc, InvalidateSource, WinEvent};
use winglide::event::PostedMessage;
use winglide::hotkey::{plan_hotkeys, HotkeyAction, HotkeyManager};
use winglide::taskbar::cycle::CycleDirection;
use winglide::taskbar::enumerator::TaskbarEnumerator;
use winglide::taskbar::uncombine::UncombineManager;
use winglide::tray_icon::{create_menu, icon_data, icon_theme, tooltip, IconTheme, TrayIcon};
use winglide::types::{Rect, WindowInfo};
use winglide::updater::{
    check_for_updates, find_update, latest_version, Asset, Release, UpdateError,
};

fn raw(args: &[&str]) -> Vec<String> {
    args.iter().map(|s| s.to_string()).collect()
}

fn units(s: &str) -> Vec<u16> {
    s.encode_utf16().collect()
}

fn window(hwnd: isize, aumid: Option<&str>) -> WindowInfo {
    WindowInfo {
        hwnd,
        title: "t".to_string(),
        process_id: 1,
        rect: Rect { left: 0, top: 0, right: 0, bottom: 0 },
        process_name: "a.exe".to_string(),
        aumid: aumid.map(|s| s.to_string()),
    }
}

fn app_with(config: &AppConfig) -> App {
    let manager = HotkeyManager::new(config, &[]).unwrap();
    App::new(config, TaskbarEnumerator::new(vec![7]).unwrap(), manager, 0xC123)
}

#[test]
fn switches_are_read_in_any_order() {
    let args = parse_args(&raw(&["winglide.exe", "--combine-mode", "-v", "--unknown"]));
    assert_eq!(
        args,
        Args {
            debug: false,
            verbose: true,
            combine_enabled: true,
            reopen_ui: false,
            mode: RunMode::BackgroundApp,
        }
    );
    let args = parse_args(&raw(&["--verbose", "--debug", "--reopen-ui", "--settings-ui"]));
    assert!(args.verbose && args.debug && args.reopen_ui);
    assert_eq!(args.mode, RunMode::SettingsUi);
    assert!(is_given(&raw(&["a", "b"]), "b"));
    assert!(!is_given(&raw(&["--verbos"]), "--verbose"));
}

#[test]
fn a_console_worker_is_no_settings_window() {
    let args = parse_args(&raw(&["--settings-ui", "--console-worker"]));
    assert_eq!(args.mode, RunMode::ConsoleWorker);
    assert_eq!(parse_args(&[]), Args::default());
    assert_eq!(RunMode::default(), RunMode::BackgroundApp);
}

#[test]
fn help_names_the_switches_that_are_set() {
    let plain = help_text(&Args::default());
    assert!(plain.starts_with("\nWinGlide started:\n\tAlt+[  : cycle left\n"));
    assert!(plain.ends_with("\n\t--debug: attach console for debugging"));
    let all = help_text(&Args { debug: true, verbose: true, combine_enabled: true, ..Args::default() });
    assert_eq!(
        all,
        format!("{plain}\nVerbose logging enabled\nCombine mode enabled\nDebug console enabled")
    );
}

#[test]
fn default_configuration() {
    let c = AppConfig::default();
    assert!(c.uncombine_mode && c.cycle_taskbar_based && c.desktop_indicator);
    assert_eq!((c.hotkey_left_vk, c.hotkey_left_modifiers), (219, 1));
    assert_eq!((c.hotkey_right_vk, c.hotkey_right_modifiers), (221, 1));
    assert_eq!(c.jump_desktop_modifiers, 1);
}

#[test]
fn loading_a_configuration() {
    let missing = AppConfig::load(StoredConfig::Missing);
    assert!(missing.save);
    assert_eq!(missing.config, AppConfig::default());
    let malformed = AppConfig::load(StoredConfig::Malformed);
    assert!(!malformed.save);
    assert_eq!(malformed.config, AppConfig::default());
    let combined = AppConfig { uncombine_mode: false, ..AppConfig::default() };
    let loaded = AppConfig::load(StoredConfig::Parsed(combined));
    assert!(loaded.config.uncombine_mode && !loaded.save);
    assert_eq!(AppConfig::load(StoredConfig::Parsed(loaded.config)).config, loaded.config);
    let off = AppConfig { uncombine_mode: false, cycle_taskbar_based: false, ..combined };
    assert!(!AppConfig::load(StoredConfig::Parsed(off)).config.uncombine_mode);
}

#[test]
fn hotkeys_of_the_default_configuration() {
    let keys = plan_hotkeys(&AppConfig::default());
    assert_eq!(keys.len(), 11);
    assert_eq!((keys[0].id, keys[0].vk, keys[0].modifiers), (1, 219, 1));
    assert_eq!((keys[1].id, keys[1].action), (2, HotkeyAction::CycleRight));
    assert_eq!((keys[2].id, keys[2].vk), (11, 0x31));
    assert_eq!((keys[10].id, keys[10].vk), (19, 0x39));
    assert_eq!(keys[10].action, HotkeyAction::SwitchVirtualDesktop(8));
}

#[test]
fn disabled_hotkeys_are_not_planned() {
    let no_cycle = AppConfig { cycle_taskbar_based: false, ..AppConfig::default() };
    assert_eq!(plan_hotkeys(&no_cycle).len(), 9);
    let no_jump = AppConfig { jump_desktop_modifiers: 0, ..AppConfig::default() };
    assert_eq!(plan_hotkeys(&no_jump).len(), 2);
}

#[test]
fn a_manager_needs_every_registration() {
    let config = AppConfig { jump_desktop_modifiers: 0, ..AppConfig::default() };
    let manager = HotkeyManager::new(&config, &[None, None]).unwrap();
    assert_eq!(manager.unregister_all(), vec![1, 2]);
    let error = HotkeyManager::new(&config, &[None, Some("taken".to_string())]).unwrap_err();
    assert_eq!(error.errors, vec!["taken"]);
    assert_eq!(error.unregister, vec![1, 2]);
}

#[test]
fn actions_by_identifier() {
    let manager = HotkeyManager::new(&AppConfig::default(), &[]).unwrap();
    for key in manager.hotkeys() {
        assert_eq!(manager.action_from_id(key.id), Some(key.action));
    }
    assert_eq!(manager.action_from_id(3), None);
}

#[test]
fn reloading_hotkeys() {
    let mut manager = HotkeyManager::new(&AppConfig::default(), &[]).unwrap();
    let config = AppConfig { jump_desktop_modifiers: 0, ..AppConfig::default() };
    let ids = manager.reload(&config);
    assert_eq!(ids, vec![1, 2, 11, 12, 13, 14, 15, 16, 17, 18, 19]);
    assert_eq!(manager.hotkeys().len(), 2);
    let warnings = manager.reload_warnings(&[Some("in use".to_string()), None]);
    assert_eq!(warnings, vec!["ID 1: in use"]);
    assert_eq!(manager.reload_warnings(&[None, None]).len(), 0);
}

fn release(tag: &str, names: &[&str]) -> Release {
    Release {
        tag_name: tag.to_string(),
        body: Some("notes".to_string()),
        assets: names
            .iter()
            .map(|n| Asset { name: n.to_string(), browser_download_url: format!("url/{n}") })
            .collect(),
    }
}

#[test]
fn updates_offer_the_first_installer() {
    let r = release("v1.2.0", &["app.zip", "app.msi", "other.msi"]);
    let update = find_update(&r, "1.1.0").unwrap();
    assert_eq!(update.latest_version, "1.2.0");
    assert_eq!(update.download_url, "url/app.msi");
    assert_eq!(update.release_notes.as_deref(), Some("notes"));
    assert_eq!(update.clone(), update);
    assert!(find_update(&r, "1.2.0").is_none());
    assert!(find_update(&release("1.2.0", &["app.msi"]), "1.2.0").is_none());
    assert!(find_update(&release("v9", &["app.zip"]), "1").is_none());
    assert_eq!(latest_version("vv2"), "2");
    assert_eq!(latest_version("v"), "");
}

#[test]
fn update_checks_report_what_failed() {
    let r = release("v2", &["a.msi"]);
    assert_eq!(check_for_updates(404, None, "1"), Err(UpdateError::Status(404)));
    assert_eq!(check_for_updates(300, Some(&r), "1"), Err(UpdateError::Status(300)));
    assert_eq!(check_for_updates(199, Some(&r), "1"), Err(UpdateError::Status(199)));
    assert_eq!(check_for_updates(200, None, "1"), Err(UpdateError::Unreadable));
    assert_eq!(check_for_updates(299, Some(&r), "2"), Ok(None));
    assert!(check_for_updates(200, Some(&r), "1").unwrap().is_some());
}

fn shown(hwnd: isize, class: &str) -> WinEvent {
    WinEvent {
        event: 0x8002,
        hwnd,
        id_object: 0,
        id_child: 0,
        visible: true,
        root: hwnd,
        class_name: units(class),
    }
}

#[test]
fn a_shown_window_is_posted_once() {
    let mut manager = UncombineManager::new();
    let event = shown(2, "Notepad");
    assert_eq!(
        win_event_proc(&event, 9, Some(&manager)),
        Some(PostedMessage { thread_id: 9, message: 0x500, wparam: 2 })
    );
    manager.uncombine_one(2, &[window(1, Some("A")), window(2, Some("A"))]);
    assert_eq!(win_event_proc(&event, 9, Some(&manager)), None);
}

#[test]
fn other_events_are_not_posted() {
    let manager = UncombineManager::new();
    let post = |e: &WinEvent| win_event_proc(e, 9, Some(&manager));
    assert_eq!(post(&shown(2, "Progman")), None);
    assert!(post(&shown(2, "")).is_some());
    assert_eq!(post(&WinEvent { visible: false, ..shown(2, "x") }), None);
    assert_eq!(post(&WinEvent { root: 1, ..shown(2, "x") }), None);
    assert_eq!(post(&WinEvent { event: 0x8003, ..shown(2, "x") }), None);
    assert_eq!(post(&WinEvent { id_object: 1, ..shown(2, "x") }), None);
    assert_eq!(post(&WinEvent { id_child: 1, ..shown(2, "x") }), None);
    assert_eq!(post(&shown(0, "x")), None);
    assert_eq!(win_event_proc(&shown(2, "x"), 0, Some(&manager)), None);
    assert_eq!(win_event_proc(&shown(2, "x"), 9, None), None);
    assert!(is_window_shown(&shown(2, "Progman")));
}

#[test]
fn a_titled_window_is_posted() {
    let manager = UncombineManager::new();
    let event = shown(2, "Progman");
    let post = |title| winglide::winevent::win_event_proc(&event, title, 9, Some(&manager));
    assert_eq!(post(5), Some(PostedMessage { thread_id: 9, message: 0x500, wparam: 2 }));
    assert_eq!(post(0), None);
    assert_eq!(winglide::winevent::win_event_proc(&event, 5, 0, Some(&manager)), None);
    assert_eq!(winglide::winevent::win_event_proc(&event, 5, 9, None), None);
}

#[test]
fn sources_survive_a_message() {
    for (number, label) in [
        (0, "button added"),
        (1, "button removed"),
        (2, "button invalidated"),
        (3, "button bulk added"),
        (4, "button bulk removed"),
        (100, "desktop switch"),
    ] {
        let source = InvalidateSource::from_wparam(number);
        assert_eq!(source.to_wparam(), number);
        assert_eq!(source.label(), label);
    }
    assert_eq!(InvalidateSource::from_wparam(7), InvalidateSource::DesktopSwitch);
}

#[test]
fn uia_sources_survive_a_message() {
    for (number, label) in [
        (0, "UiaChildAdded"),
        (1, "UiaChildRemoved"),
        (2, "UiaChildrenInvalidated"),
        (3, "UiaChildrenBulkAdded"),
        (4, "UiaChildrenBulkRemoved"),
        (100, "DesktopSwitch"),
    ] {
        let source = winglide::winevent::InvalidateSource::from_wparam(number);
        assert_eq!(source.to_wparam(), number);
        assert_eq!(source.label(), label);
    }
}

#[test]
fn one_message_until_the_reset() {
    let mut flag = CacheFlag::new();
    assert_eq!(handle_structure_changed_event(&mut flag, 0, 0), None);
    assert_eq!(handle_structure_changed_event(&mut flag, 9, 5), None);
    assert!(!flag.invalidated);
    assert_eq!(
        handle_structure_changed_event(&mut flag, 9, 3),
        Some(PostedMessage { thread_id: 9, message: 0x501, wparam: 3 })
    );
    assert_eq!(handle_structure_changed_event(&mut flag, 9, 0), None);
    reset_cache_invalidated_flag(&mut flag);
    assert!(handle_structure_changed_event(&mut flag, 9, 0).is_some());
    winglide::winevent::reset_cache_invalidated_flag(&mut flag);
    assert!(!flag.invalidated);
    for change in 0..5 {
        assert_eq!(change_source(change).unwrap().to_wparam(), change as usize);
    }
    assert_eq!(change_source(-1), None);
}

#[test]
fn administrator_rights() {
    assert!(is_running_as_admin(Some(1)));
    assert!(!is_running_as_admin(Some(0)));
    assert!(!is_running_as_admin(None));
    let mut expected = units("--reopen-ui");
    expected.push(0);
    assert_eq!(restart_parameters(true), Some(expected));
    assert_eq!(restart_parameters(false), None);
    assert_eq!(restart_as_admin(33), Ok(()));
    assert_eq!(restart_as_admin(32), Err(RestartError { code: 32 }));
}

#[test]
fn autostart_value_is_quoted() {
    assert_eq!(quote_path(&units("C:\\a b.exe")), {
        let mut v = units("\"C:\\a b.exe\"");
        v.push(0);
        v
    });
    assert_eq!(unit_bytes(&[0x1234, 0x00ff]), vec![0x34, 0x12, 0xff, 0x00]);
    match set_autostart(true, &units("x")) {
        RunKeyChange::Write(bytes) => assert_eq!(bytes, vec![34, 0, 120, 0, 34, 0, 0, 0]),
        RunKeyChange::Delete => panic!("not written"),
    }
    assert!(matches!(set_autostart(false, &units("x")), RunKeyChange::Delete));
    assert!(is_autostart_enabled(true, true));
    assert!(!is_autostart_enabled(false, true));
    assert!(!is_autostart_enabled(true, false));
}

#[test]
fn tray_menu_and_tooltip() {
    let menu = create_menu(false, true);
    let entries: Vec<(u32, u32, Option<&str>)> =
        menu.iter().map(|i| (i.flags, i.id, i.label.as_deref())).collect();
    assert_eq!(
        entries,
        vec![
            (8, 3, Some("Debug Console")),
            (0, 4, Some("Settings...")),
            (0x800, 0, None),
            (0, 1, Some("Exit")),
        ]
    );
    assert_eq!(create_menu(false, false)[0].flags, 0);
    assert_eq!(create_menu(true, true)[0].flags, 3);
    let tip = tooltip();
    assert_eq!(tip.len(), 128);
    assert_eq!(&tip[..16], &units("Taskbar Switcher")[..]);
    assert!(tip[16..].iter().all(|u| *u == 0));
}

#[test]
fn tray_icon_follows_the_theme() {
    assert_eq!(icon_theme(true), IconTheme::Light);
    assert_eq!(icon_theme(false), IconTheme::Dark);
    assert_eq!(icon_data(&[1, 2, 3], 1), &[2, 3]);
    let mut tray = TrayIcon::create(50);
    tray.register(9);
    assert_eq!(tray.update_theme(51), 50);
    assert_eq!(tray, TrayIcon { hwnd: 9, icon: 51 });
}

#[test]
fn thread_messages_are_routed() {
    assert_eq!(dispatch_thread_message(0x312), ThreadMessage::Hotkey);
    assert_eq!(dispatch_thread_message(0x500), ThreadMessage::Uncombine);
    assert_eq!(dispatch_thread_message(0x501), ThreadMessage::InvalidateCache);
    assert_eq!(dispatch_thread_message(0x502), ThreadMessage::ReloadConfig);
    assert_eq!(dispatch_thread_message(0x503), ThreadMessage::Ignored);
    assert_eq!(loop_step(0, true), LoopStep::Stop);
    assert_eq!(loop_step(-1, true), LoopStep::Fail);
    assert_eq!(loop_step(1, true), LoopStep::DispatchWindowMessage);
    assert_eq!(loop_step(1, false), LoopStep::DispatchThreadMessage);
    assert_eq!(loword(0x12345678), 0x5678);
}

#[test]
fn window_messages_are_answered() {
    let mut app = app_with(&AppConfig::default());
    let mut send = |msg: u32, wparam: usize, lparam: isize, section: &str| {
        let r = app.handle_window_message(msg, wparam, lparam, &units(section));
        (r.result, r.action)
    };
    assert_eq!(send(0x600, 0, 0x202, ""), (Some(0), WindowAction::ShowMenu));
    assert_eq!(send(0x600, 0, 0x205, ""), (Some(0), WindowAction::ShowMenu));
    assert_eq!(send(0x600, 0, 0x200, ""), (Some(0), WindowAction::Nothing));
    assert_eq!(send(0x502, 0, 0, ""), (Some(0), WindowAction::ReloadConfig));
    assert_eq!(
        send(0x503, 1, 0, ""),
        (Some(0), WindowAction::RestartAsAdmin { reopen_ui: true })
    );
    assert_eq!(
        send(0x503, 2, 0, ""),
        (Some(0), WindowAction::RestartAsAdmin { reopen_ui: false })
    );
    assert_eq!(send(0x111, 0x10003, 0, ""), (Some(0), WindowAction::ToggleConsole));
    assert_eq!(send(0x111, 4, 0, ""), (Some(0), WindowAction::ShowSettings));
    assert_eq!(send(0x111, 2, 0, ""), (Some(0), WindowAction::Nothing));
    assert_eq!(send(0x11, 0, 0, ""), (Some(1), WindowAction::Nothing));
    assert_eq!(send(0x16, 0, 0, ""), (Some(0), WindowAction::Nothing));
    assert_eq!(send(0xC123, 0, 0, ""), (Some(0), WindowAction::ReregisterTrayIcon));
    assert_eq!(send(0x1A, 0, 1, "ImmersiveColorSet"), (Some(0), WindowAction::UpdateTheme));
    assert_eq!(send(0x1A, 0, 1, "Environment"), (Some(0), WindowAction::Nothing));
    assert_eq!(send(0x1A, 0, 0, ""), (Some(0), WindowAction::Nothing));
    assert_eq!(send(0x9999, 0, 0, ""), (None, WindowAction::Nothing));
    assert!(app.running);
}

#[test]
fn exit_and_shutdown_stop_the_loop() {
    for (msg, wparam, action) in [
        (0x111u32, 1usize, WindowAction::Quit),
        (0x2, 0, WindowAction::Nothing),
        (0x16, 1, WindowAction::Quit),
    ] {
        let mut app = app_with(&AppConfig::default());
        let reply = app.handle_window_message(msg, wparam, 0, &[]);
        assert_eq!((reply.result, reply.action, reply.stops), (Some(0), action, true));
        assert!(!app.running);
    }
}

#[test]
fn hotkeys_cycle_and_jump() {
    let app = app_with(&AppConfig::default());
    assert_eq!(app.handle_hotkey(1), HotkeyStep::Cycle(CycleDirection::Backward));
    assert_eq!(app.handle_hotkey(2), HotkeyStep::Cycle(CycleDirection::Forward));
    assert_eq!(app.handle_hotkey(13), HotkeyStep::SwitchDesktop(2));
    assert_eq!(app.handle_hotkey(3), HotkeyStep::Nothing);
}

#[test]
fn the_application_starts_uncombined() {
    let windows = vec![window(1, Some("A")), window(2, Some("A"))];
    let mut app = app_with(&AppConfig::default());
    assert_eq!(app.start(&windows).len(), 1);
    assert!(app.uncombine_manager.is_tracked(2));
    let combined = AppConfig { uncombine_mode: false, ..AppConfig::default() };
    let mut app = app_with(&combined);
    assert_eq!(app.start(&windows).len(), 0);
}

#[test]
fn a_new_configuration_is_taken_over() {
    let windows = vec![window(1, Some("A")), window(2, Some("A"))];
    let mut app = app_with(&AppConfig::default());
    app.start(&windows);
    let off = AppConfig {
        uncombine_mode: false,
        cycle_taskbar_based: false,
        desktop_indicator: false,
        ..AppConfig::default()
    };
    let plan = app.handle_reload_config(&off, &windows);
    assert_eq!(plan.changes.len(), 0);
    assert_eq!(plan.restores.len(), 1);
    assert_eq!((plan.restores[0].hwnd, plan.restores[0].aumid.as_deref()), (2, Some("A")));
    assert_eq!(plan.unregister.len(), 11);
    assert_eq!(plan.indicator, IndicatorChange::Destroy);
    assert!(!app.has_indicator && !app.uncombine_enabled);
    let plan = app.handle_reload_config(&AppConfig::default(), &windows);
    assert_eq!(plan.changes.len(), 1);
    assert_eq!(plan.indicator, IndicatorChange::Create);
    assert!(!app.has_indicator);
    app.indicator_created();
    let plan = app.handle_reload_config(&AppConfig::default(), &windows);
    assert_eq!(plan.indicator, IndicatorChange::Keep);
    assert!(app.has_indicator);
}

#[test]
fn a_new_window_is_uncombined_where_enabled() {
    let windows = vec![window(1, Some("A")), window(2, Some("A"))];
    let mut app = app_with(&AppConfig::default());
    app.enumerator.store_buttons(&[], 0, 0);
    let change = app.handle_uncombine(2, &windows).unwrap();
    assert_eq!(change.aumid, "TaskbarSwitcher_2");
    assert!(app.enumerator.cache.button_cache.is_some());
    app.uncombined();
    assert!(app.enumerator.cache.button_cache.is_none());
    app.uncombine_enabled = false;
    assert!(app.handle_uncombine(1, &windows).is_none());
}

#[test]
fn invalidation_clears_cache_and_flag() {
    let mut app = app_with(&AppConfig::default());
    app.enumerator.store_buttons(&[], 0, 0);
    let mut flag = CacheFlag { invalidated: true };
    assert_eq!(app.handle_cache_invalidate(1, &mut flag), InvalidateSource::ButtonRemoved);
    assert!(!flag.invalidated);
    assert!(app.enumerator.cache.button_cache.is_none());
}

#[test]
fn the_autostart_value_has_two_bytes_for_each_unit() {
    for path in ["", "C:\\x.exe", "C:\\Program Files\\WinGlide\\winglide.exe"] {
        match set_autostart(true, &units(path)) {
            RunKeyChange::Write(bytes) => assert_eq!(bytes.len(), 2 * (path.len() + 3)),
            RunKeyChange::Delete => panic!("not written"),
        }
    }
}

#[test]
fn a_change_of_the_run_key_reports_its_failure() {
    assert_eq!(autostart_outcome(true, 0, 0), Ok(()));
    assert_eq!(autostart_outcome(false, 0, 0), Ok(()));
    assert_eq!(autostart_outcome(false, 0, 5), Err(AutostartError::NotModified(5)));
    assert_eq!(autostart_outcome(true, 0, 5), Err(AutostartError::NotModified(5)));
    assert_eq!(autostart_outcome(true, 5, 0), Err(AutostartError::NotOpened(5)));
    assert_eq!(autostart_outcome(false, 0, 2), Ok(()));
    assert_eq!(autostart_outcome(true, 0, 2), Err(AutostartError::NotModified(2)));
}

#[test]
fn combine_mode_switches_uncombining_off() {
    let config = AppConfig::default();
    let args = parse_args(&raw(&["--combine-mode"]));
    assert_eq!(start_config(config, &args), AppConfig { uncombine_mode: false, ..config });
    assert_eq!(start_config(config, &Args::default()), config);
}
