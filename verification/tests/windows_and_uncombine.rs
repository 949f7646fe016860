use winglide::taskbar::aumid::{
    after_length, after_name, after_open, after_process_id, after_property, get_aumid,
    AumidAnswers, AumidStep,
};
use winglide::taskbar::uncombine::{key_of, own_aumid, UncombineManager};
use winglide::taskbar::window::{
    executable_name, find_window_by_hwnd, has_application_class, has_application_style,
    is_in_context, is_listed, is_shown, ProcessImage, ProcessNames, WindowPlace, WindowTraits,
};
use winglide::taskbar::window_context::WindowContext;
use winglide::types::{Rect, WindowInfo};

fn units(s: &str) -> Vec<u16> {
    s.encode_utf16().collect()
}

fn traits(class: &str) -> WindowTraits {
    WindowTraits { visible: true, cloaked: 0, ex_style: 0, owned: false, class_name: units(class) }
}

fn here() -> WindowContext {
    WindowContext { foreground_window: 1, monitor: 10, virtual_desktop: Some(1) }
}

fn place(monitor: isize, pinned: bool, desktop: Option<u128>) -> WindowPlace {
    WindowPlace { monitor, pinned, desktop }
}

fn window(hwnd: isize, exe: &str, aumid: Option<&str>) -> WindowInfo {
    WindowInfo {
        hwnd,
        title: "t".to_string(),
        process_id: 1,
        rect: Rect { left: 0, top: 0, right: 0, bottom: 0 },
        process_name: exe.to_string(),
        aumid: aumid.map(|s| s.to_string()),
    }
}

#[test]
fn application_windows_are_shown() {
    assert!(is_shown(&traits("Notepad")));
    assert!(is_shown(&traits("")));
    assert!(!is_shown(&traits("Progman")));
    assert!(!is_shown(&WindowTraits { visible: false, ..traits("Notepad") }));
    assert!(!is_shown(&WindowTraits { cloaked: 2, ..traits("Notepad") }));
    assert!(!is_shown(&WindowTraits { ex_style: 0x80, ..traits("Notepad") }));
    assert!(!is_shown(&WindowTraits { owned: true, ..traits("Notepad") }));
}

#[test]
fn styles_and_classes() {
    assert!(has_application_style(0x40000, true));
    assert!(!has_application_style(0x40080, true));
    assert!(has_application_style(0, false));
    assert!(!has_application_style(0, true));
    assert!(has_application_class(&units("Chrome_WidgetWin_1")));
    assert!(!has_application_class(&units("Shell_TrayWnd")));
    assert!(has_application_class(&[]));
}

#[test]
fn context_filters_monitor_and_desktop() {
    assert!(is_in_context(&place(10, false, Some(1)), &here()));
    assert!(!is_in_context(&place(11, true, Some(1)), &here()));
    assert!(!is_in_context(&place(10, false, Some(2)), &here()));
    assert!(is_in_context(&place(10, true, Some(2)), &here()));
    assert!(is_in_context(&place(10, false, None), &here()));
    let unknown = WindowContext { virtual_desktop: None, ..here() };
    assert!(is_in_context(&place(10, false, Some(2)), &unknown));
}

#[test]
fn listing_without_a_context_shows_all_monitors() {
    let elsewhere = place(99, false, Some(9));
    assert!(is_listed(&traits("Notepad"), &elsewhere, None));
    assert!(!is_listed(&traits("Notepad"), &elsewhere, Some(&here())));
    assert!(!is_listed(&traits("WorkerW"), &elsewhere, None));
}

#[test]
fn context_prefers_the_cursor() {
    let c = WindowContext::current_state(5, Some(70), 80, Some(3));
    assert_eq!((c.foreground_window, c.monitor, c.virtual_desktop), (5, 70, Some(3)));
    assert_eq!(WindowContext::current_state(5, None, 80, None).monitor, 80);
    assert_eq!(WindowContext::current_state(0, None, 80, None).monitor, 0);
}

#[test]
fn a_window_from_what_the_system_tells() {
    let rect = Rect { left: 1, top: 2, right: 3, bottom: 4 };
    let w = find_window_by_hwnd(7, &units("T\u{ef}tle"), 8, rect, "x.exe".to_string(), None);
    assert_eq!((w.hwnd, w.title.as_str(), w.process_id, w.rect), (7, "T\u{ef}tle", 8, rect));
    assert_eq!((w.process_name.as_str(), w.aumid), ("x.exe", None));
    let untitled = find_window_by_hwnd(7, &[], 8, rect, String::new(), None);
    assert_eq!(untitled.title, "");
}

#[test]
fn executable_names_are_the_last_part_in_lower_case() {
    assert_eq!(executable_name("C:\\Program Files\\App\\App.EXE"), "app.exe");
    assert_eq!(executable_name("App.exe"), "app.exe");
    assert_eq!(executable_name("dir\\"), "");
}

#[test]
fn process_names_are_kept() {
    let mut names = ProcessNames::new();
    assert_eq!(names.cached(1), None);
    assert_eq!(names.learn(1, ProcessImage::NotOpened), "");
    assert_eq!(names.cached(1), None);
    assert_eq!(names.learn(1, ProcessImage::NoPath), "");
    assert_eq!(names.cached(1), Some(String::new()));
    assert_eq!(names.learn(2, ProcessImage::Path(units("C:\\X\\Edge.exe"))), "edge.exe");
    assert_eq!(names.cached(2), Some("edge.exe".to_string()));
    assert_eq!(names.learn(3, ProcessImage::Path(vec![])), "");
}

fn text(step: AumidStep) -> Option<Option<String>> {
    match step {
        AumidStep::Done(t) | AumidStep::Close(t) => Some(t),
        _ => None,
    }
}

#[test]
fn the_window_property_comes_first() {
    assert_eq!(text(after_property(Some("Id".to_string()))), Some(Some("Id".to_string())));
    assert!(matches!(after_property(Some(String::new())), AumidStep::FindProcess));
    assert!(matches!(after_property(None), AumidStep::FindProcess));
}

#[test]
fn the_process_is_asked_step_by_step() {
    assert!(matches!(after_process_id(0), AumidStep::Done(None)));
    assert!(matches!(after_process_id(6), AumidStep::OpenProcess(6)));
    assert!(matches!(after_open(false), AumidStep::Done(None)));
    assert!(matches!(after_open(true), AumidStep::AskLength));
    assert!(matches!(after_length(0), AumidStep::Close(None)));
    assert!(matches!(after_length(3), AumidStep::ReadName(3)));
    assert!(matches!(after_name(false, &[], 0), AumidStep::Close(None)));
    let mut buffer = units("Id");
    buffer.push(0);
    assert_eq!(text(after_name(true, &buffer, 3)), Some(Some("Id".to_string())));
    assert_eq!(text(after_name(true, &buffer, 1)), Some(Some(String::new())));
}

#[test]
fn group_keys_and_own_aumids() {
    let key: String = key_of(&window(1, "a.exe", Some("App"))).into_iter().collect();
    assert_eq!(key, "AUMID:App");
    let key: String = key_of(&window(1, "a.exe", None)).into_iter().collect();
    assert_eq!(key, "EXE:a.exe");
    assert_eq!(own_aumid(4711), "TaskbarSwitcher_4711");
    assert_eq!(own_aumid(-5), "TaskbarSwitcher_-5");
    assert_ne!(own_aumid(5), own_aumid(-5));
}

#[test]
fn uncombine_all_spares_the_anchor_and_singles() {
    let windows = vec![
        window(1, "a.exe", Some("A")),
        window(2, "b.exe", None),
        window(3, "x.exe", Some("A")),
        window(4, "c.exe", Some("C")),
        window(5, "b.exe", None),
        window(6, "y.exe", Some("A")),
    ];
    let mut manager = UncombineManager::new();
    let changes = manager.uncombine_all(&windows);
    let changed: Vec<isize> = changes.iter().map(|c| c.hwnd).collect();
    assert_eq!(changed, vec![3, 5, 6]);
    assert_eq!(changes[0].aumid, "TaskbarSwitcher_3");
    assert!(!manager.is_tracked(1));
    assert!(!manager.is_tracked(2));
    assert!(!manager.is_tracked(4));
    assert!(manager.is_tracked(3));
    assert_eq!(manager.uncombine_all(&windows[..1]).len(), 0);
}

#[test]
fn a_second_pass_spares_a_new_anchor() {
    let windows = vec![
        window(1, "a.exe", Some("A")),
        window(2, "a.exe", Some("A")),
        window(3, "a.exe", Some("A")),
    ];
    let mut manager = UncombineManager::new();
    assert_eq!(manager.uncombine_all(&windows).len(), 2);
    let again = manager.uncombine_all(&windows);
    assert_eq!(again.len(), 0);
}

#[test]
fn uncombine_one_needs_company() {
    let windows = vec![
        window(1, "a.exe", Some("A")),
        window(2, "a.exe", Some("A")),
        window(3, "c.exe", None),
    ];
    let mut manager = UncombineManager::new();
    let change = manager.uncombine_one(2, &windows).unwrap();
    assert_eq!((change.hwnd, change.aumid.as_str()), (2, "TaskbarSwitcher_2"));
    assert!(manager.uncombine_one(2, &windows).is_none());
    assert!(manager.uncombine_one(3, &windows).is_none());
    assert!(manager.uncombine_one(9, &windows).is_none());
    assert!(!manager.is_tracked(3));
}

#[test]
fn restoring_undoes_uncombining() {
    let mut desktop = vec![
        window(1, "a.exe", Some("A")),
        window(2, "a.exe", Some("A")),
        window(3, "b.exe", None),
        window(4, "b.exe", None),
    ];
    let before: Vec<Option<String>> = desktop.iter().map(|w| w.aumid.clone()).collect();
    let mut manager = UncombineManager::new();
    for change in manager.uncombine_all(&desktop) {
        for w in desktop.iter_mut().filter(|w| w.hwnd == change.hwnd) {
            w.aumid = Some(change.aumid.clone());
        }
    }
    assert_eq!(desktop[1].aumid.as_deref(), Some("TaskbarSwitcher_2"));
    let restores = manager.restore_all();
    assert_eq!(restores.len(), 2);
    for restore in restores {
        for w in desktop.iter_mut().filter(|w| w.hwnd == restore.hwnd) {
            w.aumid = restore.aumid.clone();
        }
    }
    let after: Vec<Option<String>> = desktop.iter().map(|w| w.aumid.clone()).collect();
    assert_eq!(after, before);
    assert!(!manager.is_tracked(2));
    assert_eq!(manager.restore_all().len(), 0);
}

#[test]
fn every_window_gets_a_button_of_its_own() {
    let mut desktop = vec![
        window(1, "a.exe", Some("A")),
        window(2, "a.exe", Some("A")),
        window(3, "b.exe", None),
        window(4, "b.exe", None),
        window(5, "a.exe", Some("A")),
    ];
    let mut manager = UncombineManager::new();
    for change in manager.uncombine_all(&desktop) {
        for w in desktop.iter_mut().filter(|w| w.hwnd == change.hwnd) {
            w.aumid = Some(change.aumid.clone());
        }
    }
    let mut keys: Vec<Vec<char>> = desktop.iter().map(key_of).collect();
    keys.sort();
    keys.dedup();
    assert_eq!(keys.len(), desktop.len());
}

#[test]
fn originals_survive_a_failed_change() {
    let desktop = vec![window(1, "a.exe", None), window(2, "a.exe", None)];
    let mut manager = UncombineManager::new();
    assert_eq!(manager.uncombine_all(&desktop).len(), 1);
    assert_eq!(manager.uncombine_all(&desktop).len(), 0);
    let restores = manager.restore_all();
    assert_eq!((restores[0].hwnd, restores[0].aumid.as_deref()), (2, None));
}

fn answers() -> AumidAnswers {
    AumidAnswers {
        property: None,
        process_id: 5,
        opened: true,
        length: 4,
        read: true,
        buffer: units("App\u{0}"),
        reported: 4,
    }
}

#[test]
fn a_lookup_ends_with_the_first_aumid() {
    assert_eq!(get_aumid(answers()), Some("App".to_string()));
    let own = AumidAnswers { property: Some("Own".to_string()), ..answers() };
    assert_eq!(get_aumid(own), Some("Own".to_string()));
    let empty = AumidAnswers { property: Some(String::new()), ..answers() };
    assert_eq!(get_aumid(empty), Some("App".to_string()));
    assert_eq!(get_aumid(AumidAnswers { process_id: 0, ..answers() }), None);
    assert_eq!(get_aumid(AumidAnswers { opened: false, ..answers() }), None);
    assert_eq!(get_aumid(AumidAnswers { length: 0, ..answers() }), None);
    assert_eq!(get_aumid(AumidAnswers { read: false, ..answers() }), None);
}
