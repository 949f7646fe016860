use winglide::taskbar::button_window::{
    aumid_texts_compatible, aumid_texts_match, finalize_matches, implicit_exe_name,
    is_aumid_compatible, match_by_aumid, match_by_implicit_aumid_exe, match_by_pid,
    match_by_process_name, match_by_title, match_windows_for_button, process_texts_match,
    title_matches, ButtonWindowMap,
};
use winglide::taskbar::order::sort;
use winglide::types::{Rect, TaskbarButton, WindowInfo};

fn at(left: i32) -> Rect {
    Rect { left, top: 0, right: left + 10, bottom: 10 }
}

fn button(name: &str, id: Option<&str>, pid: i32) -> TaskbarButton {
    TaskbarButton {
        name: name.to_string(),
        rect: at(0),
        process_id: pid,
        automation_id: id.map(|s| s.to_string()),
    }
}

fn window(hwnd: isize, title: &str, exe: &str, aumid: Option<&str>) -> WindowInfo {
    WindowInfo {
        hwnd,
        title: title.to_string(),
        process_id: 100 + hwnd as u32,
        rect: at(0),
        process_name: exe.to_string(),
        aumid: aumid.map(|s| s.to_string()),
    }
}

fn hwnds(windows: &[WindowInfo]) -> Vec<isize> {
    windows.iter().map(|w| w.hwnd).collect()
}

const EXPLORER: u32 = 4;

#[test]
fn aumids_match_as_prefix_or_inside() {
    assert!(aumid_texts_match("app.main", "app.main"));
    assert!(aumid_texts_match("app.main!x", "app.main"));
    assert!(aumid_texts_match("main", "app.main"));
    assert!(!aumid_texts_match("my.app.main", "app.main"));
}

#[test]
fn aumids_are_compatible_when_one_holds_the_other() {
    assert!(aumid_texts_compatible("my.app.main", "app.main"));
    assert!(aumid_texts_compatible("main", "app.main"));
    assert!(!aumid_texts_compatible("taskbarswitcher_1", "chrome"));
}

#[test]
fn implicit_executables() {
    assert_eq!(implicit_exe_name("{guid}\\dir\\tool.exe"), Some("tool.exe".to_string()));
    assert_eq!(implicit_exe_name("tool.exe"), None);
    assert_eq!(implicit_exe_name("{guid}\\tool"), None);
}

#[test]
fn executable_names_match_by_stem() {
    assert!(process_texts_match("msedge.exe", "edge"));
    assert!(process_texts_match("code.exe", "vs code"));
    assert!(!process_texts_match(".exe", "x"));
    assert!(!process_texts_match("firefox.exe", "edge"));
    assert!(process_texts_match("edge", "edge"));
}

#[test]
fn titles_match_either_way() {
    assert!(title_matches("Readme - Notepad", "Notepad"));
    assert!(title_matches("Notepad", "Notepad window"));
    assert!(!title_matches("", "Notepad"));
    assert!(!title_matches("Paint", "Notepad"));
}

#[test]
fn windows_sort_by_left_edge_and_handle() {
    let mut a = window(5, "a", "", None);
    let mut b = window(3, "b", "", None);
    let mut c = window(-1, "c", "", None);
    a.rect = at(10);
    b.rect = at(20);
    c.rect = at(10);
    let sorted = sort(vec![b.clone(), c.clone(), a.clone()]);
    assert_eq!(hwnds(&sorted), vec![5, -1, 3]);
    assert_eq!(hwnds(&sort(sorted)), vec![5, -1, 3]);
    assert!(finalize_matches(vec![]).is_none());
    assert_eq!(hwnds(&finalize_matches(vec![b, a]).unwrap()), vec![5, 3]);
}

#[test]
fn buttons_sort_stably() {
    let mut a = button("a", None, 0);
    let mut b = button("b", None, 0);
    let mut c = button("c", None, 0);
    a.rect = at(5);
    b.rect = at(5);
    c.rect = at(1);
    let names: Vec<String> = sort(vec![a, b, c]).into_iter().map(|x| x.name).collect();
    assert_eq!(names, vec!["c", "a", "b"]);
}

#[test]
fn compatibility_of_window_and_button() {
    let b = button("Chrome", Some("Chrome"), 0);
    assert!(is_aumid_compatible(&window(1, "x", "", None), &b));
    assert!(is_aumid_compatible(&window(1, "x", "", Some("CHROME.app")), &b));
    assert!(!is_aumid_compatible(&window(1, "x", "", Some("TaskbarSwitcher_1")), &b));
    let no_id = button("Chrome", None, 0);
    assert!(!is_aumid_compatible(&window(1, "x", "", Some("Chrome")), &no_id));
    assert!(is_aumid_compatible(&window(1, "x", "", None), &no_id));
}

#[test]
fn strategies_find_their_windows() {
    let windows = vec![
        window(1, "Inbox", "mail.exe", Some("Mail.App")),
        window(2, "Doc - Writer", "writer.exe", None),
        window(3, "", "ghost.exe", None),
    ];
    let by_id = button("?", Some("MAIL.app"), 0);
    assert_eq!(hwnds(&match_by_aumid(&windows, &by_id).unwrap()), vec![1]);
    assert!(match_by_aumid(&windows, &button("?", Some(""), 0)).is_none());
    assert!(match_by_aumid(&windows, &button("?", None, 0)).is_none());
    let by_process = button("?", None, 102);
    assert_eq!(hwnds(&match_by_pid(&windows, &by_process, EXPLORER).unwrap()), vec![2]);
    assert!(match_by_pid(&windows, &by_process, 102).is_none());
    assert!(match_by_pid(&windows, &button("?", None, 0), EXPLORER).is_none());
    assert!(match_by_pid(&windows, &button("?", None, 103), EXPLORER).is_none());
    let by_exe = button("?", Some("{G}\\Writer.EXE"), 0);
    assert_eq!(hwnds(&match_by_implicit_aumid_exe(&windows, &by_exe).unwrap()), vec![2]);
    let plain = button("Writer", None, 0);
    assert_eq!(hwnds(&match_by_title(&windows, &plain, "Writer").unwrap()), vec![2]);
    assert_eq!(hwnds(&match_by_process_name(&windows, &plain, "Ghost").unwrap()), vec![3]);
    assert!(match_by_title(&windows, &plain, "Nothing").is_none());
}

#[test]
fn strategies_are_tried_in_order() {
    let mut first = window(1, "Writer", "a.exe", Some("Writer.Id"));
    first.process_id = 50;
    let mut second = window(2, "Writer", "b.exe", None);
    second.process_id = 60;
    let windows = vec![first, second];
    let both = button("Writer", Some("Writer.Id"), 60);
    assert_eq!(hwnds(&match_windows_for_button(&windows, &both, EXPLORER)), vec![1]);
    let pid_only = button("Writer", None, 60);
    assert_eq!(hwnds(&match_windows_for_button(&windows, &pid_only, EXPLORER)), vec![2]);
    let title_only = button("Writer - 2 running windows", None, 0);
    assert_eq!(hwnds(&match_windows_for_button(&windows, &title_only, EXPLORER)), vec![2]);
    let nothing = button("", None, 0);
    assert_eq!(match_windows_for_button(&windows, &nothing, EXPLORER).len(), 0);
}

#[test]
fn a_window_with_a_foreign_aumid_is_not_stolen() {
    let windows = vec![
        window(1, "Chrome", "chrome.exe", Some("TaskbarSwitcher_1")),
        window(2, "Chrome", "chrome.exe", None),
    ];
    let chrome = button("Chrome", Some("Chrome"), 0);
    assert_eq!(hwnds(&match_windows_for_button(&windows, &chrome, EXPLORER)), vec![2]);
}

#[test]
fn each_window_belongs_to_one_button() {
    let windows = vec![
        window(1, "Chrome", "chrome.exe", None),
        window(2, "Chrome Beta", "chrome.exe", None),
    ];
    let buttons = vec![button("Chrome", None, 0), button("Chrome", None, 0), button("X", None, 0)];
    let map = ButtonWindowMap::new(&buttons, &windows, EXPLORER);
    assert_eq!(map.len(), 3);
    assert_eq!(hwnds(&map.find_windows_by_button(0)), vec![1, 2]);
    assert_eq!(map.find_windows_by_button(1).len(), 0);
    assert!(map.find_window_by_button(1).is_none());
    assert_eq!(map.find_window_by_button(0).unwrap().hwnd, 1);
    assert_eq!(map.find_button_index_by_hwnd(2), Some(0));
    assert_eq!(map.find_button_index_by_hwnd(9), None);
}

#[test]
fn matching_ignores_case_beyond_ascii() {
    let windows = vec![window(1, "t", "x.exe", Some("\u{c9}DITEUR"))];
    let b = button("?", Some("\u{e9}diteur"), 0);
    assert_eq!(hwnds(&match_windows_for_button(&windows, &b, EXPLORER)), vec![1]);
}

#[test]
fn the_windows_of_a_button_stand_from_left_to_right() {
    let mut windows: Vec<WindowInfo> =
        (1..=4).map(|i| window(i, "Editor", "editor.exe", None)).collect();
    for (w, left) in windows.iter_mut().zip([30, 10, 40, 10]) {
        w.rect = at(left);
    }
    let buttons = vec![button("Editor - 4 running windows", None, 0)];
    let map = ButtonWindowMap::new(&buttons, &windows, EXPLORER);
    assert_eq!(hwnds(&map.find_windows_by_button(0)), vec![2, 4, 1, 3]);
}
