use winglide::primary_taskbar::{next_index, TaskbarEnumerator};
use winglide::switcher::{
    find_window_for_button, find_windows_for_button, get_explorer_pid, listed_title,
    match_windows_for_button, pid_in_process_list,
};
use winglide::taskbar::cycle::CycleDirection;
use winglide::types::{Rect, TaskbarButton, WindowInfo};

const EXPLORER: u32 = 4;

fn at(left: i32) -> Rect {
    Rect { left, top: 0, right: left + 10, bottom: 10 }
}

fn button(name: &str, id: Option<&str>, pid: i32) -> TaskbarButton {
    TaskbarButton {
        name: name.to_string(),
        rect: at(0),
        process_id: pid,
        automation_id: id.map(|s| s.to_string()),
    }
}

fn window(hwnd: isize, title: &str, exe: &str, aumid: Option<&str>) -> WindowInfo {
    WindowInfo {
        hwnd,
        title: title.to_string(),
        process_id: 100 + hwnd as u32,
        rect: at(-(hwnd as i32)),
        process_name: exe.to_string(),
        aumid: aumid.map(|s| s.to_string()),
    }
}

fn hwnds(windows: &[WindowInfo]) -> Vec<isize> {
    windows.iter().map(|w| w.hwnd).collect()
}

#[test]
fn only_visible_windows_with_a_title_are_listed() {
    let title: Vec<u16> = "Notepad".encode_utf16().collect();
    assert_eq!(listed_title(true, &title), Some("Notepad".to_string()));
    assert_eq!(listed_title(false, &title), None);
    assert_eq!(listed_title(true, &[]), None);
}

#[test]
fn process_comes_before_aumid() {
    let windows = vec![
        window(1, "a", "x.exe", Some("Id")),
        window(2, "b", "x.exe", None),
        window(3, "", "x.exe", Some("Id")),
    ];
    let both = button("?", Some("id"), 102);
    assert_eq!(hwnds(&match_windows_for_button(&both, &windows, EXPLORER)), vec![2]);
    assert_eq!(hwnds(&match_windows_for_button(&both, &windows, 102)), vec![1]);
    let negative = button("?", Some("id"), -5);
    assert_eq!(hwnds(&match_windows_for_button(&negative, &windows, EXPLORER)), vec![1]);
}

#[test]
fn titles_and_executables_ignore_aumids() {
    let windows = vec![
        window(1, "Chrome", "chrome.exe", Some("TaskbarSwitcher_1")),
        window(2, "New tab - Chrome", "chrome.exe", None),
        window(3, "Other", "msedge.exe", None),
    ];
    let chrome = button("Chrome - 2 running windows", Some("nothing"), 0);
    assert_eq!(hwnds(&find_windows_for_button(&chrome, &windows, EXPLORER)), vec![2, 1]);
    assert_eq!(find_window_for_button(&chrome, &windows, EXPLORER).unwrap().hwnd, 2);
    let edge = button("Edge", None, 0);
    assert_eq!(hwnds(&find_windows_for_button(&edge, &windows, EXPLORER)), vec![3]);
    let none = button("Paint", None, 0);
    assert!(find_window_for_button(&none, &windows, EXPLORER).is_none());
    assert_eq!(find_windows_for_button(&button("", None, 0), &windows, EXPLORER).len(), 0);
}

#[test]
fn the_first_line_with_a_number_counts() {
    let list = "explorer.exe\nexplorer.exe,\"x\"\n\"explorer.exe\",\"77\"";
    assert_eq!(pid_in_process_list(list), 77);
    assert_eq!(pid_in_process_list("cmd.exe,\"5\""), 0);
    assert_eq!(get_explorer_pid(Some(list.as_bytes())), 77);
    assert_eq!(get_explorer_pid(Some(b"\xff\nexplorer.exe,\"8\"")), 8);
    assert_eq!(get_explorer_pid(None), 0);
}

#[test]
fn neighbors_wrap_around() {
    assert_eq!(next_index(0, 3, CycleDirection::Forward), 1);
    assert_eq!(next_index(2, 3, CycleDirection::Forward), 0);
    assert_eq!(next_index(0, 3, CycleDirection::Backward), 2);
    assert_eq!(next_index(2, 3, CycleDirection::Backward), 1);
    for i in 0..4 {
        let there = next_index(i, 4, CycleDirection::Forward);
        assert_eq!(next_index(there, 4, CycleDirection::Backward), i);
    }
}

#[test]
fn the_active_button_by_aumid_and_by_match() {
    let buttons = vec![button("A", Some("App.A"), 0), button("B", Some(""), 0), button("C", None, 0)];
    let windows = vec![window(1, "C window", "c.exe", None), window(2, "z", "q.exe", None)];
    let find = |hwnd, aumid| {
        TaskbarEnumerator::find_active_button_index(&buttons, hwnd, aumid, &windows, EXPLORER)
    };
    assert_eq!(find(9, Some("APP.a!1")), Some(0));
    assert_eq!(find(1, Some("other")), Some(2));
    assert_eq!(find(1, None), Some(2));
    assert_eq!(find(2, None), None);
}

#[test]
fn the_neighbor_beside_the_active_button() {
    let buttons = vec![button("Alpha", None, 0), button("Beta", None, 0), button("Empty", None, 0)];
    let windows = vec![
        window(1, "Alpha", "first.exe", None),
        window(2, "Beta one", "second.exe", None),
        window(3, "Beta two", "second.exe", None),
    ];
    let e = TaskbarEnumerator::new(5).unwrap();
    let go = |source, combine, direction| {
        e.find_neighbor_window(source, None, combine, direction, &buttons, &windows, EXPLORER)
    };
    let grouped = go(1, true, CycleDirection::Forward).unwrap();
    assert_eq!((grouped.hwnd, grouped.is_grouped), (3, true));
    let single = go(1, false, CycleDirection::Forward).unwrap();
    assert_eq!((single.hwnd, single.is_grouped), (3, false));
    assert!(go(2, true, CycleDirection::Forward).is_none());
    assert_eq!(go(99, true, CycleDirection::Forward).unwrap().hwnd, 3);
    let activation = e
        .cycle_to_neighbor(1, None, true, CycleDirection::Forward, &buttons, &windows, EXPLORER)
        .unwrap();
    assert_eq!((activation.hwnd, activation.name.as_str()), (3, "Beta two"));
    assert!(e
        .cycle_to_neighbor(1, None, true, CycleDirection::Forward, &[], &windows, EXPLORER)
        .is_none());
}

#[test]
fn the_primary_taskbar_is_cached() {
    assert!(TaskbarEnumerator::new(0).is_err());
    let mut e = TaskbarEnumerator::new(5).unwrap();
    assert_eq!(e.taskbar_hwnd(), 5);
    assert!(e.enumerate_primary_buttons(Some(1), 0).is_none());
    e.store_buttons(&[button("A", None, 0)], 0);
    assert_eq!(e.enumerate_primary_buttons(Some(1), 999_999_999).unwrap().len(), 1);
    assert!(e.enumerate_primary_buttons(Some(1), 1_000_000_000).is_none());
    e.store_buttons(&[button("A", None, 0)], 0);
    assert!(e.enumerate_primary_buttons(Some(2), 1).is_none());
    e.store_buttons(&[button("A", None, 0)], 0);
    e.invalidate_cache();
    assert!(e.enumerate_primary_buttons(Some(2), 1).is_none());
}
