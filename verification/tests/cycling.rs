use winglide::taskbar::activate::{
    attached_attempt, first_attempt, second_attempt, ActivateAction, ActivateStep,
};
use winglide::taskbar::button_window::ButtonWindowMap;
use winglide::taskbar::cache::ButtonCacheState;
use winglide::taskbar::cycle::{get_next_valid_button_index, CycleDirection};
use winglide::taskbar::enumerator::{
    arrange_buttons, collect_buttons, collect_from_bridge, is_subscribers_failed, CycleError,
    Enumeration, EnumerationPhase, EnumeratorError, FailedScan, TaskbarEnumerator, TaskbarSearch, UiaItem,
};
use winglide::taskbar::explorer::{
    invalidate_explorer_pid_cache, pid_in_process_list, ExplorerPidCache,
};
use winglide::types::{Rect, TaskbarButton, WindowInfo};

const EXPLORER: u32 = 4;

fn at(left: i32) -> Rect {
    Rect { left, top: 0, right: left + 10, bottom: 10 }
}

fn button(name: &str, left: i32) -> TaskbarButton {
    TaskbarButton {
        name: name.to_string(),
        rect: at(left),
        process_id: 0,
        automation_id: Some(name.to_string()),
    }
}

fn window(hwnd: isize, aumid: &str) -> WindowInfo {
    WindowInfo {
        hwnd,
        title: format!("window {hwnd}"),
        process_id: 1000,
        rect: at(hwnd as i32),
        process_name: "app.exe".to_string(),
        aumid: Some(aumid.to_string()),
    }
}

/// Buttons A, B, C, D: A has two windows, B none, C and D one each.
fn desk() -> (Vec<TaskbarButton>, Vec<WindowInfo>) {
    (
        vec![button("aaa", 0), button("bbb", 10), button("ccc", 20), button("ddd", 30)],
        vec![window(1, "aaa"), window(2, "aaa"), window(3, "ccc"), window(4, "ddd")],
    )
}

fn enumerator() -> TaskbarEnumerator {
    TaskbarEnumerator::new(vec![7, 8]).unwrap()
}

#[test]
fn cycling_skips_buttons_without_windows() {
    let (buttons, windows) = desk();
    let map = ButtonWindowMap::new(&buttons, &windows, EXPLORER);
    assert_eq!(get_next_valid_button_index(&map, 0, CycleDirection::Forward), Some(2));
    assert_eq!(get_next_valid_button_index(&map, 2, CycleDirection::Backward), Some(0));
    assert_eq!(get_next_valid_button_index(&map, 3, CycleDirection::Forward), Some(0));
    assert_eq!(get_next_valid_button_index(&map, 0, CycleDirection::Backward), Some(3));
    let empty = ButtonWindowMap::new(&buttons, &[], EXPLORER);
    assert_eq!(get_next_valid_button_index(&empty, 0, CycleDirection::Forward), None);
}

#[test]
fn neighbor_of_the_foreground_window() {
    let (buttons, windows) = desk();
    let mut e = enumerator();
    let right = e
        .find_neighbor_window(2, true, CycleDirection::Forward, &buttons, &windows, EXPLORER)
        .unwrap();
    assert_eq!((right.hwnd, right.name.as_str(), right.is_grouped), (3, "window 3", false));
    assert_eq!(e.last_active_index, Some(0));
    let left = e
        .find_neighbor_window(3, false, CycleDirection::Backward, &buttons, &windows, EXPLORER)
        .unwrap();
    assert_eq!((left.hwnd, left.is_grouped), (1, true));
    let ungrouped = e
        .find_neighbor_window(3, true, CycleDirection::Backward, &buttons, &windows, EXPLORER)
        .unwrap();
    assert!(!ungrouped.is_grouped);
    assert_eq!(e.last_active_index, Some(2));
}

#[test]
fn unknown_source_starts_from_the_last_active_button() {
    let (buttons, windows) = desk();
    let mut e = enumerator();
    let from_first =
        e.find_neighbor_window(99, true, CycleDirection::Forward, &buttons, &windows, EXPLORER);
    assert_eq!(from_first.unwrap().hwnd, 3);
    e.last_active_index = Some(2);
    let from_last =
        e.find_neighbor_window(99, true, CycleDirection::Forward, &buttons, &windows, EXPLORER);
    assert_eq!(from_last.unwrap().hwnd, 4);
    e.last_active_index = Some(17);
    let too_far =
        e.find_neighbor_window(99, true, CycleDirection::Forward, &buttons, &windows, EXPLORER);
    assert_eq!(too_far.unwrap().hwnd, 3);
    assert_eq!(e.last_active_index, Some(17));
}

#[test]
fn cycling_there_and_back_and_around() {
    let (buttons, windows) = desk();
    let mut e = enumerator();
    let there = e
        .cycle_to_neighbor(3, true, CycleDirection::Forward, &buttons, &windows, EXPLORER)
        .unwrap();
    let back = e
        .cycle_to_neighbor(there.hwnd, true, CycleDirection::Backward, &buttons, &windows, EXPLORER)
        .unwrap();
    assert_eq!((there.hwnd, back.hwnd), (4, 3));
    let mut seen = Vec::new();
    let mut now = 1;
    for _ in 0..3 {
        now = e
            .cycle_to_neighbor(now, true, CycleDirection::Forward, &buttons, &windows, EXPLORER)
            .unwrap()
            .hwnd;
        seen.push(now);
    }
    assert_eq!(seen, vec![3, 4, 1]);
}

#[test]
fn nothing_to_cycle_to() {
    let (buttons, _) = desk();
    let mut e = enumerator();
    let no_buttons = e.cycle_to_neighbor(1, true, CycleDirection::Forward, &[], &[], EXPLORER);
    assert!(matches!(no_buttons, Err(CycleError::NoWindow)));
    let no_windows =
        e.cycle_to_neighbor(1, true, CycleDirection::Forward, &buttons, &[], EXPLORER);
    assert!(matches!(no_windows, Err(CycleError::NoWindow)));
}

#[test]
fn a_long_title_is_shortened_in_the_activation() {
    let (buttons, mut windows) = desk();
    windows[2].title = "x".repeat(40);
    let mut e = enumerator();
    let a = e
        .cycle_to_neighbor(1, true, CycleDirection::Forward, &buttons, &windows, EXPLORER)
        .unwrap();
    assert_eq!(a.name, format!("{}...", "x".repeat(30)));
}

#[test]
fn an_enumerator_needs_a_taskbar() {
    assert!(matches!(TaskbarEnumerator::new(vec![]), Err(EnumeratorError::NoTaskbar)));
    let e = enumerator();
    assert_eq!(e.taskbars, vec![7, 8]);
    assert_eq!(e.uia_thread_id, 0);
    assert_eq!(e.last_active_index, None);
}

#[test]
fn hooks_go_to_every_taskbar() {
    let mut e = enumerator();
    assert_eq!(e.install_uia_hook(55), vec![7, 8]);
    assert_eq!(e.uia_thread_id, 55);
}

#[test]
fn refresh_after_an_explorer_restart() {
    let mut e = enumerator();
    let mut pid = ExplorerPidCache::new();
    pid.get_explorer_pid(Some(b"\"explorer.exe\",\"12\""));
    e.store_buttons(&[button("a", 0)], 3, 5);
    assert_eq!(e.refresh_taskbar_hwnd(vec![], &mut pid), Err(EnumeratorError::NoTaskbar));
    assert!(e.cache.button_cache.is_some());
    assert_eq!(pid.cached(), Some(12));
    assert_eq!(e.refresh_taskbar_hwnd(vec![9], &mut pid), Ok(vec![9]));
    assert_eq!(e.taskbars, vec![9]);
    assert!(e.cache.button_cache.is_none());
    assert_eq!(pid.cached(), None);
}

#[test]
fn the_taskbar_of_the_monitor_is_read() {
    let e = enumerator();
    assert_eq!(e.target_taskbar(&[100, 200], 200), 8);
    assert_eq!(e.target_taskbar(&[100, 200], 300), 7);
    assert_eq!(e.target_taskbar(&[0, 200], 0), 7);
}

#[test]
fn cached_buttons_last_one_second() {
    let mut e = enumerator();
    assert!(e.enumerate_buttons_by_monitor(3, Some(1), 0).is_none());
    e.store_buttons(&[button("a", 0)], 3, 1_000);
    assert_eq!(e.enumerate_buttons_by_monitor(3, Some(1), 1_000_000_999).unwrap().len(), 1);
    assert!(e.enumerate_buttons_by_monitor(3, Some(1), 1_000_001_000).is_none());
}

#[test]
fn a_desktop_switch_drops_the_cache_once() {
    let mut state = ButtonCacheState::new();
    assert!(!state.desktop_changed(Some(1)));
    assert!(state.desktop_changed(Some(2)));
    assert!(!state.desktop_changed(Some(2)));
    assert!(!state.desktop_changed(None));
    let mut e = enumerator();
    e.enumerate_buttons_by_monitor(3, Some(1), 0);
    e.store_buttons(&[button("a", 0)], 3, 0);
    assert!(e.enumerate_buttons_by_monitor(3, None, 1).is_some());
    assert!(e.enumerate_buttons_by_monitor(3, Some(2), 1).is_none());
    assert!(e.cache.button_cache.is_none());
}

#[test]
fn invalidating_drops_the_buttons() {
    let mut e = enumerator();
    e.store_buttons(&[button("a", 0)], 3, 0);
    e.invalidate_cache();
    assert!(e.enumerate_buttons_by_monitor(3, None, 0).is_none());
}

fn item(name: Option<&str>, rect: Option<Rect>) -> UiaItem {
    UiaItem {
        name: name.map(|s| s.to_string()),
        rect,
        process_id: None,
        automation_id: Some("id".to_string()),
    }
}

#[test]
fn elements_without_a_place_are_left_out() {
    let mut buttons = vec![button("first", 0)];
    let items = vec![
        item(Some("x"), Some(at(9))),
        item(Some("lost"), None),
        item(None, Some(at(3))),
    ];
    collect_buttons(&items, &mut buttons);
    assert_eq!(buttons.len(), 3);
    assert_eq!((buttons[1].name.as_str(), buttons[1].process_id), ("x", 0));
    assert_eq!((buttons[2].name.as_str(), buttons[2].rect), ("", at(3)));
    let arranged = arrange_buttons(buttons);
    let lefts: Vec<i32> = arranged.iter().map(|b| b.rect.left).collect();
    assert_eq!(lefts, vec![0, 3, 9]);
}

#[test]
fn bridges_are_read_until_buttons_are_found() {
    let mut buttons = Vec::new();
    assert!(collect_from_bridge(None, &mut buttons));
    assert!(collect_from_bridge(Some(&[item(Some("x"), None)]), &mut buttons));
    assert!(!collect_from_bridge(Some(&[item(Some("x"), Some(at(0)))]), &mut buttons));
    assert_eq!(buttons.len(), 1);
}

#[test]
fn one_recovery_after_lost_subscribers() {
    let lost = vec!["outer".to_string(), "code (0x80040201)".to_string()];
    let other = vec!["access denied".to_string()];
    assert!(is_subscribers_failed(&lost));
    assert!(!is_subscribers_failed(&other));
    let mut e = Enumeration::start(7);
    assert_eq!(e.scan_failed(&other), FailedScan::GiveUp);
    assert_eq!(e.scan_failed(&lost), FailedScan::Recover);
    assert_eq!(e.recovered(&[9, 10]), 9);
    assert_eq!(e.phase, EnumerationPhase::Second);
    assert_eq!(e.scan_failed(&lost), FailedScan::GiveUp);
    let mut unchanged = Enumeration::start(7);
    assert_eq!(unchanged.recovered(&[]), 7);
}

#[test]
fn taskbars_are_searched_until_none_is_left() {
    let mut search = TaskbarSearch::start(Some(5));
    assert!(search.found_secondary(6));
    assert!(!search.found_secondary(0));
    assert_eq!(search.hwnds, vec![5, 6]);
    assert_eq!(TaskbarSearch::start(Some(0)).hwnds.len(), 0);
    assert_eq!(TaskbarSearch::start(None).hwnds.len(), 0);
}

#[test]
fn explorer_pid_from_a_process_list() {
    let list = "\"cmd.exe\",\"7\"\r\n\"explorer.exe\",\"1234\",\"Console\",\"1\",\"45,678 K\"\r\n";
    assert_eq!(pid_in_process_list(list), 1234);
    assert_eq!(pid_in_process_list("INFO: No tasks are running"), 0);
    assert_eq!(pid_in_process_list("explorer.exe\n\"explorer.exe\",\"5\""), 0);
    assert_eq!(pid_in_process_list("explorer.exe,\" 12 \""), 12);
}

#[test]
fn explorer_pid_is_cached_until_invalidated() {
    let mut cache = ExplorerPidCache::new();
    assert_eq!(cache.cached(), None);
    assert_eq!(cache.get_explorer_pid(Some("explorer.exe,\"9\",\u{e9}".as_bytes())), 9);
    assert_eq!(cache.cached(), Some(9));
    invalidate_explorer_pid_cache(&mut cache);
    assert_eq!(cache.cached(), None);
    assert_eq!(cache.get_explorer_pid(None), 0);
    assert_eq!(cache.cached(), Some(0));
    assert_eq!(cache.get_explorer_pid(Some(b"\xff explorer.exe,\"3\"")), 3);
}

#[test]
fn activation_steps() {
    assert_eq!(first_attempt(5, 5, true), ActivateStep::Done);
    assert_eq!(
        first_attempt(4, 5, true),
        ActivateStep::Perform(vec![
            ActivateAction::Restore,
            ActivateAction::AllowSetForeground,
            ActivateAction::SetForeground,
            ActivateAction::BringToTop,
        ])
    );
    assert_eq!(second_attempt(5, 5, 1, 2), ActivateStep::Done);
    assert_eq!(
        second_attempt(4, 5, 0, 2),
        ActivateStep::PerformLast(vec![ActivateAction::BringToTop, ActivateAction::SetForeground])
    );
    assert_eq!(
        second_attempt(4, 5, 2, 2),
        ActivateStep::PerformLast(vec![ActivateAction::BringToTop, ActivateAction::SetForeground])
    );
    assert_eq!(second_attempt(4, 5, 1, 2), ActivateStep::Attach(1));
    assert_eq!(
        attached_attempt(true),
        ActivateStep::PerformLast(vec![
            ActivateAction::SetForeground,
            ActivateAction::BringToTop,
            ActivateAction::Detach,
        ])
    );
    assert_eq!(
        attached_attempt(false),
        ActivateStep::PerformLast(vec![ActivateAction::SetForeground, ActivateAction::BringToTop])
    );
}

#[test]
fn the_buttons_of_another_monitor_are_read_anew() {
    let mut e = enumerator();
    e.store_buttons(&[button("a", 0)], 100, 0);
    assert!(e.enumerate_buttons_by_monitor(200, None, 1).is_none());
    assert_eq!(e.enumerate_buttons_by_monitor(100, None, 1).unwrap().len(), 1);
    e.store_buttons(&[button("b", 0), button("c", 10)], 200, 2);
    assert_eq!(e.enumerate_buttons_by_monitor(200, None, 3).unwrap().len(), 2);
    assert!(e.enumerate_buttons_by_monitor(100, None, 3).is_none());
}
