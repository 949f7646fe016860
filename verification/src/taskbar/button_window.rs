//! Maps taskbar buttons to windows through multiple strategies: AUMID, PID, title, process name.

use std::collections::HashSet;

use vstd::prelude::*;
use vstd::string::*;

use super::order;
use super::order::sort;
use crate::lists;
use crate::text;
use crate::text::{
    chars_of, contains_chars, find_last, str_contains, str_ends_with, str_starts_with, text_eq,
    to_lowercase,
};
use crate::types::{clone_windows, TaskbarButton, WindowInfo};
use crate::utils;
use crate::utils::clean_button_name;

verus! {

broadcast use vstd::std_specs::hash::group_hash_axioms;

/// Two lower-case AUMIDs match where the window's begins with the button's or stands inside it.
pub open spec fn aumids_match(window: Seq<char>, button: Seq<char>) -> bool {
    ||| window == button
    ||| text::starts_with_text(window, button)
    ||| text::contains_text(button, window)
}

/// Whether the lower-case AUMID of a window matches the lower-case automation ID of a button.
pub fn aumid_texts_match(window: &str, button: &str) -> (found: bool)
    ensures
        found == aumids_match(window@, button@),
{
    text_eq(window, button) || str_starts_with(window, button) || str_contains(button, window)
}

/// Two lower-case AUMIDs are compatible where one stands inside the other.
pub open spec fn aumids_compatible(window: Seq<char>, button: Seq<char>) -> bool {
    ||| window == button
    ||| text::contains_text(button, window)
    ||| text::contains_text(window, button)
}

/// Whether the lower-case AUMID of a window and the lower-case automation ID of a button are
/// compatible.
pub fn aumid_texts_compatible(window: &str, button: &str) -> (compatible: bool)
    ensures
        compatible == aumids_compatible(window@, button@),
{
    text_eq(window, button) || str_contains(button, window) || str_contains(window, button)
}

/// The executable that a lower-case AUMID names, where it is the path of one.
pub open spec fn implicit_exe(aumid: Seq<char>) -> Option<Seq<char>> {
    if text::ends_with_text(aumid, ".exe"@) {
        match text::last_occurrence(aumid, "\\"@) {
            Some(idx) => Some(aumid.skip(idx + 1)),
            None => None,
        }
    } else {
        None
    }
}

/// Extracts the `.exe` name from the lower-case AUMID that Windows generates for legacy apps.
pub fn implicit_exe_name(aumid: &str) -> (exe: Option<String>)
    ensures
        exe matches Some(name) ==> implicit_exe(aumid@) == Some(name@),
        exe is None ==> implicit_exe(aumid@) is None,
{
    if !str_ends_with(aumid, ".exe") {
        return None;
    }
    let chars = chars_of(aumid);
    let backslash = chars_of("\\");
    proof {
        text::lemma_last_occurrence(aumid@, "\\"@);
        reveal_strlit("\\");
    }
    match find_last(&chars, &backslash) {
        Some(idx) => {
            let len = aumid.unicode_len();
            let name = aumid.substring_char(idx + 1, len).to_owned();
            assert(name@ == aumid@.skip(idx as int + 1));
            Some(name)
        },
        None => None,
    }
}

/// A file name without the ending `.exe`.
pub open spec fn exe_stem(file: Seq<char>) -> Seq<char> {
    if text::ends_with_text(file, ".exe"@) {
        file.take(file.len() - 4)
    } else {
        file
    }
}

/// A lower-case executable name and a lower-case button name match where the stem is not empty
/// and one stands inside the other.
pub open spec fn process_names_match(process: Seq<char>, button: Seq<char>) -> bool {
    let stem = exe_stem(process);
    &&& stem.len() > 0
    &&& text::contains_text(stem, button) || text::contains_text(button, stem)
}

/// Whether the lower-case executable name of a window matches a lower-case button name.
pub fn process_texts_match(process: &str, button: &str) -> (found: bool)
    ensures
        found == process_names_match(process@, button@),
{
    proof {
        reveal_strlit(".exe");
    }
    let stem = if str_ends_with(process, ".exe") {
        process.substring_char(0, process.unicode_len() - 4)
    } else {
        process
    };
    assert(stem@ == exe_stem(process@));
    !stem.is_empty() && (str_contains(stem, button) || str_contains(button, stem))
}

/// A window title and a cleaned button name match where the cleaned title is not empty and one
/// stands inside the other.
pub open spec fn titles_match(title: Seq<char>, button: Seq<char>) -> bool {
    let cleaned = utils::cleaned_name(title);
    &&& cleaned.len() > 0
    &&& text::contains_text(cleaned, button) || text::contains_text(button, cleaned)
}

/// Whether a window title matches a cleaned button name.
pub fn title_matches(title: &str, button: &str) -> (found: bool)
    ensures
        found == titles_match(title@, button@),
{
    let cleaned = clean_button_name(title);
    !cleaned.as_str().is_empty() && (str_contains(cleaned.as_str(), button) || str_contains(
        button,
        cleaned.as_str(),
    ))
}

/// The AUMID of the window matches the lower-case automation ID `id`.
pub open spec fn matches_aumid(w: WindowInfo, id: Seq<char>) -> bool {
    w.aumid matches Some(aumid) && aumids_match(text::lowercase(aumid@), id)
}

/// The window has no AUMID of its own, or one that is compatible with the button's.
pub open spec fn compatible(w: WindowInfo, button: TaskbarButton) -> bool {
    w.aumid matches Some(win) ==> (button.automation_id matches Some(id) && aumids_compatible(
        text::lowercase(win@),
        text::lowercase(id@),
    ))
}

/// The window belongs to the process `pid` and has a title.
pub open spec fn matches_pid(w: WindowInfo, pid: u32) -> bool {
    w.process_id == pid && w.title@.len() > 0
}

/// The window runs the executable `exe`, which its AUMID does not contradict.
pub open spec fn matches_exe(w: WindowInfo, button: TaskbarButton, exe: Seq<char>) -> bool {
    compatible(w, button) && text::lowercase(w.process_name@) == exe
}

/// The title of the window matches, which its AUMID does not contradict.
pub open spec fn matches_title(w: WindowInfo, button: TaskbarButton, name: Seq<char>) -> bool {
    w.title@.len() > 0 && compatible(w, button) && titles_match(w.title@, name)
}

/// The executable name of the window matches, which its AUMID does not contradict.
pub open spec fn matches_process(w: WindowInfo, button: TaskbarButton, name: Seq<char>) -> bool {
    w.process_name@.len() > 0 && compatible(w, button) && process_names_match(
        text::lowercase(w.process_name@),
        text::lowercase(name),
    )
}

/// Matched windows left to right, where there are any.
pub open spec fn finalized(matches: Seq<WindowInfo>) -> Option<Seq<WindowInfo>> {
    if matches.len() == 0 {
        None
    } else {
        Some(order::in_order(matches))
    }
}

/// Windows whose AUMID matches the automation ID of the button.
pub open spec fn by_aumid(
    windows: Seq<WindowInfo>,
    button: TaskbarButton,
) -> Option<Seq<WindowInfo>> {
    match button.automation_id {
        Some(id) => if id@.len() == 0 {
            None
        } else {
            finalized(windows.filter(|w: WindowInfo| matches_aumid(w, text::lowercase(id@))))
        },
        None => None,
    }
}

/// Windows of the button's process, where that is an app and not the explorer.
pub open spec fn by_pid(
    windows: Seq<WindowInfo>,
    button: TaskbarButton,
    explorer_pid: u32,
) -> Option<Seq<WindowInfo>> {
    if button.process_id == 0 || button.process_id == explorer_pid as i32 {
        None
    } else {
        finalized(windows.filter(|w: WindowInfo| matches_pid(w, button.process_id as u32)))
    }
}

/// Windows of the executable that the automation ID of the button names.
pub open spec fn by_implicit_exe(
    windows: Seq<WindowInfo>,
    button: TaskbarButton,
) -> Option<Seq<WindowInfo>> {
    match button.automation_id {
        Some(id) => match implicit_exe(text::lowercase(id@)) {
            Some(exe) => finalized(windows.filter(|w: WindowInfo| matches_exe(w, button, exe))),
            None => None,
        },
        None => None,
    }
}

/// Windows whose title matches the cleaned button name.
pub open spec fn by_title(
    windows: Seq<WindowInfo>,
    button: TaskbarButton,
    name: Seq<char>,
) -> Option<Seq<WindowInfo>> {
    finalized(windows.filter(|w: WindowInfo| matches_title(w, button, name)))
}

/// Windows whose executable name matches the cleaned button name.
pub open spec fn by_process(
    windows: Seq<WindowInfo>,
    button: TaskbarButton,
    name: Seq<char>,
) -> Option<Seq<WindowInfo>> {
    finalized(windows.filter(|w: WindowInfo| matches_process(w, button, name)))
}

/// The windows of a button: those of the first strategy that finds any.
pub open spec fn matching(
    windows: Seq<WindowInfo>,
    button: TaskbarButton,
    explorer_pid: u32,
) -> Seq<WindowInfo> {
    let name = utils::cleaned_name(button.name@);
    match by_aumid(windows, button) {
        Some(found) => found,
        None => match by_pid(windows, button, explorer_pid) {
            Some(found) => found,
            None => match by_implicit_exe(windows, button) {
                Some(found) => found,
                None => if name.len() == 0 {
                    Seq::empty()
                } else {
                    match by_title(windows, button, name) {
                        Some(found) => found,
                        None => match by_process(windows, button, name) {
                            Some(found) => found,
                            None => Seq::empty(),
                        },
                    }
                },
            },
        },
    }
}

/// Sorts matched windows left-to-right, by handle where they start at the same place.
///
/// Returns `None` where there are none.
pub fn finalize_matches(matches: Vec<WindowInfo>) -> (found: Option<Vec<WindowInfo>>)
    ensures
        found matches Some(f) ==> finalized(matches@) == Some(f@),
        found is None ==> finalized(matches@) is None,
{
    if matches.len() == 0 {
        None
    } else {
        Some(sort(matches))
    }
}

/// Checks if a window's explicit AUMID is compatible with the button's AUMID.
///
/// Used to prevent stealing windows that have been assigned a different custom AUMID.
pub fn is_aumid_compatible(w: &WindowInfo, button: &TaskbarButton) -> (ok: bool)
    ensures
        ok == compatible(*w, *button),
{
    match &w.aumid {
        Some(win) => match &button.automation_id {
            Some(id) => {
                let w_lower = to_lowercase(win.as_str());
                let b_lower = to_lowercase(id.as_str());
                aumid_texts_compatible(w_lower.as_str(), b_lower.as_str())
            },
            None => false,
        },
        None => true,
    }
}

/// Strategy 1: matches the automation ID of the button with the window's AUMID.
pub fn match_by_aumid(windows: &[WindowInfo], button: &TaskbarButton) -> (found: Option<
    Vec<WindowInfo>,
>)
    ensures
        found matches Some(f) ==> by_aumid(windows@, *button) == Some(f@),
        found is None ==> by_aumid(windows@, *button) is None,
{
    match &button.automation_id {
        Some(id) => {
            if id.as_str().is_empty() {
                return None;
            }
            let id_lower = to_lowercase(id.as_str());
            let ghost pred = |w: WindowInfo| matches_aumid(w, text::lowercase(id@));
            let mut matches: Vec<WindowInfo> = Vec::new();
            for i in 0..windows.len()
                invariant
                    id_lower@ == text::lowercase(id@),
                    pred == (|w: WindowInfo| matches_aumid(w, text::lowercase(id@))),
                    matches@ == windows@.take(i as int).filter(pred),
            {
                proof {
                    lists::lemma_filter_step(windows@, i as int, pred);
                }
                if let Some(aumid) = &windows[i].aumid {
                    let lower = to_lowercase(aumid.as_str());
                    if aumid_texts_match(lower.as_str(), id_lower.as_str()) {
                        matches.push(windows[i].clone());
                    }
                }
            }
            assert(windows@.take(windows@.len() as int) == windows@);
            finalize_matches(matches)
        },
        None => None,
    }
}

/// Strategy 2: matches the process ID, if the button does not belong to explorer.exe.
pub fn match_by_pid(
    windows: &[WindowInfo],
    button: &TaskbarButton,
    explorer_pid: u32,
) -> (found: Option<Vec<WindowInfo>>)
    ensures
        found matches Some(f) ==> by_pid(windows@, *button, explorer_pid) == Some(f@),
        found is None ==> by_pid(windows@, *button, explorer_pid) is None,
{
    if button.process_id == 0 || button.process_id == explorer_pid as i32 {
        return None;
    }
    let pid: u32 = button.process_id as u32;
    let ghost pred = |w: WindowInfo| matches_pid(w, button.process_id as u32);
    let mut matches: Vec<WindowInfo> = Vec::new();
    for i in 0..windows.len()
        invariant
            pid == button.process_id as u32,
            pred == (|w: WindowInfo| matches_pid(w, button.process_id as u32)),
            matches@ == windows@.take(i as int).filter(pred),
    {
        proof {
            lists::lemma_filter_step(windows@, i as int, pred);
        }
        if windows[i].process_id == pid && !windows[i].title.as_str().is_empty() {
            matches.push(windows[i].clone());
        }
    }
    assert(windows@.take(windows@.len() as int) == windows@);
    finalize_matches(matches)
}

/// Strategy 3: matches the executable that the button's AUMID names, for legacy apps.
pub fn match_by_implicit_aumid_exe(
    windows: &[WindowInfo],
    button: &TaskbarButton,
) -> (found: Option<Vec<WindowInfo>>)
    ensures
        found matches Some(f) ==> by_implicit_exe(windows@, *button) == Some(f@),
        found is None ==> by_implicit_exe(windows@, *button) is None,
{
    match &button.automation_id {
        Some(id) => {
            let id_lower = to_lowercase(id.as_str());
            match implicit_exe_name(id_lower.as_str()) {
                Some(exe) => {
                    let ghost pred = |w: WindowInfo| matches_exe(w, *button, exe@);
                    let mut matches: Vec<WindowInfo> = Vec::new();
                    for i in 0..windows.len()
                        invariant
                            pred == (|w: WindowInfo| matches_exe(w, *button, exe@)),
                            matches@ == windows@.take(i as int).filter(pred),
                    {
                        proof {
                            lists::lemma_filter_step(windows@, i as int, pred);
                        }
                        if is_aumid_compatible(&windows[i], button) {
                            let lower = to_lowercase(windows[i].process_name.as_str());
                            if text_eq(lower.as_str(), exe.as_str()) {
                                matches.push(windows[i].clone());
                            }
                        }
                    }
                    assert(windows@.take(windows@.len() as int) == windows@);
                    finalize_matches(matches)
                },
                None => None,
            }
        },
        None => None,
    }
}

/// Strategy 4: cross-checks the cleaned button name against the window's title.
pub fn match_by_title(
    windows: &[WindowInfo],
    button: &TaskbarButton,
    clean_name: &str,
) -> (found: Option<Vec<WindowInfo>>)
    ensures
        found matches Some(f) ==> by_title(windows@, *button, clean_name@) == Some(f@),
        found is None ==> by_title(windows@, *button, clean_name@) is None,
{
    let ghost pred = |w: WindowInfo| matches_title(w, *button, clean_name@);
    let mut matches: Vec<WindowInfo> = Vec::new();
    for i in 0..windows.len()
        invariant
            pred == (|w: WindowInfo| matches_title(w, *button, clean_name@)),
            matches@ == windows@.take(i as int).filter(pred),
    {
        proof {
            lists::lemma_filter_step(windows@, i as int, pred);
        }
        if !windows[i].title.as_str().is_empty() && is_aumid_compatible(&windows[i], button)
            && title_matches(windows[i].title.as_str(), clean_name) {
            matches.push(windows[i].clone());
        }
    }
    assert(windows@.take(windows@.len() as int) == windows@);
    finalize_matches(matches)
}

/// Strategy 5: cross-checks the cleaned button name against the window's process name.
pub fn match_by_process_name(
    windows: &[WindowInfo],
    button: &TaskbarButton,
    clean_name: &str,
) -> (found: Option<Vec<WindowInfo>>)
    ensures
        found matches Some(f) ==> by_process(windows@, *button, clean_name@) == Some(f@),
        found is None ==> by_process(windows@, *button, clean_name@) is None,
{
    let name_lower = to_lowercase(clean_name);
    let ghost pred = |w: WindowInfo| matches_process(w, *button, clean_name@);
    let mut matches: Vec<WindowInfo> = Vec::new();
    for i in 0..windows.len()
        invariant
            name_lower@ == text::lowercase(clean_name@),
            pred == (|w: WindowInfo| matches_process(w, *button, clean_name@)),
            matches@ == windows@.take(i as int).filter(pred),
    {
        proof {
            lists::lemma_filter_step(windows@, i as int, pred);
        }
        if !windows[i].process_name.as_str().is_empty() && is_aumid_compatible(
            &windows[i],
            button,
        ) {
            let lower = to_lowercase(windows[i].process_name.as_str());
            if process_texts_match(lower.as_str(), name_lower.as_str()) {
                matches.push(windows[i].clone());
            }
        }
    }
    assert(windows@.take(windows@.len() as int) == windows@);
    finalize_matches(matches)
}

/// Core matching logic: maps a button to its window(s) through five strategies, in this order.
///
/// 1. **AppUserModelID** - matches the automation ID with the window's AUMID
/// 2. **PID** - if the button's process is a real app (not explorer)
/// 3. **Implicit AUMID EXE** - matches the executable that the automation ID names
/// 4. **Title** - fuzzy match after `clean_button_name`
/// 5. **Process name** - matches the executable file name with the button name
pub fn match_windows_for_button(
    windows: &[WindowInfo],
    button: &TaskbarButton,
    explorer_pid: u32,
) -> (found: Vec<WindowInfo>)
    ensures
        found@ == matching(windows@, *button, explorer_pid),
{
    if let Some(found) = match_by_aumid(windows, button) {
        return found;
    }
    if let Some(found) = match_by_pid(windows, button, explorer_pid) {
        return found;
    }
    if let Some(found) = match_by_implicit_aumid_exe(windows, button) {
        return found;
    }
    let name = clean_button_name(button.name.as_str());
    if name.as_str().is_empty() {
        return Vec::new();
    }
    if let Some(found) = match_by_title(windows, button, name.as_str()) {
        return found;
    }
    if let Some(found) = match_by_process_name(windows, button, name.as_str()) {
        return found;
    }
    Vec::new()
}

/// One of the windows has the handle `hwnd`.
pub open spec fn holds(windows: Seq<WindowInfo>, hwnd: isize) -> bool {
    exists|i: int| 0 <= i < windows.len() && #[trigger] windows[i].hwnd == hwnd
}

/// One of the lists has a window with the handle `hwnd`.
pub open spec fn any_holds(assigned: Seq<Seq<WindowInfo>>, hwnd: isize) -> bool {
    exists|b: int| 0 <= b < assigned.len() && #[trigger] holds(assigned[b], hwnd)
}

/// The first button from `b` on that has the window `hwnd`.
pub open spec fn holder(assigned: Seq<Seq<WindowInfo>>, hwnd: isize, b: int) -> Option<int>
    decreases assigned.len() - b,
{
    if b >= assigned.len() {
        None
    } else if holds(assigned[b], hwnd) {
        Some(b)
    } else {
        holder(assigned, hwnd, b + 1)
    }
}

proof fn lemma_holder(assigned: Seq<Seq<WindowInfo>>, hwnd: isize, b: int)
    requires
        0 <= b,
    ensures
        holder(assigned, hwnd, b) matches Some(h) ==> {
            &&& b <= h < assigned.len()
            &&& holds(assigned[h], hwnd)
        },
        holder(assigned, hwnd, b) is None ==> forall|a: int|
            b <= a < assigned.len() ==> !#[trigger] holds(assigned[a], hwnd),
    decreases assigned.len() - b,
{
    if b < assigned.len() && !holds(assigned[b], hwnd) {
        lemma_holder(assigned, hwnd, b + 1);
    }
}

/// The button found for a window is the only one that has the window, and one is found whenever
/// a button has it.
pub proof fn law_holder_is_the_button(
    buttons: Seq<TaskbarButton>,
    windows: Seq<WindowInfo>,
    explorer_pid: u32,
    hwnd: isize,
    b: int,
)
    requires
        0 <= b < buttons.len(),
    ensures
        holder(assignment(buttons, windows, explorer_pid), hwnd, 0) == Some(b) <==> holds(
            assignment(buttons, windows, explorer_pid)[b],
            hwnd,
        ),
{
    let all = assignment(buttons, windows, explorer_pid);
    lemma_assignment_prefix(buttons, windows, explorer_pid, 0);
    lemma_holder(all, hwnd, 0);
    law_window_has_one_button(buttons, windows, explorer_pid);
    if holds(all[b], hwnd) {
        if let Some(h) = holder(all, hwnd, 0) {
            assert(holds(all[h], hwnd));
        }
    }
}

/// The candidates that no earlier button has taken, each handle once.
pub open spec fn still_free(
    candidates: Seq<WindowInfo>,
    assigned: Seq<Seq<WindowInfo>>,
) -> Seq<WindowInfo>
    decreases candidates.len(),
{
    if candidates.len() == 0 {
        candidates
    } else {
        let before = still_free(candidates.drop_last(), assigned);
        let w = candidates.last();
        if any_holds(assigned, w.hwnd) || holds(before, w.hwnd) {
            before
        } else {
            before.push(w)
        }
    }
}

/// The windows of each button: its matches that no button further left has taken.
pub open spec fn assignment(
    buttons: Seq<TaskbarButton>,
    windows: Seq<WindowInfo>,
    explorer_pid: u32,
) -> Seq<Seq<WindowInfo>>
    decreases buttons.len(),
{
    if buttons.len() == 0 {
        Seq::empty()
    } else {
        let before = assignment(buttons.drop_last(), windows, explorer_pid);
        before.push(still_free(matching(windows, buttons.last(), explorer_pid), before))
    }
}

/// A matched window is one of the visible ones, and either its AUMID does not contradict the
/// button's or it belongs to the button's process: a window with a foreign AUMID is not taken by
/// its title or its executable.
pub proof fn law_matched_windows_fit(
    windows: Seq<WindowInfo>,
    button: TaskbarButton,
    explorer_pid: u32,
    w: WindowInfo,
)
    requires
        matching(windows, button, explorer_pid).contains(w),
    ensures
        windows.contains(w),
        compatible(w, button) || w.process_id == button.process_id as u32,
{
    let name = utils::cleaned_name(button.name@);
    if by_aumid(windows, button) is Some {
        let id = button.automation_id->0@;
        let pred = |w: WindowInfo| matches_aumid(w, text::lowercase(id));
        order::lemma_sort_members(windows.filter(pred));
        lists::lemma_filter_members(windows, pred);
        assert(windows.filter(pred).contains(w));
    } else if by_pid(windows, button, explorer_pid) is Some {
        let pred = |w: WindowInfo| matches_pid(w, button.process_id as u32);
        order::lemma_sort_members(windows.filter(pred));
        lists::lemma_filter_members(windows, pred);
        assert(windows.filter(pred).contains(w));
    } else if by_implicit_exe(windows, button) is Some {
        let exe = implicit_exe(text::lowercase(button.automation_id->0@))->0;
        let pred = |w: WindowInfo| matches_exe(w, button, exe);
        order::lemma_sort_members(windows.filter(pred));
        lists::lemma_filter_members(windows, pred);
        assert(windows.filter(pred).contains(w));
    } else if by_title(windows, button, name) is Some {
        let pred = |w: WindowInfo| matches_title(w, button, name);
        order::lemma_sort_members(windows.filter(pred));
        lists::lemma_filter_members(windows, pred);
        assert(windows.filter(pred).contains(w));
    } else {
        let pred = |w: WindowInfo| matches_process(w, button, name);
        order::lemma_sort_members(windows.filter(pred));
        lists::lemma_filter_members(windows, pred);
        assert(windows.filter(pred).contains(w));
    }
}

/// The windows of a list of lists.
pub open spec fn list_views(lists: Seq<Vec<WindowInfo>>) -> Seq<Seq<WindowInfo>> {
    lists.map_values(|v: Vec<WindowInfo>| v@)
}

proof fn lemma_holds_push(windows: Seq<WindowInfo>, w: WindowInfo, hwnd: isize)
    ensures
        holds(windows.push(w), hwnd) == (holds(windows, hwnd) || w.hwnd == hwnd),
{
    let longer = windows.push(w);
    if holds(longer, hwnd) {
        let i = choose|i: int| 0 <= i < longer.len() && #[trigger] longer[i].hwnd == hwnd;
        if i < windows.len() {
            assert(windows[i].hwnd == hwnd);
        }
    }
    if holds(windows, hwnd) {
        let i = choose|i: int| 0 <= i < windows.len() && #[trigger] windows[i].hwnd == hwnd;
        assert(longer[i].hwnd == hwnd);
    }
    if w.hwnd == hwnd {
        assert(longer[windows.len() as int].hwnd == hwnd);
    }
}

proof fn lemma_any_holds_push(
    assigned: Seq<Seq<WindowInfo>>,
    windows: Seq<WindowInfo>,
    hwnd: isize,
)
    ensures
        any_holds(assigned.push(windows), hwnd) == (any_holds(assigned, hwnd) || holds(
            windows,
            hwnd,
        )),
{
    let longer = assigned.push(windows);
    if any_holds(longer, hwnd) {
        let b = choose|b: int| 0 <= b < longer.len() && #[trigger] holds(longer[b], hwnd);
        if b < assigned.len() {
            assert(holds(assigned[b], hwnd));
        }
    }
    if any_holds(assigned, hwnd) {
        let b = choose|b: int| 0 <= b < assigned.len() && #[trigger] holds(assigned[b], hwnd);
        assert(holds(longer[b], hwnd));
    }
    if holds(windows, hwnd) {
        assert(holds(longer[assigned.len() as int], hwnd));
    }
}

proof fn lemma_still_free(candidates: Seq<WindowInfo>, assigned: Seq<Seq<WindowInfo>>)
    ensures
        forall|i: int|
            0 <= i < still_free(candidates, assigned).len() ==> {
                &&& candidates.contains(#[trigger] still_free(candidates, assigned)[i])
                &&& !any_holds(assigned, still_free(candidates, assigned)[i].hwnd)
            },
        forall|i: int, j: int|
            0 <= i < j < still_free(candidates, assigned).len() ==> (#[trigger] still_free(
                candidates,
                assigned,
            )[i]).hwnd != (#[trigger] still_free(candidates, assigned)[j]).hwnd,
        forall|hwnd: isize|
            holds(candidates, hwnd) && !any_holds(assigned, hwnd) <==> #[trigger] holds(
                still_free(candidates, assigned),
                hwnd,
            ),
    decreases candidates.len(),
{
    let free = still_free(candidates, assigned);
    if candidates.len() > 0 {
        let rest = candidates.drop_last();
        let before = still_free(rest, assigned);
        let w = candidates.last();
        lemma_still_free(rest, assigned);
        assert(candidates == rest.push(w));
        assert forall|i: int| 0 <= i < free.len() implies {
            &&& candidates.contains(#[trigger] free[i])
            &&& !any_holds(assigned, free[i].hwnd)
        } by {
            if i < before.len() {
                assert(free[i] == before[i]);
                assert(rest.contains(before[i]));
                let k = choose|k: int| 0 <= k < rest.len() && rest[k] == before[i];
                assert(candidates[k] == free[i]);
            } else {
                assert(candidates[candidates.len() - 1] == free[i]);
            }
        }
        assert forall|i: int, j: int| 0 <= i < j < free.len() implies (#[trigger] free[i]).hwnd != (
        #[trigger] free[j]).hwnd by {
            if j == before.len() {
                assert(before[i].hwnd == free[i].hwnd);
                assert(!holds(before, w.hwnd));
            }
        }
        assert forall|hwnd: isize|
            holds(candidates, hwnd) && !any_holds(assigned, hwnd) <==> #[trigger] holds(
                free,
                hwnd,
            ) by {
            lemma_holds_push(rest, w, hwnd);
            lemma_holds_push(before, w, hwnd);
            assert(holds(rest, hwnd) && !any_holds(assigned, hwnd) <==> holds(before, hwnd));
        }
    }
}

/// Each button has an entry, and buttons further left do not depend on those further right.
pub proof fn lemma_assignment_prefix(
    buttons: Seq<TaskbarButton>,
    windows: Seq<WindowInfo>,
    explorer_pid: u32,
    n: int,
)
    requires
        0 <= n <= buttons.len(),
    ensures
        assignment(buttons, windows, explorer_pid).len() == buttons.len(),
        assignment(buttons.take(n), windows, explorer_pid) == assignment(
            buttons,
            windows,
            explorer_pid,
        ).take(n),
    decreases buttons.len(),
{
    if buttons.len() == 0 {
        assert(buttons.take(n) == buttons);
        assert(assignment(buttons, windows, explorer_pid).take(n) =~= assignment(
            buttons,
            windows,
            explorer_pid,
        ));
    } else if n == buttons.len() {
        lemma_assignment_prefix(buttons.drop_last(), windows, explorer_pid, 0);
        assert(buttons.take(n) == buttons);
        assert(assignment(buttons, windows, explorer_pid).take(n) =~= assignment(
            buttons,
            windows,
            explorer_pid,
        ));
    } else {
        lemma_assignment_prefix(buttons.drop_last(), windows, explorer_pid, n);
        assert(buttons.drop_last().take(n) == buttons.take(n));
        assert(assignment(buttons, windows, explorer_pid).take(n) =~= assignment(
            buttons.drop_last(),
            windows,
            explorer_pid,
        ).take(n));
    }
}

/// No window belongs to two buttons, nor twice to one.
pub proof fn law_window_has_one_button(
    buttons: Seq<TaskbarButton>,
    windows: Seq<WindowInfo>,
    explorer_pid: u32,
)
    ensures
        forall|a: int, b: int, hwnd: isize|
            0 <= a < buttons.len() && 0 <= b < buttons.len() && #[trigger] holds(
                assignment(buttons, windows, explorer_pid)[a],
                hwnd,
            ) && #[trigger] holds(assignment(buttons, windows, explorer_pid)[b], hwnd) ==> a == b,
        forall|b: int, i: int, j: int|
            0 <= b < buttons.len() && 0 <= i < j < assignment(
                buttons,
                windows,
                explorer_pid,
            )[b].len() ==> (#[trigger] assignment(buttons, windows, explorer_pid)[b][i]).hwnd != (
            #[trigger] assignment(buttons, windows, explorer_pid)[b][j]).hwnd,
    decreases buttons.len(),
{
    let all = assignment(buttons, windows, explorer_pid);
    if buttons.len() > 0 {
        let rest = buttons.drop_last();
        let before = assignment(rest, windows, explorer_pid);
        let candidates = matching(windows, buttons.last(), explorer_pid);
        let free = still_free(candidates, before);
        law_window_has_one_button(rest, windows, explorer_pid);
        lemma_assignment_prefix(rest, windows, explorer_pid, 0);
        lemma_still_free(candidates, before);
        assert(all == before.push(free));
        assert forall|a: int, b: int, hwnd: isize|
            0 <= a < buttons.len() && 0 <= b < buttons.len() && #[trigger] holds(all[a], hwnd)
                && #[trigger] holds(all[b], hwnd) implies a == b by {
            if a < rest.len() {
                assert(holds(before[a], hwnd));
            }
            if b < rest.len() {
                assert(holds(before[b], hwnd));
            }
        }
        assert forall|b: int, i: int, j: int|
            0 <= b < buttons.len() && 0 <= i < j < all[b].len() implies (#[trigger] all[b][i]).hwnd
            != (#[trigger] all[b][j]).hwnd by {
            if b < rest.len() {
                assert(all[b] == before[b]);
                assert(before[b][i].hwnd != before[b][j].hwnd);
            } else {
                assert(all[b] == free);
            }
        }
    }
}

/// A button has exactly the windows that it matches and that no button further left has.
pub proof fn law_button_takes_free_matches(
    buttons: Seq<TaskbarButton>,
    windows: Seq<WindowInfo>,
    explorer_pid: u32,
    b: int,
    hwnd: isize,
)
    requires
        0 <= b < buttons.len(),
    ensures
        holds(assignment(buttons, windows, explorer_pid)[b], hwnd) <==> (holds(
            matching(windows, buttons[b], explorer_pid),
            hwnd,
        ) && forall|a: int|
            0 <= a < b ==> !#[trigger] holds(
                assignment(buttons, windows, explorer_pid)[a],
                hwnd,
            )),
{
    let all = assignment(buttons, windows, explorer_pid);
    lemma_assignment_prefix(buttons, windows, explorer_pid, b);
    lemma_assignment_prefix(buttons, windows, explorer_pid, b + 1);
    let upto = buttons.take(b + 1);
    assert(upto.drop_last() == buttons.take(b));
    assert(upto.last() == buttons[b]);
    let before = all.take(b);
    let candidates = matching(windows, buttons[b], explorer_pid);
    assert(all.take(b + 1)[b] == all[b]);
    assert(assignment(upto, windows, explorer_pid) == before.push(
        still_free(candidates, before),
    ));
    lemma_still_free(candidates, before);
    if any_holds(before, hwnd) {
        let a = choose|a: int| 0 <= a < before.len() && #[trigger] holds(before[a], hwnd);
        assert(holds(all[a], hwnd));
    }
    assert forall|a: int| 0 <= a < b && !any_holds(before, hwnd) implies !#[trigger] holds(
        all[a],
        hwnd,
    ) by {
        assert(before[a] == all[a]);
    }
}

/// A window that some button matches belongs to some button.
pub proof fn law_matched_window_is_assigned(
    buttons: Seq<TaskbarButton>,
    windows: Seq<WindowInfo>,
    explorer_pid: u32,
    b: int,
    hwnd: isize,
)
    requires
        0 <= b < buttons.len(),
        holds(matching(windows, buttons[b], explorer_pid), hwnd),
    ensures
        any_holds(assignment(buttons, windows, explorer_pid), hwnd),
{
    let all = assignment(buttons, windows, explorer_pid);
    lemma_assignment_prefix(buttons, windows, explorer_pid, 0);
    law_button_takes_free_matches(buttons, windows, explorer_pid, b, hwnd);
    if !any_holds(all, hwnd) {
        assert forall|a: int| 0 <= a < b implies !#[trigger] holds(all[a], hwnd) by {}
        assert(holds(all[b], hwnd));
    }
}

/// Mapping between taskbar buttons and visible windows.
///
/// Initialized once per cycle, used for:
/// - Finding window(s) for a button (`find_window_by_button`, `find_windows_by_button`)
/// - Finding the button index for the foreground window (`find_button_index_by_hwnd`)
pub struct ButtonWindowMap {
    /// The windows of each button, by button index.
    mapping: Vec<Vec<WindowInfo>>,
}

impl ButtonWindowMap {
    /// The windows of each button, by button index.
    pub closed spec fn assigned(&self) -> Seq<Seq<WindowInfo>> {
        list_views(self.mapping@)
    }

    /// Creates a new instance with the current list of buttons and windows.
    ///
    /// `explorer_pid` is the process of the explorer, whose buttons are not matched by process.
    pub fn new(buttons: &[TaskbarButton], windows: &[WindowInfo], explorer_pid: u32) -> (map: Self)
        ensures
            map.assigned() == assignment(buttons@, windows@, explorer_pid),
    {
        let mut consumed: HashSet<isize> = HashSet::new();
        let mut mapping: Vec<Vec<WindowInfo>> = Vec::new();
        for b in 0..buttons.len()
            invariant
                list_views(mapping@) == assignment(
                    buttons@.take(b as int),
                    windows@,
                    explorer_pid,
                ),
                forall|hwnd: isize| #[trigger]
                    consumed@.contains(hwnd) == any_holds(list_views(mapping@), hwnd),
        {
            let candidates = match_windows_for_button(windows, &buttons[b], explorer_pid);
            let mut free: Vec<WindowInfo> = Vec::new();
            let ghost before = list_views(mapping@);
            for i in 0..candidates.len()
                invariant
                    free@ == still_free(candidates@.take(i as int), before),
                    forall|hwnd: isize| #[trigger]
                        consumed@.contains(hwnd) == (any_holds(before, hwnd) || holds(
                            free@,
                            hwnd,
                        )),
            {
                let hwnd = candidates[i].hwnd;
                assert(candidates@.take(i as int + 1).drop_last() == candidates@.take(i as int));
                assert(candidates@.take(i as int + 1).last() == candidates@[i as int]);
                if !consumed.contains(&hwnd) {
                    proof {
                        let ghost taken = free@;
                        assert forall|h: isize|
                            holds(taken.push(candidates@[i as int]), h) == (holds(taken, h) || h
                                == hwnd) by {
                            lemma_holds_push(taken, candidates@[i as int], h);
                        }
                    }
                    free.push(candidates[i].clone());
                    consumed.insert(hwnd);
                }
            }
            assert(candidates@.take(candidates@.len() as int) == candidates@);
            let ghost taken = free@;
            mapping.push(free);
            proof {
                assert(buttons@.take(b as int + 1).drop_last() == buttons@.take(b as int));
                assert(list_views(mapping@) =~= before.push(taken));
                assert forall|hwnd: isize| #[trigger]
                    consumed@.contains(hwnd) == any_holds(list_views(mapping@), hwnd) by {
                    lemma_any_holds_push(before, taken, hwnd);
                }
            }
        }
        assert(buttons@.take(buttons@.len() as int) == buttons@);
        ButtonWindowMap { mapping }
    }

    /// The number of buttons.
    pub fn len(&self) -> (count: usize)
        ensures
            count == self.assigned().len(),
    {
        self.mapping.len()
    }

    /// Finds the window corresponding to the button at `index`. Used for uncombine mode.
    pub fn find_window_by_button(&self, index: usize) -> (window: Option<WindowInfo>)
        ensures
            window == if index < self.assigned().len() && self.assigned()[index as int].len() > 0 {
                Some(self.assigned()[index as int][0])
            } else {
                None
            },
    {
        if index < self.mapping.len() && self.mapping[index].len() > 0 {
            Some(self.mapping[index][0].clone())
        } else {
            None
        }
    }

    /// Finds all windows corresponding to the button at `index`. Used for combine mode (grouped
    /// buttons).
    pub fn find_windows_by_button(&self, index: usize) -> (windows: Vec<WindowInfo>)
        ensures
            windows@ == if index < self.assigned().len() {
                self.assigned()[index as int]
            } else {
                Seq::empty()
            },
    {
        if index < self.mapping.len() {
            clone_windows(&self.mapping[index])
        } else {
            Vec::new()
        }
    }

    /// Finds the index of the taskbar button corresponding to the target window.
    pub fn find_button_index_by_hwnd(&self, target: isize) -> (index: Option<usize>)
        ensures
            index matches Some(b) ==> b < self.assigned().len() && holder(
                self.assigned(),
                target,
                0,
            ) == Some(b as int),
            index is None ==> holder(self.assigned(), target, 0) is None,
    {
        for b in 0..self.mapping.len()
            invariant
                holder(self.assigned(), target, 0) == holder(self.assigned(), target, b as int),
        {
            let windows = &self.mapping[b];
            assert(self.assigned()[b as int] == windows@);
            for i in 0..windows.len()
                invariant
                    b < self.mapping@.len(),
                    windows == self.mapping@[b as int],
                    self.assigned()[b as int] == windows@,
                    holder(self.assigned(), target, 0) == holder(
                        self.assigned(),
                        target,
                        b as int,
                    ),
                    forall|k: int| 0 <= k < i ==> (#[trigger] windows@[k]).hwnd != target,
            {
                if windows[i].hwnd == target {
                    assert(holds(self.assigned()[b as int], target));
                    return Some(b);
                }
            }
            assert(!holds(self.assigned()[b as int], target));
        }
        None
    }
}

/// The windows matched with a button stand from left to right.
pub proof fn law_matches_are_ordered(
    windows: Seq<WindowInfo>,
    button: TaskbarButton,
    explorer_pid: u32,
)
    ensures
        order::is_ordered(matching(windows, button, explorer_pid)),
{
    let name = utils::cleaned_name(button.name@);
    if let Some(id) = button.automation_id {
        let lower = text::lowercase(id@);
        order::law_sort_orders(windows.filter(|w: WindowInfo| matches_aumid(w, lower)));
        if let Some(exe) = implicit_exe(lower) {
            order::law_sort_orders(windows.filter(|w: WindowInfo| matches_exe(w, button, exe)));
        }
    }
    order::law_sort_orders(
        windows.filter(|w: WindowInfo| matches_pid(w, button.process_id as u32)),
    );
    order::law_sort_orders(windows.filter(|w: WindowInfo| matches_title(w, button, name)));
    order::law_sort_orders(windows.filter(|w: WindowInfo| matches_process(w, button, name)));
}

proof fn lemma_still_free_is_ordered(candidates: Seq<WindowInfo>, assigned: Seq<Seq<WindowInfo>>)
    requires
        order::is_ordered(candidates),
    ensures
        order::is_ordered(still_free(candidates, assigned)),
    decreases candidates.len(),
{
    if candidates.len() > 0 {
        let rest = candidates.drop_last();
        lemma_still_free_is_ordered(rest, assigned);
        lemma_still_free(rest, assigned);
        let before = still_free(rest, assigned);
        assert forall|i: int| 0 <= i < before.len() implies order::Placed::not_after(
            &(#[trigger] before[i]),
            &candidates.last(),
        ) by {
            assert(rest.contains(before[i]));
            let k = choose|k: int| 0 <= k < rest.len() && rest[k] == before[i];
            assert(candidates[candidates.len() - 1] == candidates.last() && candidates[k] == rest[k]);
        }
    }
}

/// The windows of each button stand from left to right, so the first one is the leftmost.
pub proof fn law_assigned_windows_are_ordered(
    buttons: Seq<TaskbarButton>,
    windows: Seq<WindowInfo>,
    explorer_pid: u32,
    b: int,
)
    requires
        0 <= b < buttons.len(),
    ensures
        order::is_ordered(assignment(buttons, windows, explorer_pid)[b]),
    decreases buttons.len(),
{
    lemma_assignment_prefix(buttons, windows, explorer_pid, 0);
    lemma_assignment_prefix(buttons.drop_last(), windows, explorer_pid, 0);
    if b == buttons.len() - 1 {
        law_matches_are_ordered(windows, buttons.last(), explorer_pid);
        lemma_still_free_is_ordered(
            matching(windows, buttons.last(), explorer_pid),
            assignment(buttons.drop_last(), windows, explorer_pid),
        );
    } else {
        law_assigned_windows_are_ordered(buttons.drop_last(), windows, explorer_pid, b);
    }
}

/// What a strategy found are exactly the windows that fit, each as often as it is listed.
pub open spec fn finds(
    found: Option<Seq<WindowInfo>>,
    windows: Seq<WindowInfo>,
    fits: spec_fn(WindowInfo) -> bool,
) -> bool {
    &&& found is Some <==> exists|w: WindowInfo| #[trigger] windows.contains(w) && fits(w)
    &&& found matches Some(f) ==> forall|w: WindowInfo| #[trigger]
        f.contains(w) <==> windows.contains(w) && fits(w)
    &&& found matches Some(f) ==> forall|w: WindowInfo|
        fits(w) ==> #[trigger] f.to_multiset().count(w) == windows.to_multiset().count(w)
}

/// A strategy that keeps the windows for which a condition holds finds the windows that fit, where the
/// condition says that they do.
pub proof fn lemma_finds(
    windows: Seq<WindowInfo>,
    pred: spec_fn(WindowInfo) -> bool,
    fits: spec_fn(WindowInfo) -> bool,
)
    requires
        forall|w: WindowInfo| #[trigger] pred(w) == fits(w),
    ensures
        finds(finalized(windows.filter(pred)), windows, fits),
{
    let kept = windows.filter(pred);
    lists::lemma_filter_members(windows, pred);
    order::lemma_sort_members(kept);
    order::law_sort_orders(kept);
    if kept.len() > 0 {
        let w = kept[0];
        assert(kept.contains(w));
        assert(windows.contains(w) && pred(w));
    } else {
        assert forall|w: WindowInfo| #[trigger] windows.contains(w) implies !fits(w) by {
            assert(!kept.contains(w));
            assert(pred(w) == fits(w));
        }
    }
    assert forall|w: WindowInfo| fits(w) implies #[trigger] order::in_order(
        kept,
    ).to_multiset().count(w) == windows.to_multiset().count(w) by {
        assert(pred(w) == fits(w));
        lists::lemma_filter_counts(windows, pred, w);
    }
    assert forall|w: WindowInfo| #[trigger] order::in_order(kept).contains(w) <==> windows.contains(
        w,
    ) && fits(w) by {
        assert(pred(w) == fits(w));
        assert(kept.contains(w) <==> windows.contains(w) && pred(w));
    }
}

/// The AUMID of the window stands in the button's or begins with it, in whatever case.
pub open spec fn fits_by_aumid(w: WindowInfo, button: TaskbarButton) -> bool {
    &&& w.aumid is Some
    &&& button.automation_id is Some
    &&& button.automation_id->0@.len() > 0
    &&& ({
        let own = text::lowercase(w.aumid->0@);
        let id = text::lowercase(button.automation_id->0@);
        text::contains_text(id, own) || text::starts_with_text(own, id)
    })
}

/// The window has no AUMID, or one of the two AUMIDs stands in the other.
pub open spec fn is_not_foreign(w: WindowInfo, button: TaskbarButton) -> bool {
    ||| w.aumid is None
    ||| button.automation_id is Some && ({
        let own = text::lowercase(w.aumid->0@);
        let id = text::lowercase(button.automation_id->0@);
        text::contains_text(id, own) || text::contains_text(own, id)
    })
}

/// The window has a title and belongs to the button's process, which is an app.
pub open spec fn fits_by_pid(w: WindowInfo, button: TaskbarButton, explorer_pid: u32) -> bool {
    &&& button.process_id != 0
    &&& button.process_id != explorer_pid as i32
    &&& w.process_id == button.process_id as u32
    &&& w.title@.len() > 0
}

/// The button's AUMID is the path of the executable that the window runs.
pub open spec fn fits_by_exe(w: WindowInfo, button: TaskbarButton) -> bool {
    &&& is_not_foreign(w, button)
    &&& button.automation_id is Some
    &&& ({
        let exe = text::lowercase(w.process_name@);
        let id = text::lowercase(button.automation_id->0@);
        &&& text::ends_with_text(id, "\\"@ + exe)
        &&& text::ends_with_text(exe, ".exe"@)
        &&& !exe.contains('\\')
    })
}

/// Of the cleaned title and the cleaned button name, neither of them empty, one stands in the other.
pub open spec fn fits_by_title(w: WindowInfo, button: TaskbarButton) -> bool {
    let name = utils::cleaned_name(button.name@);
    let title = utils::cleaned_name(w.title@);
    &&& is_not_foreign(w, button)
    &&& name.len() > 0 && title.len() > 0
    &&& text::contains_text(title, name) || text::contains_text(name, title)
}

/// Of the executable without `.exe` and the cleaned button name, neither of them empty, one stands in
/// the other, in whatever case.
pub open spec fn fits_by_process(w: WindowInfo, button: TaskbarButton) -> bool {
    let name = utils::cleaned_name(button.name@);
    let stem = exe_stem(text::lowercase(w.process_name@));
    &&& is_not_foreign(w, button)
    &&& name.len() > 0 && w.process_name@.len() > 0 && stem.len() > 0
    &&& text::contains_text(stem, text::lowercase(name)) || text::contains_text(
        text::lowercase(name),
        stem,
    )
}

/// The stem of a file name is what stands before `.exe`; any other name is its own stem.
pub proof fn law_stem_has_no_ending(stem: Seq<char>)
    ensures
        exe_stem(stem + ".exe"@) == stem,
        !text::ends_with_text(stem, ".exe"@) ==> exe_stem(stem) == stem,
{
    reveal_strlit(".exe");
    let file = stem + ".exe"@;
    assert(file.subrange(stem.len() as int, stem.len() as int + 4) =~= ".exe"@);
    assert(file.take(file.len() - 4) =~= stem);
}

/// The executable of an AUMID is what stands behind its last backslash, where it ends in `.exe`; an
/// AUMID with another ending or without a backslash names none.
pub proof fn law_executable_of_a_path(dir: Seq<char>, exe: Seq<char>, id: Seq<char>)
    requires
        !exe.contains('\\'),
    ensures
        text::ends_with_text(exe, ".exe"@) ==> implicit_exe(dir + "\\"@ + exe) == Some(exe),
        !text::ends_with_text(id, ".exe"@) || !id.contains('\\') ==> implicit_exe(id) is None,
{
    reveal_strlit(".exe");
    reveal_strlit("\\");
    let path = dir + "\\"@ + exe;
    if text::ends_with_text(exe, ".exe"@) {
        assert(path.subrange(path.len() - 4, path.len() as int) =~= exe.subrange(
            exe.len() - 4,
            exe.len() as int,
        ));
        assert(path.subrange(dir.len() as int, dir.len() as int + 1) =~= "\\"@);
        assert forall|j: int| j > dir.len() implies !text::occurs_at(path, "\\"@, j) by {
            if text::occurs_at(path, "\\"@, j) {
                assert(path.subrange(j, j + 1)[0] == '\\');
                assert(exe[j - dir.len() - 1] == '\\');
            }
        }
        text::lemma_is_last_occurrence(path, "\\"@, dir.len() as int);
        assert(path.skip(dir.len() as int + 1) =~= exe);
    }
    text::lemma_last_occurrence(id, "\\"@);
    if let Some(i) = text::last_occurrence(id, "\\"@) {
        assert(id.subrange(i, i + 1)[0] == '\\');
        assert(id[i] == '\\');
    }
}

proof fn lemma_implicit_exe(id: Seq<char>, exe: Seq<char>)
    ensures
        implicit_exe(id) == Some(exe) <==> (text::ends_with_text(id, "\\"@ + exe)
            && text::ends_with_text(exe, ".exe"@) && !exe.contains('\\')),
{
    reveal_strlit(".exe");
    reveal_strlit("\\");
    let tail = "\\"@ + exe;
    if text::ends_with_text(id, tail) && text::ends_with_text(exe, ".exe"@) && !exe.contains('\\') {
        let dir = id.take(id.len() - tail.len());
        assert(id =~= dir + id.subrange(id.len() - tail.len(), id.len() as int));
        assert(dir + tail =~= dir + "\\"@ + exe);
        law_executable_of_a_path(dir, exe, id);
    }
    if implicit_exe(id) == Some(exe) {
        text::lemma_last_occurrence(id, "\\"@);
        let i = text::last_occurrence(id, "\\"@)->0;
        assert(id.subrange(i, i + 1)[0] == '\\');
        assert(exe == id.skip(i + 1));
        if exe.contains('\\') {
            let k = choose|k: int| 0 <= k < exe.len() && exe[k] == '\\';
            assert(id.subrange(i + 1 + k, i + 1 + k + 1) =~= "\\"@);
            assert(text::occurs_at(id, "\\"@, i + 1 + k));
        }
        assert(id.subrange(id.len() - tail.len(), id.len() as int) =~= tail);
        let e = id.subrange(id.len() - 4, id.len() as int);
        assert(e == ".exe"@);
        assert(e[0] == '.' && e[1] == 'e' && e[2] == 'x' && e[3] == 'e');
        assert(i < id.len() - 4) by {
            if i >= id.len() - 4 {
                assert(e[i - (id.len() - 4)] == '\\');
            }
        }
        assert(exe.subrange(exe.len() - 4, exe.len() as int) =~= ".exe"@);
    }
}

proof fn lemma_foreign(w: WindowInfo, button: TaskbarButton)
    ensures
        compatible(w, button) == is_not_foreign(w, button),
{
    if w.aumid is Some && button.automation_id is Some {
        let own = text::lowercase(w.aumid->0@);
        text::law_text_contains_itself(own);
    }
}

proof fn lemma_strategies_find(windows: Seq<WindowInfo>, button: TaskbarButton, explorer_pid: u32)
    ensures
        finds(by_aumid(windows, button), windows, |w: WindowInfo| fits_by_aumid(w, button)),
        finds(
            by_pid(windows, button, explorer_pid),
            windows,
            |w: WindowInfo| fits_by_pid(w, button, explorer_pid),
        ),
        finds(by_implicit_exe(windows, button), windows, |w: WindowInfo| fits_by_exe(w, button)),
        ({
            let name = utils::cleaned_name(button.name@);
            name.len() > 0 ==> {
                &&& finds(
                    by_title(windows, button, name),
                    windows,
                    |w: WindowInfo| fits_by_title(w, button),
                )
                &&& finds(
                    by_process(windows, button, name),
                    windows,
                    |w: WindowInfo| fits_by_process(w, button),
                )
            }
        }),
{
    let name = utils::cleaned_name(button.name@);
    let aumid_fits = |w: WindowInfo| fits_by_aumid(w, button);
    if button.automation_id is Some && button.automation_id->0@.len() > 0 {
        let id = button.automation_id->0;
        let pred = |w: WindowInfo| matches_aumid(w, text::lowercase(id@));
        assert forall|w: WindowInfo| #[trigger] pred(w) == aumid_fits(w) by {
            text::law_text_contains_itself(text::lowercase(id@));
        }
        lemma_finds(windows, pred, aumid_fits);
    }
    let pid_fits = |w: WindowInfo| fits_by_pid(w, button, explorer_pid);
    if button.process_id != 0 && button.process_id != explorer_pid as i32 {
        let pred = |w: WindowInfo| matches_pid(w, button.process_id as u32);
        lemma_finds(windows, pred, pid_fits);
    }
    let exe_fits = |w: WindowInfo| fits_by_exe(w, button);
    if let Some(id) = button.automation_id {
        let lower = text::lowercase(id@);
        match implicit_exe(lower) {
            Some(exe) => {
                let pred = |w: WindowInfo| matches_exe(w, button, exe);
                assert forall|w: WindowInfo| #[trigger] pred(w) == exe_fits(w) by {
                    lemma_foreign(w, button);
                    lemma_implicit_exe(lower, text::lowercase(w.process_name@));
                }
                lemma_finds(windows, pred, exe_fits);
            },
            None => {
                assert forall|w: WindowInfo| #[trigger] windows.contains(w) implies !exe_fits(w) by {
                    lemma_implicit_exe(lower, text::lowercase(w.process_name@));
                }
            },
        }
    }
    if name.len() > 0 {
        let title_fits = |w: WindowInfo| fits_by_title(w, button);
        let title_pred = |w: WindowInfo| matches_title(w, button, name);
        assert forall|w: WindowInfo| #[trigger] title_pred(w) == title_fits(w) by {
            lemma_foreign(w, button);
            utils::law_clean_name_is_prefix(w.title@);
        }
        lemma_finds(windows, title_pred, title_fits);
        let process_fits = |w: WindowInfo| fits_by_process(w, button);
        let process_pred = |w: WindowInfo| matches_process(w, button, name);
        assert forall|w: WindowInfo| #[trigger] process_pred(w) == process_fits(w) by {
            lemma_foreign(w, button);
        }
        lemma_finds(windows, process_pred, process_fits);
    }
}

/// Some listed window has the same AUMID as the button.
pub open spec fn any_by_aumid(windows: Seq<WindowInfo>, button: TaskbarButton) -> bool {
    exists|w: WindowInfo| #[trigger] windows.contains(w) && fits_by_aumid(w, button)
}

/// Some listed window belongs to the button's process.
pub open spec fn any_by_pid(
    windows: Seq<WindowInfo>,
    button: TaskbarButton,
    explorer_pid: u32,
) -> bool {
    exists|w: WindowInfo| #[trigger] windows.contains(w) && fits_by_pid(w, button, explorer_pid)
}

/// Some listed window runs the executable that the button names.
pub open spec fn any_by_exe(windows: Seq<WindowInfo>, button: TaskbarButton) -> bool {
    exists|w: WindowInfo| #[trigger] windows.contains(w) && fits_by_exe(w, button)
}

/// Some listed window has a title that fits the button's name.
pub open spec fn any_by_title(windows: Seq<WindowInfo>, button: TaskbarButton) -> bool {
    exists|w: WindowInfo| #[trigger] windows.contains(w) && fits_by_title(w, button)
}

/// Some listed window has an executable that fits the button's name.
pub open spec fn any_by_process(windows: Seq<WindowInfo>, button: TaskbarButton) -> bool {
    exists|w: WindowInfo| #[trigger] windows.contains(w) && fits_by_process(w, button)
}

/// A window is matched with a button exactly if it is listed and fits in the first way in which any
/// listed window fits: by AUMID, by process, by the executable that the AUMID names, by title, by the
/// executable's name.
pub proof fn law_first_way_that_fits_decides(
    windows: Seq<WindowInfo>,
    button: TaskbarButton,
    explorer_pid: u32,
    w: WindowInfo,
)
    ensures
        matching(windows, button, explorer_pid).contains(w) <==> windows.contains(w) && {
            ||| fits_by_aumid(w, button)
            ||| fits_by_pid(w, button, explorer_pid) && !any_by_aumid(windows, button)
            ||| fits_by_exe(w, button) && !any_by_aumid(windows, button) && !any_by_pid(
                windows,
                button,
                explorer_pid,
            )
            ||| fits_by_title(w, button) && !any_by_aumid(windows, button) && !any_by_pid(
                windows,
                button,
                explorer_pid,
            ) && !any_by_exe(windows, button)
            ||| fits_by_process(w, button) && !any_by_aumid(windows, button) && !any_by_pid(
                windows,
                button,
                explorer_pid,
            ) && !any_by_exe(windows, button) && !any_by_title(windows, button)
        },
        matching(windows, button, explorer_pid).contains(w) ==> matching(
            windows,
            button,
            explorer_pid,
        ).to_multiset().count(w) == windows.to_multiset().count(w),
{
    lemma_strategies_find(windows, button, explorer_pid);
    let m = matching(windows, button, explorer_pid);
    let name = utils::cleaned_name(button.name@);
    if by_aumid(windows, button) is Some {
        assert(any_by_aumid(windows, button));
    } else {
        assert(!any_by_aumid(windows, button));
        if by_pid(windows, button, explorer_pid) is Some {
            assert(any_by_pid(windows, button, explorer_pid));
        } else {
            assert(!any_by_pid(windows, button, explorer_pid));
            if by_implicit_exe(windows, button) is Some {
                assert(any_by_exe(windows, button));
            } else {
                assert(!any_by_exe(windows, button));
                if name.len() > 0 {
                    if by_title(windows, button, name) is Some {
                        assert(any_by_title(windows, button));
                    } else {
                        assert(!any_by_title(windows, button));
                        if by_process(windows, button, name) is None {
                            assert(!any_by_process(windows, button));
                        }
                    }
                }
            }
        }
    }
}

/// A button is left without a window exactly if no listed window fits it in any of the five ways.
pub proof fn law_fitting_window_is_matched(
    windows: Seq<WindowInfo>,
    button: TaskbarButton,
    explorer_pid: u32,
)
    ensures
        matching(windows, button, explorer_pid).len() == 0 <==> {
            &&& !any_by_aumid(windows, button)
            &&& !any_by_pid(windows, button, explorer_pid)
            &&& !any_by_exe(windows, button)
            &&& !any_by_title(windows, button)
            &&& !any_by_process(windows, button)
        },
{
    let m = matching(windows, button, explorer_pid);
    if m.len() > 0 {
        law_first_way_that_fits_decides(windows, button, explorer_pid, m[0]);
        assert(m.contains(m[0]));
        assert(windows.contains(m[0]));
    } else {
        assert forall|w: WindowInfo| #[trigger] windows.contains(w) implies {
            &&& !fits_by_aumid(w, button)
            &&& any_by_aumid(windows, button) || !fits_by_pid(w, button, explorer_pid)
            &&& any_by_aumid(windows, button) || any_by_pid(windows, button, explorer_pid)
                || !fits_by_exe(w, button)
            &&& any_by_aumid(windows, button) || any_by_pid(windows, button, explorer_pid)
                || any_by_exe(windows, button) || !fits_by_title(w, button)
            &&& any_by_aumid(windows, button) || any_by_pid(windows, button, explorer_pid)
                || any_by_exe(windows, button) || any_by_title(windows, button)
                || !fits_by_process(w, button)
        } by {
            law_first_way_that_fits_decides(windows, button, explorer_pid, w);
            assert(!m.contains(w));
        }
    }
}

/// Where no listed window fits by AUMID, process, named executable or title, the matched windows are
/// exactly those whose executable fits the button's name.
pub proof fn law_executable_name_is_the_last_resort(
    windows: Seq<WindowInfo>,
    button: TaskbarButton,
    explorer_pid: u32,
    w: WindowInfo,
)
    requires
        !any_by_aumid(windows, button),
        !any_by_pid(windows, button, explorer_pid),
        !any_by_exe(windows, button),
        !any_by_title(windows, button),
    ensures
        matching(windows, button, explorer_pid).contains(w) <==> windows.contains(w)
            && fits_by_process(w, button),
{
    law_first_way_that_fits_decides(windows, button, explorer_pid, w);
}

/// The windows of a button are those that it matches and that no button further left matches.
pub proof fn law_leftmost_matching_button_has_the_window(
    buttons: Seq<TaskbarButton>,
    windows: Seq<WindowInfo>,
    explorer_pid: u32,
    b: int,
    hwnd: isize,
)
    requires
        0 <= b < buttons.len(),
    ensures
        holds(assignment(buttons, windows, explorer_pid)[b], hwnd) <==> (holds(
            matching(windows, buttons[b], explorer_pid),
            hwnd,
        ) && forall|a: int|
            0 <= a < b ==> !holds(matching(windows, #[trigger] buttons[a], explorer_pid), hwnd)),
    decreases b,
{
    let all = assignment(buttons, windows, explorer_pid);
    law_button_takes_free_matches(buttons, windows, explorer_pid, b, hwnd);
    assert forall|a: int| 0 <= a < b && holds(all[b], hwnd) implies !holds(
        matching(windows, #[trigger] buttons[a], explorer_pid),
        hwnd,
    ) by {
        lemma_unmatched_before(buttons, windows, explorer_pid, a, b, hwnd);
    }
    if forall|a: int|
        0 <= a < b ==> !holds(matching(windows, #[trigger] buttons[a], explorer_pid), hwnd) {
        assert forall|a: int| 0 <= a < b implies !#[trigger] holds(all[a], hwnd) by {
            law_button_takes_free_matches(buttons, windows, explorer_pid, a, hwnd);
            assert(!holds(matching(windows, buttons[a], explorer_pid), hwnd));
        }
    }
}

proof fn lemma_unmatched_before(
    buttons: Seq<TaskbarButton>,
    windows: Seq<WindowInfo>,
    explorer_pid: u32,
    a: int,
    b: int,
    hwnd: isize,
)
    requires
        0 <= a < b < buttons.len(),
        holds(assignment(buttons, windows, explorer_pid)[b], hwnd),
    ensures
        !holds(matching(windows, buttons[a], explorer_pid), hwnd),
{
    let all = assignment(buttons, windows, explorer_pid);
    law_window_has_one_button(buttons, windows, explorer_pid);
    law_button_takes_free_matches(buttons, windows, explorer_pid, a, hwnd);
    if holds(matching(windows, buttons[a], explorer_pid), hwnd) {
        if !holds(all[a], hwnd) {
            let c = choose|c: int| 0 <= c < a && #[trigger] holds(all[c], hwnd);
            assert(holds(all[c], hwnd) && holds(all[b], hwnd));
        }
    }
}

/// A window stands at a button as it stands among the listed ones.
pub proof fn law_assigned_windows_are_listed(
    buttons: Seq<TaskbarButton>,
    windows: Seq<WindowInfo>,
    explorer_pid: u32,
    b: int,
    i: int,
)
    requires
        0 <= b < buttons.len(),
        0 <= i < assignment(buttons, windows, explorer_pid)[b].len(),
    ensures
        assignment(buttons, windows, explorer_pid).len() == buttons.len(),
        windows.contains(assignment(buttons, windows, explorer_pid)[b][i]),
        matching(windows, buttons[b], explorer_pid).contains(
            assignment(buttons, windows, explorer_pid)[b][i],
        ),
{
    let all = assignment(buttons, windows, explorer_pid);
    lemma_assignment_prefix(buttons, windows, explorer_pid, b);
    lemma_assignment_prefix(buttons, windows, explorer_pid, b + 1);
    let upto = buttons.take(b + 1);
    assert(upto.drop_last() == buttons.take(b));
    let before = all.take(b);
    let candidates = matching(windows, buttons[b], explorer_pid);
    assert(all.take(b + 1)[b] == all[b]);
    assert(assignment(upto, windows, explorer_pid) == before.push(still_free(candidates, before)));
    lemma_still_free(candidates, before);
    assert(all[b] == still_free(candidates, before));
    law_first_way_that_fits_decides(windows, buttons[b], explorer_pid, all[b][i]);
}

/// The windows of each button stand from left to right; where two start at the same place, the one
/// with the lower handle is first, and a negative handle is a high address.
pub proof fn law_assigned_windows_stand_by_left_edge(
    buttons: Seq<TaskbarButton>,
    windows: Seq<WindowInfo>,
    explorer_pid: u32,
    b: int,
    i: int,
    j: int,
)
    requires
        0 <= b < buttons.len(),
        0 <= i < j < assignment(buttons, windows, explorer_pid)[b].len(),
    ensures
        ({
            let own = assignment(buttons, windows, explorer_pid)[b];
            &&& own[i].rect.left <= own[j].rect.left
            &&& own[i].rect.left == own[j].rect.left && own[i].hwnd < 0 ==> own[j].hwnd < 0
            &&& own[i].rect.left == own[j].rect.left && (own[i].hwnd < 0 <==> own[j].hwnd < 0)
                ==> own[i].hwnd < own[j].hwnd
        }),
{
    let own = assignment(buttons, windows, explorer_pid)[b];
    law_assigned_windows_are_ordered(buttons, windows, explorer_pid, b);
    law_window_has_one_button(buttons, windows, explorer_pid);
    assert(order::Placed::not_after(&own[i], &own[j]));
    assert(assignment(buttons, windows, explorer_pid)[b][i].hwnd != assignment(
        buttons,
        windows,
        explorer_pid,
    )[b][j].hwnd);
}

/// The windows matched with a button stand from left to right; where two start at the same place, the
/// one with the lower handle is first, and a negative handle is a high address.
pub proof fn law_matches_stand_by_left_edge(
    windows: Seq<WindowInfo>,
    button: TaskbarButton,
    explorer_pid: u32,
    i: int,
    j: int,
)
    requires
        0 <= i < j < matching(windows, button, explorer_pid).len(),
    ensures
        ({
            let m = matching(windows, button, explorer_pid);
            &&& m[i].rect.left <= m[j].rect.left
            &&& m[i].rect.left == m[j].rect.left && m[i].hwnd < 0 ==> m[j].hwnd < 0
            &&& m[i].rect.left == m[j].rect.left && (m[i].hwnd < 0 <==> m[j].hwnd < 0)
                ==> m[i].hwnd <= m[j].hwnd
        }),
{
    law_matches_are_ordered(windows, button, explorer_pid);
    let m = matching(windows, button, explorer_pid);
    assert(order::Placed::not_after(&m[i], &m[j]));
}

/// A list holds a handle exactly if some window of it has that handle, and a list of lists exactly if
/// one of the lists does.
pub proof fn law_held_handles(assigned: Seq<Seq<WindowInfo>>, windows: Seq<WindowInfo>, hwnd: isize)
    ensures
        holds(windows, hwnd) <==> exists|w: WindowInfo| #[trigger]
            windows.contains(w) && w.hwnd == hwnd,
        any_holds(assigned, hwnd) <==> exists|own: Seq<WindowInfo>| #[trigger]
            assigned.contains(own) && holds(own, hwnd),
{
    if holds(windows, hwnd) {
        let i = choose|i: int| 0 <= i < windows.len() && #[trigger] windows[i].hwnd == hwnd;
        assert(windows.contains(windows[i]));
    }
    if exists|w: WindowInfo| #[trigger] windows.contains(w) && w.hwnd == hwnd {
        let w = choose|w: WindowInfo| #[trigger] windows.contains(w) && w.hwnd == hwnd;
        let i = choose|i: int| 0 <= i < windows.len() && windows[i] == w;
        assert(windows[i].hwnd == hwnd);
    }
    if any_holds(assigned, hwnd) {
        let b = choose|b: int| 0 <= b < assigned.len() && #[trigger] holds(assigned[b], hwnd);
        assert(assigned.contains(assigned[b]));
    }
    if exists|own: Seq<WindowInfo>| #[trigger] assigned.contains(own) && holds(own, hwnd) {
        let own = choose|own: Seq<WindowInfo>| #[trigger]
            assigned.contains(own) && holds(own, hwnd);
        let b = choose|b: int| 0 <= b < assigned.len() && assigned[b] == own;
        assert(holds(assigned[b], hwnd));
    }
}

} // verus!
