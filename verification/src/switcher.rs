//! Matches a taskbar button with windows by itself, without regard to the other buttons: by process,
//! AppUserModelID, title and executable.

use vstd::prelude::*;
use vstd::string::*;

use crate::lists;
use crate::parsing;
use crate::parsing::{from_utf16_lossy, from_utf8_lossy, lines_of};
use crate::taskbar::button_window;
use crate::taskbar::button_window::{
    aumid_texts_match, finalize_matches, process_texts_match, title_matches,
};
use crate::taskbar::explorer;
use crate::taskbar::explorer::parse_pid;
use crate::taskbar::order;
use crate::text;
use crate::text::{chars_of, contains_chars, to_lowercase};
use crate::types::{TaskbarButton, WindowInfo};
use crate::utils;
use crate::utils::clean_button_name;

verus! {

/// The title of a window that is listed: a visible one with a title, given in UTF-16.
pub fn listed_title(visible: bool, title: &[u16]) -> (listed: Option<String>)
    ensures
        listed is Some <==> visible && title@.len() > 0 && parsing::utf16_lossy(title@).len() > 0,
        listed matches Some(t) ==> t@ == parsing::utf16_lossy(title@),
{
    if !visible {
        return None;
    }
    if title.len() == 0 {
        return None;
    }
    let text = from_utf16_lossy(title);
    if text.as_str().is_empty() {
        return None;
    }
    Some(text)
}

/// The window has a title, and an AUMID that matches the lower-case automation ID `id`.
pub open spec fn fits_aumid(w: WindowInfo, id: Seq<char>) -> bool {
    w.title@.len() > 0 && button_window::matches_aumid(w, id)
}

/// The window has a title that matches the cleaned button name.
pub open spec fn fits_title(w: WindowInfo, name: Seq<char>) -> bool {
    w.title@.len() > 0 && button_window::titles_match(w.title@, name)
}

/// The window has a title, and an executable that matches the lower-case cleaned button name.
pub open spec fn fits_process(w: WindowInfo, name: Seq<char>) -> bool {
    w.title@.len() > 0 && button_window::process_names_match(
        text::lowercase(w.process_name@),
        name,
    )
}

/// Windows of the button's process, where that is an app and not the explorer.
pub open spec fn by_pid(
    windows: Seq<WindowInfo>,
    button: TaskbarButton,
    explorer_pid: u32,
) -> Option<Seq<WindowInfo>> {
    if button.process_id > 0 && button.process_id != explorer_pid as i32 {
        button_window::finalized(
            windows.filter(
                |w: WindowInfo| button_window::matches_pid(w, button.process_id as u32),
            ),
        )
    } else {
        None
    }
}

/// Windows whose AUMID matches the automation ID of the button.
pub open spec fn by_aumid(
    windows: Seq<WindowInfo>,
    button: TaskbarButton,
) -> Option<Seq<WindowInfo>> {
    match button.automation_id {
        Some(id) => if id@.len() == 0 {
            None
        } else {
            button_window::finalized(
                windows.filter(|w: WindowInfo| fits_aumid(w, text::lowercase(id@))),
            )
        },
        None => None,
    }
}

/// Windows whose title matches the cleaned button name.
pub open spec fn by_title(windows: Seq<WindowInfo>, name: Seq<char>) -> Option<Seq<WindowInfo>> {
    button_window::finalized(windows.filter(|w: WindowInfo| fits_title(w, name)))
}

/// Windows whose executable matches the cleaned button name.
pub open spec fn by_process(windows: Seq<WindowInfo>, name: Seq<char>) -> Option<Seq<WindowInfo>> {
    button_window::finalized(
        windows.filter(|w: WindowInfo| fits_process(w, text::lowercase(name))),
    )
}

/// The windows of a button: those of the first strategy that finds any.
pub open spec fn matching(
    windows: Seq<WindowInfo>,
    button: TaskbarButton,
    explorer_pid: u32,
) -> Seq<WindowInfo> {
    let name = utils::cleaned_name(button.name@);
    match by_pid(windows, button, explorer_pid) {
        Some(found) => found,
        None => match by_aumid(windows, button) {
            Some(found) => found,
            None => if name.len() == 0 {
                Seq::empty()
            } else {
                match by_title(windows, name) {
                    Some(found) => found,
                    None => match by_process(windows, name) {
                        Some(found) => found,
                        None => Seq::empty(),
                    },
                }
            },
        },
    }
}

fn match_by_pid(windows: &[WindowInfo], button: &TaskbarButton, explorer_pid: u32) -> (found:
    Option<Vec<WindowInfo>>)
    ensures
        found matches Some(f) ==> by_pid(windows@, *button, explorer_pid) == Some(f@),
        found is None ==> by_pid(windows@, *button, explorer_pid) is None,
{
    let explorer: i32 = #[verifier::truncate] (explorer_pid as i32);
    let pid_is_real_app = button.process_id > 0 && button.process_id != explorer;
    if !pid_is_real_app {
        return None;
    }
    let pid: u32 = button.process_id as u32;
    let ghost pred = |w: WindowInfo| button_window::matches_pid(w, button.process_id as u32);
    let mut matches: Vec<WindowInfo> = Vec::new();
    for i in 0..windows.len()
        invariant
            pid == button.process_id as u32,
            pred == (|w: WindowInfo| button_window::matches_pid(w, button.process_id as u32)),
            matches@ == windows@.take(i as int).filter(pred),
    {
        proof {
            lists::lemma_filter_step(windows@, i as int, pred);
        }
        if windows[i].process_id == pid && !windows[i].title.as_str().is_empty() {
            matches.push(windows[i].clone());
        }
    }
    assert(windows@.take(windows@.len() as int) == windows@);
    finalize_matches(matches)
}

fn match_by_aumid(windows: &[WindowInfo], button: &TaskbarButton) -> (found: Option<
    Vec<WindowInfo>,
>)
    ensures
        found matches Some(f) ==> by_aumid(windows@, *button) == Some(f@),
        found is None ==> by_aumid(windows@, *button) is None,
{
    match &button.automation_id {
        Some(id) => {
            if id.as_str().is_empty() {
                return None;
            }
            let id_lower = to_lowercase(id.as_str());
            let ghost pred = |w: WindowInfo| fits_aumid(w, text::lowercase(id@));
            let mut matches: Vec<WindowInfo> = Vec::new();
            for i in 0..windows.len()
                invariant
                    id_lower@ == text::lowercase(id@),
                    pred == (|w: WindowInfo| fits_aumid(w, text::lowercase(id@))),
                    matches@ == windows@.take(i as int).filter(pred),
            {
                proof {
                    lists::lemma_filter_step(windows@, i as int, pred);
                }
                if !windows[i].title.as_str().is_empty() {
                    if let Some(aumid) = &windows[i].aumid {
                        let lower = to_lowercase(aumid.as_str());
                        if aumid_texts_match(lower.as_str(), id_lower.as_str()) {
                            matches.push(windows[i].clone());
                        }
                    }
                }
            }
            assert(windows@.take(windows@.len() as int) == windows@);
            finalize_matches(matches)
        },
        None => None,
    }
}

fn match_by_title(windows: &[WindowInfo], clean_name: &str) -> (found: Option<Vec<WindowInfo>>)
    ensures
        found matches Some(f) ==> by_title(windows@, clean_name@) == Some(f@),
        found is None ==> by_title(windows@, clean_name@) is None,
{
    let ghost pred = |w: WindowInfo| fits_title(w, clean_name@);
    let mut matches: Vec<WindowInfo> = Vec::new();
    for i in 0..windows.len()
        invariant
            pred == (|w: WindowInfo| fits_title(w, clean_name@)),
            matches@ == windows@.take(i as int).filter(pred),
    {
        proof {
            lists::lemma_filter_step(windows@, i as int, pred);
        }
        if !windows[i].title.as_str().is_empty() && title_matches(
            windows[i].title.as_str(),
            clean_name,
        ) {
            matches.push(windows[i].clone());
        }
    }
    assert(windows@.take(windows@.len() as int) == windows@);
    finalize_matches(matches)
}

fn match_by_process(windows: &[WindowInfo], clean_name: &str) -> (found: Option<Vec<WindowInfo>>)
    ensures
        found matches Some(f) ==> by_process(windows@, clean_name@) == Some(f@),
        found is None ==> by_process(windows@, clean_name@) is None,
{
    let name_lower = to_lowercase(clean_name);
    let ghost pred = |w: WindowInfo| fits_process(w, text::lowercase(clean_name@));
    let mut matches: Vec<WindowInfo> = Vec::new();
    for i in 0..windows.len()
        invariant
            name_lower@ == text::lowercase(clean_name@),
            pred == (|w: WindowInfo| fits_process(w, text::lowercase(clean_name@))),
            matches@ == windows@.take(i as int).filter(pred),
    {
        proof {
            lists::lemma_filter_step(windows@, i as int, pred);
        }
        if !windows[i].title.as_str().is_empty() {
            let lower = to_lowercase(windows[i].process_name.as_str());
            if process_texts_match(lower.as_str(), name_lower.as_str()) {
                matches.push(windows[i].clone());
            }
        }
    }
    assert(windows@.take(windows@.len() as int) == windows@);
    finalize_matches(matches)
}

/// Core matching logic between a taskbar button and a list of windows, given with the AUMID that
/// each has. Tries four strategies in order of priority:
///
/// 1. PID matching (if the PID is a real app, not explorer)
/// 2. AppUserModelID matching
/// 3. Title matching (fuzzy)
/// 4. Process name matching
pub fn match_windows_for_button(
    button: &TaskbarButton,
    all_windows: &[WindowInfo],
    explorer_pid: u32,
) -> (found: Vec<WindowInfo>)
    ensures
        found@ == matching(all_windows@, *button, explorer_pid),
{
    if let Some(found) = match_by_pid(all_windows, button, explorer_pid) {
        return found;
    }
    if let Some(found) = match_by_aumid(all_windows, button) {
        return found;
    }
    let clean_name = clean_button_name(button.name.as_str());
    if clean_name.as_str().is_empty() {
        return Vec::new();
    }
    if let Some(found) = match_by_title(all_windows, clean_name.as_str()) {
        return found;
    }
    if let Some(found) = match_by_process(all_windows, clean_name.as_str()) {
        return found;
    }
    Vec::new()
}

/// The first window matched with the button. Used in uncombine mode, when the button is not a group.
pub fn find_window_for_button(
    button: &TaskbarButton,
    all_windows: &[WindowInfo],
    explorer_pid: u32,
) -> (found: Option<WindowInfo>)
    ensures
        ({
            let all = matching(all_windows@, *button, explorer_pid);
            found == if all.len() > 0 {
                Some(all[0])
            } else {
                None
            }
        }),
{
    let found = match_windows_for_button(button, all_windows, explorer_pid);
    if found.len() > 0 {
        Some(found[0].clone())
    } else {
        None
    }
}

/// The windows matched with the button. Used in combine mode, when the button can be a group.
pub fn find_windows_for_button(
    button: &TaskbarButton,
    all_windows: &[WindowInfo],
    explorer_pid: u32,
) -> (found: Vec<WindowInfo>)
    ensures
        found@ == matching(all_windows@, *button, explorer_pid),
{
    match_windows_for_button(button, all_windows, explorer_pid)
}

/// The PID in the first line from `i` on that names the explorer and holds one; zero where there is
/// none.
pub open spec fn first_explorer_pid(lines: Seq<Seq<char>>, i: int) -> u32
    decreases lines.len() - i,
{
    if i >= lines.len() {
        0
    } else if text::contains_text(lines[i], "explorer.exe"@) && explorer::pid_of_line(
        lines[i],
    ) is Some {
        explorer::pid_of_line(lines[i])->0
    } else {
        first_explorer_pid(lines, i + 1)
    }
}

/// Reads the PID of explorer.exe out of a process list in CSV form, from the first line that holds
/// one.
pub fn pid_in_process_list(list: &str) -> (pid: u32)
    ensures
        pid == first_explorer_pid(parsing::lines(list@), 0),
{
    let lines = lines_of(list);
    let name = chars_of("explorer.exe");
    let ghost all = parsing::line_views(lines@);
    for i in 0..lines.len()
        invariant
            all == parsing::line_views(lines@),
            name@ == "explorer.exe"@,
            first_explorer_pid(all, 0) == first_explorer_pid(all, i as int),
            all == parsing::lines(list@),
    {
        assert(all[i as int] == lines@[i as int]@);
        if contains_chars(&lines[i], &name) {
            if let Some(pid) = parse_pid(&lines[i]) {
                return pid;
            }
        }
    }
    0
}

/// The PID of explorer.exe out of what the process list printed; zero where the list could not be
/// had.
pub fn get_explorer_pid(output: Option<&[u8]>) -> (pid: u32)
    ensures
        pid == match output {
            Some(bytes) => first_explorer_pid(parsing::lines(parsing::utf8_lossy(bytes@)), 0),
            None => 0,
        },
{
    match output {
        Some(bytes) => {
            let list = from_utf8_lossy(bytes);
            pid_in_process_list(list.as_str())
        },
        None => 0,
    }
}

/// The windows found for a button stand from left to right.
pub proof fn law_matches_are_ordered(
    windows: Seq<WindowInfo>,
    button: TaskbarButton,
    explorer_pid: u32,
)
    ensures
        order::is_ordered(matching(windows, button, explorer_pid)),
{
    let name = utils::cleaned_name(button.name@);
    let pid_pred = |w: WindowInfo| button_window::matches_pid(w, button.process_id as u32);
    order::law_sort_orders(windows.filter(pid_pred));
    if let Some(id) = button.automation_id {
        let aumid_pred = |w: WindowInfo| fits_aumid(w, text::lowercase(id@));
        order::law_sort_orders(windows.filter(aumid_pred));
    }
    let title_pred = |w: WindowInfo| fits_title(w, name);
    order::law_sort_orders(windows.filter(title_pred));
    let process_pred = |w: WindowInfo| fits_process(w, text::lowercase(name));
    order::law_sort_orders(windows.filter(process_pred));
}

/// The window has a title and belongs to the button's process, which is an app.
pub open spec fn titled_of_process(w: WindowInfo, button: TaskbarButton, explorer_pid: u32) -> bool {
    &&& button.process_id > 0
    &&& button.process_id != explorer_pid as i32
    &&& w.process_id == button.process_id
    &&& w.title@.len() > 0
}

/// The window has a title, and its AUMID stands in the button's or begins with it, in whatever case.
pub open spec fn titled_with_aumid(w: WindowInfo, button: TaskbarButton) -> bool {
    &&& w.title@.len() > 0
    &&& button_window::fits_by_aumid(w, button)
}

/// Of the cleaned title and the cleaned button name, neither of them empty, one stands in the other.
pub open spec fn titled_alike(w: WindowInfo, button: TaskbarButton) -> bool {
    let name = utils::cleaned_name(button.name@);
    let title = utils::cleaned_name(w.title@);
    &&& name.len() > 0 && title.len() > 0
    &&& text::contains_text(title, name) || text::contains_text(name, title)
}

/// The window has a title, and of its executable without `.exe` and the cleaned button name, neither
/// of them empty, one stands in the other, in whatever case.
pub open spec fn titled_of_executable(w: WindowInfo, button: TaskbarButton) -> bool {
    let name = utils::cleaned_name(button.name@);
    let stem = button_window::exe_stem(text::lowercase(w.process_name@));
    &&& w.title@.len() > 0
    &&& name.len() > 0 && stem.len() > 0
    &&& text::contains_text(stem, text::lowercase(name)) || text::contains_text(
        text::lowercase(name),
        stem,
    )
}

proof fn lemma_strategies_find(windows: Seq<WindowInfo>, button: TaskbarButton, explorer_pid: u32)
    ensures
        button_window::finds(
            by_pid(windows, button, explorer_pid),
            windows,
            |w: WindowInfo| titled_of_process(w, button, explorer_pid),
        ),
        button_window::finds(
            by_aumid(windows, button),
            windows,
            |w: WindowInfo| titled_with_aumid(w, button),
        ),
        ({
            let name = utils::cleaned_name(button.name@);
            name.len() > 0 ==> {
                &&& button_window::finds(
                    by_title(windows, name),
                    windows,
                    |w: WindowInfo| titled_alike(w, button),
                )
                &&& button_window::finds(
                    by_process(windows, name),
                    windows,
                    |w: WindowInfo| titled_of_executable(w, button),
                )
            }
        }),
{
    let name = utils::cleaned_name(button.name@);
    let pid_fits = |w: WindowInfo| titled_of_process(w, button, explorer_pid);
    if button.process_id > 0 && button.process_id != explorer_pid as i32 {
        let pred = |w: WindowInfo| button_window::matches_pid(w, button.process_id as u32);
        button_window::lemma_finds(windows, pred, pid_fits);
    }
    let aumid_fits = |w: WindowInfo| titled_with_aumid(w, button);
    if button.automation_id is Some && button.automation_id->0@.len() > 0 {
        let id = button.automation_id->0;
        let pred = |w: WindowInfo| fits_aumid(w, text::lowercase(id@));
        assert forall|w: WindowInfo| #[trigger] pred(w) == aumid_fits(w) by {
            text::law_text_contains_itself(text::lowercase(id@));
        }
        button_window::lemma_finds(windows, pred, aumid_fits);
    }
    if name.len() > 0 {
        let title_fits = |w: WindowInfo| titled_alike(w, button);
        let title_pred = |w: WindowInfo| fits_title(w, name);
        assert forall|w: WindowInfo| #[trigger] title_pred(w) == title_fits(w) by {
            utils::law_clean_name_is_prefix(w.title@);
        }
        button_window::lemma_finds(windows, title_pred, title_fits);
        let process_fits = |w: WindowInfo| titled_of_executable(w, button);
        let process_pred = |w: WindowInfo| fits_process(w, text::lowercase(name));
        button_window::lemma_finds(windows, process_pred, process_fits);
    }
}

/// Some listed window with a title belongs to the button's process.
pub open spec fn any_of_process(
    windows: Seq<WindowInfo>,
    button: TaskbarButton,
    explorer_pid: u32,
) -> bool {
    exists|w: WindowInfo| #[trigger]
        windows.contains(w) && titled_of_process(w, button, explorer_pid)
}

/// Some listed window with a title has the AUMID of the button.
pub open spec fn any_with_aumid(windows: Seq<WindowInfo>, button: TaskbarButton) -> bool {
    exists|w: WindowInfo| #[trigger] windows.contains(w) && titled_with_aumid(w, button)
}

/// Some listed window has a title that fits the button's name.
pub open spec fn any_titled_alike(windows: Seq<WindowInfo>, button: TaskbarButton) -> bool {
    exists|w: WindowInfo| #[trigger] windows.contains(w) && titled_alike(w, button)
}

/// Some listed window with a title has an executable that fits the button's name.
pub open spec fn any_of_executable(windows: Seq<WindowInfo>, button: TaskbarButton) -> bool {
    exists|w: WindowInfo| #[trigger] windows.contains(w) && titled_of_executable(w, button)
}

/// A window is found for a button exactly if it is listed and fits in the first way in which any
/// listed window fits: by process, by AUMID, by title, by executable.
pub proof fn law_first_way_that_fits_decides(
    windows: Seq<WindowInfo>,
    button: TaskbarButton,
    explorer_pid: u32,
    w: WindowInfo,
)
    ensures
        matching(windows, button, explorer_pid).contains(w) <==> windows.contains(w) && {
            ||| titled_of_process(w, button, explorer_pid)
            ||| titled_with_aumid(w, button) && !any_of_process(windows, button, explorer_pid)
            ||| titled_alike(w, button) && !any_of_process(windows, button, explorer_pid)
                && !any_with_aumid(windows, button)
            ||| titled_of_executable(w, button) && !any_of_process(windows, button, explorer_pid)
                && !any_with_aumid(windows, button) && !any_titled_alike(windows, button)
        },
        matching(windows, button, explorer_pid).contains(w) ==> matching(
            windows,
            button,
            explorer_pid,
        ).to_multiset().count(w) == windows.to_multiset().count(w),
{
    lemma_strategies_find(windows, button, explorer_pid);
    let name = utils::cleaned_name(button.name@);
    if by_pid(windows, button, explorer_pid) is Some {
        assert(any_of_process(windows, button, explorer_pid));
    } else {
        assert(!any_of_process(windows, button, explorer_pid));
        if by_aumid(windows, button) is Some {
            assert(any_with_aumid(windows, button));
        } else {
            assert(!any_with_aumid(windows, button));
            if name.len() > 0 {
                if by_title(windows, name) is Some {
                    assert(any_titled_alike(windows, button));
                } else {
                    assert(!any_titled_alike(windows, button));
                    if by_process(windows, name) is None {
                        assert(!any_of_executable(windows, button));
                    }
                }
            }
        }
    }
}

/// A button is left without a window exactly if no listed window fits it in any of the four ways.
pub proof fn law_fitting_window_is_found(
    windows: Seq<WindowInfo>,
    button: TaskbarButton,
    explorer_pid: u32,
)
    ensures
        matching(windows, button, explorer_pid).len() == 0 <==> {
            &&& !any_of_process(windows, button, explorer_pid)
            &&& !any_with_aumid(windows, button)
            &&& !any_titled_alike(windows, button)
            &&& !any_of_executable(windows, button)
        },
{
    let m = matching(windows, button, explorer_pid);
    if m.len() > 0 {
        law_first_way_that_fits_decides(windows, button, explorer_pid, m[0]);
        assert(m.contains(m[0]));
        assert(windows.contains(m[0]));
    } else {
        assert forall|w: WindowInfo| #[trigger] windows.contains(w) implies {
            &&& !titled_of_process(w, button, explorer_pid)
            &&& any_of_process(windows, button, explorer_pid) || !titled_with_aumid(w, button)
            &&& any_of_process(windows, button, explorer_pid) || any_with_aumid(windows, button)
                || !titled_alike(w, button)
            &&& any_of_process(windows, button, explorer_pid) || any_with_aumid(windows, button)
                || any_titled_alike(windows, button) || !titled_of_executable(w, button)
        } by {
            law_first_way_that_fits_decides(windows, button, explorer_pid, w);
            assert(!m.contains(w));
        }
    }
}

/// The windows found for a button stand from left to right; where two start at the same place, the one
/// with the lower handle is first, and a negative handle is a high address.
pub proof fn law_matches_stand_by_left_edge(
    windows: Seq<WindowInfo>,
    button: TaskbarButton,
    explorer_pid: u32,
    i: int,
    j: int,
)
    requires
        0 <= i < j < matching(windows, button, explorer_pid).len(),
    ensures
        ({
            let m = matching(windows, button, explorer_pid);
            &&& m[i].rect.left <= m[j].rect.left
            &&& m[i].rect.left == m[j].rect.left && m[i].hwnd < 0 ==> m[j].hwnd < 0
            &&& m[i].rect.left == m[j].rect.left && (m[i].hwnd < 0 <==> m[j].hwnd < 0)
                ==> m[i].hwnd <= m[j].hwnd
        }),
{
    law_matches_are_ordered(windows, button, explorer_pid);
    let m = matching(windows, button, explorer_pid);
    assert(order::Placed::not_after(&m[i], &m[j]));
}

/// The first line that names the explorer and holds a PID decides; without one the PID is zero.
pub proof fn law_first_explorer_line_with_pid_decides(lines: Seq<Seq<char>>, i: int, pid: u32)
    requires
        0 <= i <= lines.len(),
        forall|k: int|
            0 <= k < i ==> !text::contains_text(#[trigger] lines[k], "explorer.exe"@)
                || explorer::pid_of_line(lines[k]) is None,
        i < lines.len() ==> text::contains_text(lines[i], "explorer.exe"@) && explorer::pid_of_line(
            lines[i],
        ) == Some(pid),
    ensures
        i == lines.len() ==> first_explorer_pid(lines, 0) == 0,
        i < lines.len() ==> first_explorer_pid(lines, 0) == pid,
{
    lemma_first_explorer_pid(lines, i, pid, 0);
}

proof fn lemma_first_explorer_pid(lines: Seq<Seq<char>>, i: int, pid: u32, from: int)
    requires
        0 <= from <= i <= lines.len(),
        forall|k: int|
            0 <= k < i ==> !text::contains_text(#[trigger] lines[k], "explorer.exe"@)
                || explorer::pid_of_line(lines[k]) is None,
        i < lines.len() ==> text::contains_text(lines[i], "explorer.exe"@) && explorer::pid_of_line(
            lines[i],
        ) == Some(pid),
    ensures
        i == lines.len() ==> first_explorer_pid(lines, from) == 0,
        i < lines.len() ==> first_explorer_pid(lines, from) == pid,
    decreases i - from,
{
    if from < i {
        assert(!text::contains_text(lines[from], "explorer.exe"@) || explorer::pid_of_line(
            lines[from],
        ) is None);
        lemma_first_explorer_pid(lines, i, pid, from + 1);
    }
}

} // verus!
