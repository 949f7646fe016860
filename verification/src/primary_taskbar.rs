//! Cycling along the primary taskbar alone: each button is matched by itself, and the neighbor is
//! the button right beside the active one, whether or not it has windows.

use vstd::prelude::*;
use vstd::string::*;

use crate::switcher;
use crate::switcher::{find_window_for_button, find_windows_for_button};
use crate::taskbar::button_window;
use crate::taskbar::button_window::aumid_texts_match;
use crate::taskbar::cache::ButtonCacheState;
use crate::taskbar::cycle::CycleDirection;
use crate::taskbar::enumerator::Activation;
use crate::text;
use crate::text::to_lowercase;
use crate::types::{TargetWindow, TaskbarButton, WindowInfo};
use crate::utils;
use crate::utils::truncate;

verus! {

/// Stands for the monitor of the primary taskbar, which is the only one here.
pub const ONLY_MONITOR: isize = 0;

/// The taskbar window was not found.
#[derive(Debug, Clone, Copy, PartialEq, Eq, Structural)]
pub struct NoTaskbar;

/// The buttons on the primary taskbar.
pub struct TaskbarEnumerator {
    /// The button list, kept to avoid reading it anew at each key.
    pub cache: ButtonCacheState,
    /// Handle of the taskbar window.
    pub taskbar_hwnd: isize,
}

/// The automation ID of the button matches the lower-case AUMID of the foreground window.
pub open spec fn claims(button: TaskbarButton, foreground_aumid: Seq<char>) -> bool {
    button.automation_id matches Some(id) && id@.len() > 0 && button_window::aumids_match(
        foreground_aumid,
        text::lowercase(id@),
    )
}

/// The first button from `i` on that claims the lower-case AUMID of the foreground window.
pub open spec fn claimed_from(
    buttons: Seq<TaskbarButton>,
    foreground_aumid: Seq<char>,
    i: int,
) -> Option<int>
    decreases buttons.len() - i,
{
    if i >= buttons.len() {
        None
    } else if claims(buttons[i], foreground_aumid) {
        Some(i)
    } else {
        claimed_from(buttons, foreground_aumid, i + 1)
    }
}

/// The first button from `i` on that is matched with the foreground window.
pub open spec fn matched_from(
    buttons: Seq<TaskbarButton>,
    windows: Seq<WindowInfo>,
    explorer_pid: u32,
    foreground: isize,
    i: int,
) -> Option<int>
    decreases buttons.len() - i,
{
    if i >= buttons.len() {
        None
    } else if button_window::holds(
        switcher::matching(windows, buttons[i], explorer_pid),
        foreground,
    ) {
        Some(i)
    } else {
        matched_from(buttons, windows, explorer_pid, foreground, i + 1)
    }
}

/// The active button: the first that claims the AUMID of the foreground window, otherwise the first
/// that is matched with it.
pub open spec fn active_button(
    buttons: Seq<TaskbarButton>,
    windows: Seq<WindowInfo>,
    explorer_pid: u32,
    foreground: isize,
    foreground_aumid: Option<Seq<char>>,
) -> Option<int> {
    let claimed = match foreground_aumid {
        Some(aumid) => claimed_from(buttons, text::lowercase(aumid), 0),
        None => None,
    };
    match claimed {
        Some(i) => Some(i),
        None => matched_from(buttons, windows, explorer_pid, foreground, 0),
    }
}

/// The button beside `i` in a row of `n`, around the ends.
pub open spec fn beside(i: int, n: int, direction: CycleDirection) -> int {
    match direction {
        CycleDirection::Forward => if i + 1 >= n {
            0
        } else {
            i + 1
        },
        CycleDirection::Backward => if i == 0 {
            n - 1
        } else {
            i - 1
        },
    }
}

/// The first of the windows, as the one to activate.
pub open spec fn first_target(found: Seq<WindowInfo>, combine_enabled: bool) -> Option<
    TargetWindow,
> {
    if found.len() == 0 {
        None
    } else {
        Some(
            TargetWindow {
                name: found[0].title,
                hwnd: found[0].hwnd,
                is_grouped: combine_enabled && found.len() > 1,
            },
        )
    }
}

/// The characters of an optional text.
pub open spec fn view_of(s: Option<&str>) -> Option<Seq<char>> {
    match s {
        Some(s) => Some(s@),
        None => None,
    }
}

fn find_claiming_button(buttons: &[TaskbarButton], foreground_aumid: &str) -> (index: Option<usize>)
    ensures
        match claimed_from(buttons@, text::lowercase(foreground_aumid@), 0) {
            Some(i) => index == Some(i as usize) && 0 <= i < buttons@.len(),
            None => index is None,
        },
{
    let lower = to_lowercase(foreground_aumid);
    for i in 0..buttons.len()
        invariant
            lower@ == text::lowercase(foreground_aumid@),
            claimed_from(buttons@, lower@, 0) == claimed_from(buttons@, lower@, i as int),
    {
        if let Some(id) = &buttons[i].automation_id {
            if !id.as_str().is_empty() {
                let id_lower = to_lowercase(id.as_str());
                if aumid_texts_match(lower.as_str(), id_lower.as_str()) {
                    return Some(i);
                }
            }
        }
    }
    None
}

fn has_window(windows: &[WindowInfo], hwnd: isize) -> (found: bool)
    ensures
        found == button_window::holds(windows@, hwnd),
{
    for i in 0..windows.len()
        invariant
            forall|k: int| 0 <= k < i ==> (#[trigger] windows@[k]).hwnd != hwnd,
    {
        if windows[i].hwnd == hwnd {
            assert(windows@[i as int].hwnd == hwnd);
            return true;
        }
    }
    false
}

/// The button beside `index` in a row of `count`, around the ends.
pub fn next_index(index: usize, count: usize, direction: CycleDirection) -> (next: usize)
    requires
        index < count,
    ensures
        next < count,
        next == beside(index as int, count as int, direction),
{
    match direction {
        CycleDirection::Forward => if index + 1 >= count {
            0
        } else {
            index + 1
        },
        CycleDirection::Backward => if index == 0 {
            count - 1
        } else {
            index - 1
        },
    }
}

impl TaskbarEnumerator {
    /// Creates a new enumerator for the taskbar window; zero stands for none.
    pub fn new(taskbar_hwnd: isize) -> (made: Result<Self, NoTaskbar>)
        ensures
            taskbar_hwnd == 0 ==> made is Err,
            taskbar_hwnd != 0 ==> (made matches Ok(e) && {
                &&& e.taskbar_hwnd == taskbar_hwnd
                &&& e.cache.button_cache is None
                &&& e.cache.last_desktop_id is None
            }),
    {
        if taskbar_hwnd == 0 {
            return Err(NoTaskbar);
        }
        Ok(TaskbarEnumerator { cache: ButtonCacheState::new(), taskbar_hwnd })
    }

    /// Handle of the taskbar window.
    pub fn taskbar_hwnd(&self) -> (hwnd: isize)
        ensures
            hwnd == self.taskbar_hwnd,
    {
        self.taskbar_hwnd
    }

    /// The cached buttons, if they may still be used at the time `now` with the foreground window
    /// on the desktop `desktop`. Otherwise the caller reads them and hands them to
    /// [`Self::store_buttons`].
    pub fn enumerate_primary_buttons(&mut self, desktop: Option<u128>, now: u64) -> (cached: Option<
        Vec<TaskbarButton>,
    >)
        ensures
            cached matches Some(buttons) ==> {
                &&& !old(self).cache.sees_other_desktop(desktop)
                &&& old(self).cache.fresh(ONLY_MONITOR, now) == Some(buttons@)
            },
            cached is None ==> old(self).cache.sees_other_desktop(desktop) || old(self).cache.fresh(
                ONLY_MONITOR,
                now,
            ) is None,
            final(self).cache.last_desktop_id == if desktop is Some {
                desktop
            } else {
                old(self).cache.last_desktop_id
            },
            final(self).cache.button_cache == if old(self).cache.sees_other_desktop(desktop) {
                None
            } else {
                old(self).cache.button_cache
            },
            final(self).taskbar_hwnd == old(self).taskbar_hwnd,
    {
        self.cache.lookup(ONLY_MONITOR, desktop, now)
    }

    /// Keeps the buttons that were read at the time `now`.
    pub fn store_buttons(&mut self, buttons: &[TaskbarButton], now: u64)
        ensures
            final(self).cache.button_cache matches Some(cache) && cache.buttons@ == buttons@
                && cache.monitor == ONLY_MONITOR && cache.created_at == now,
            final(self).cache.last_desktop_id == old(self).cache.last_desktop_id,
            final(self).taskbar_hwnd == old(self).taskbar_hwnd,
    {
        self.cache.store(buttons, ONLY_MONITOR, now);
    }

    /// Invalidates the button cache.
    pub fn invalidate_cache(&mut self)
        ensures
            final(self).cache.button_cache is None,
            final(self).cache.last_desktop_id == old(self).cache.last_desktop_id,
            final(self).taskbar_hwnd == old(self).taskbar_hwnd,
    {
        self.cache.invalidate_cache();
    }

    /// Finds the index of the taskbar button corresponding to the foreground window.
    ///
    /// First the AUMID of that window is compared with the automation IDs. Otherwise the windows of each
    /// button are searched for it: the process of a button on Windows 11 is explorer.exe, and the window
    /// title does not have the format of the button name.
    pub fn find_active_button_index(
        buttons: &[TaskbarButton],
        foreground: isize,
        foreground_aumid: Option<&str>,
        all_windows: &[WindowInfo],
        explorer_pid: u32,
    ) -> (index: Option<usize>)
        ensures
            match active_button(
                buttons@,
                all_windows@,
                explorer_pid,
                foreground,
                view_of(foreground_aumid),
            ) {
                Some(i) => index == Some(i as usize) && 0 <= i < buttons@.len(),
                None => index is None,
            },
    {
        if let Some(aumid) = foreground_aumid {
            if let Some(i) = find_claiming_button(buttons, aumid) {
                return Some(i);
            }
        }
        for i in 0..buttons.len()
            invariant
                matched_from(buttons@, all_windows@, explorer_pid, foreground, 0) == matched_from(
                    buttons@,
                    all_windows@,
                    explorer_pid,
                    foreground,
                    i as int,
                ),
                active_button(
                    buttons@,
                    all_windows@,
                    explorer_pid,
                    foreground,
                    view_of(foreground_aumid),
                ) == matched_from(buttons@, all_windows@, explorer_pid, foreground, 0),
        {
            let windows = find_windows_for_button(&buttons[i], all_windows, explorer_pid);
            if has_window(&windows, foreground) {
                return Some(i);
            }
        }
        None
    }

    /// Finds the window considered to be to the left/right of the window `source`, given with its AUMID,
    /// from its position on the taskbar. A source that belongs to no button counts as the first one.
    ///
    /// With `combine_enabled` a button can be a group.
    pub fn find_neighbor_window(
        &self,
        source: isize,
        source_aumid: Option<&str>,
        combine_enabled: bool,
        direction: CycleDirection,
        buttons: &[TaskbarButton],
        all_windows: &[WindowInfo],
        explorer_pid: u32,
    ) -> (target: Option<TargetWindow>)
        ensures
            buttons@.len() == 0 ==> target is None,
            buttons@.len() > 0 ==> {
                let active = match active_button(
                    buttons@,
                    all_windows@,
                    explorer_pid,
                    source,
                    view_of(source_aumid),
                ) {
                    Some(i) => i,
                    None => 0,
                };
                let next = beside(active, buttons@.len() as int, direction);
                target == first_target(
                    switcher::matching(all_windows@, buttons@[next], explorer_pid),
                    combine_enabled,
                )
            },
    {
        if buttons.len() == 0 {
            return None;
        }
        let active_index: usize = match Self::find_active_button_index(
            buttons,
            source,
            source_aumid,
            all_windows,
            explorer_pid,
        ) {
            Some(i) => i,
            None => 0,
        };
        let target_index: usize = next_index(active_index, buttons.len(), direction);
        let target_button = &buttons[target_index];
        if combine_enabled {
            let windows = find_windows_for_button(target_button, all_windows, explorer_pid);
            let is_grouped = windows.len() > 1;
            if windows.len() == 0 {
                return None;
            }
            let w = windows[0].clone();
            Some(TargetWindow { name: w.title, hwnd: w.hwnd, is_grouped })
        } else {
            match find_window_for_button(target_button, all_windows, explorer_pid) {
                Some(w) => Some(TargetWindow { name: w.title, hwnd: w.hwnd, is_grouped: false }),
                None => None,
            }
        }
    }

    /// Cycles to the next window: the window to activate, with its name for the log.
    ///
    /// Nothing where no window was found to cycle to.
    pub fn cycle_to_neighbor(
        &self,
        foreground: isize,
        foreground_aumid: Option<&str>,
        combine_enabled: bool,
        direction: CycleDirection,
        buttons: &[TaskbarButton],
        all_windows: &[WindowInfo],
        explorer_pid: u32,
    ) -> (activation: Option<Activation>)
        ensures
            buttons@.len() == 0 ==> activation is None,
            buttons@.len() > 0 ==> {
                let active = match active_button(
                    buttons@,
                    all_windows@,
                    explorer_pid,
                    foreground,
                    view_of(foreground_aumid),
                ) {
                    Some(i) => i,
                    None => 0,
                };
                let next = beside(active, buttons@.len() as int, direction);
                let target = first_target(
                    switcher::matching(all_windows@, buttons@[next], explorer_pid),
                    combine_enabled,
                );
                &&& activation is Some <==> target is Some
                &&& activation matches Some(a) ==> {
                    &&& a.hwnd == target->0.hwnd
                    &&& a.name@ == utils::truncated(target->0.name@, 30)
                    &&& a.is_grouped == target->0.is_grouped
                }
            },
    {
        let target = self.find_neighbor_window(
            foreground,
            foreground_aumid,
            combine_enabled,
            direction,
            buttons,
            all_windows,
            explorer_pid,
        );
        match target {
            Some(target) => Some(
                Activation {
                    hwnd: target.hwnd,
                    name: truncate(target.name.as_str(), 30),
                    is_grouped: target.is_grouped,
                },
            ),
            None => None,
        }
    }
}

/// The button beside the one beside a button, the other way, is the button itself.
pub proof fn law_beside_there_and_back(i: int, n: int)
    requires
        0 <= i < n,
    ensures
        beside(beside(i, n, CycleDirection::Forward), n, CycleDirection::Backward) == i,
        beside(beside(i, n, CycleDirection::Backward), n, CycleDirection::Forward) == i,
{
}

/// The automation ID of the button stands around the AUMID of the foreground window or begins it, in
/// whatever case.
pub open spec fn names_foreground(button: TaskbarButton, aumid: Seq<char>) -> bool {
    &&& button.automation_id is Some
    &&& button.automation_id->0@.len() > 0
    &&& ({
        let own = text::lowercase(aumid);
        let id = text::lowercase(button.automation_id->0@);
        text::contains_text(id, own) || text::starts_with_text(own, id)
    })
}

proof fn lemma_first_claim(buttons: Seq<TaskbarButton>, aumid: Seq<char>, from: int)
    requires
        0 <= from,
    ensures
        match claimed_from(buttons, text::lowercase(aumid), from) {
            Some(i) => {
                &&& from <= i < buttons.len()
                &&& names_foreground(buttons[i], aumid)
                &&& forall|k: int|
                    from <= k < i ==> !names_foreground(#[trigger] buttons[k], aumid)
            },
            None => forall|k: int|
                from <= k < buttons.len() ==> !names_foreground(#[trigger] buttons[k], aumid),
        },
    decreases buttons.len() - from,
{
    if from < buttons.len() {
        text::law_text_contains_itself(text::lowercase(aumid));
        assert(claims(buttons[from], text::lowercase(aumid)) == names_foreground(
            buttons[from],
            aumid,
        ));
        lemma_first_claim(buttons, aumid, from + 1);
    }
}

/// The foreground window is among those that are found for the button.
pub open spec fn is_matched(
    button: TaskbarButton,
    windows: Seq<WindowInfo>,
    explorer_pid: u32,
    foreground: isize,
) -> bool {
    exists|w: WindowInfo| #[trigger]
        switcher::matching(windows, button, explorer_pid).contains(w) && w.hwnd == foreground
}

proof fn lemma_first_match(
    buttons: Seq<TaskbarButton>,
    windows: Seq<WindowInfo>,
    explorer_pid: u32,
    foreground: isize,
    from: int,
)
    requires
        0 <= from,
    ensures
        match matched_from(buttons, windows, explorer_pid, foreground, from) {
            Some(i) => {
                &&& from <= i < buttons.len()
                &&& is_matched(buttons[i], windows, explorer_pid, foreground)
                &&& forall|k: int|
                    from <= k < i ==> !is_matched(
                        #[trigger] buttons[k],
                        windows,
                        explorer_pid,
                        foreground,
                    )
            },
            None => forall|k: int|
                from <= k < buttons.len() ==> !is_matched(
                    #[trigger] buttons[k],
                    windows,
                    explorer_pid,
                    foreground,
                ),
        },
    decreases buttons.len() - from,
{
    if from < buttons.len() {
        let m = switcher::matching(windows, buttons[from], explorer_pid);
        assert(button_window::holds(m, foreground) == is_matched(
            buttons[from],
            windows,
            explorer_pid,
            foreground,
        )) by {
            if button_window::holds(m, foreground) {
                let i = choose|i: int| 0 <= i < m.len() && #[trigger] m[i].hwnd == foreground;
                assert(m.contains(m[i]));
            }
            if is_matched(buttons[from], windows, explorer_pid, foreground) {
                let w = choose|w: WindowInfo| #[trigger] m.contains(w) && w.hwnd == foreground;
                let i = choose|i: int| 0 <= i < m.len() && m[i] == w;
                assert(m[i].hwnd == foreground);
            }
        }
        lemma_first_match(buttons, windows, explorer_pid, foreground, from + 1);
    }
}

/// The active button is the first that names the AUMID of the foreground window. Where none does, it is
/// the first that the foreground window is found for, and there is none where that is no button.
pub proof fn law_active_button(
    buttons: Seq<TaskbarButton>,
    windows: Seq<WindowInfo>,
    explorer_pid: u32,
    foreground: isize,
    aumid: Seq<char>,
    i: int,
)
    requires
        0 <= i < buttons.len(),
    ensures
        active_button(buttons, windows, explorer_pid, foreground, Some(aumid)) == Some(i) <==> {
            ||| names_foreground(buttons[i], aumid) && forall|k: int|
                0 <= k < i ==> !names_foreground(#[trigger] buttons[k], aumid)
            ||| is_matched(buttons[i], windows, explorer_pid, foreground) && (forall|k: int|
                0 <= k < buttons.len() ==> !names_foreground(#[trigger] buttons[k], aumid))
                && forall|k: int|
                0 <= k < i ==> !is_matched(
                    #[trigger] buttons[k],
                    windows,
                    explorer_pid,
                    foreground,
                )
        },
        active_button(buttons, windows, explorer_pid, foreground, None) == Some(i) <==> is_matched(
            buttons[i],
            windows,
            explorer_pid,
            foreground,
        ) && forall|k: int|
            0 <= k < i ==> !is_matched(#[trigger] buttons[k], windows, explorer_pid, foreground),
{
    lemma_first_claim(buttons, aumid, 0);
    lemma_first_match(buttons, windows, explorer_pid, foreground, 0);
}

/// The button beside another is the next or the previous one, and the ends of the row are beside each
/// other.
pub proof fn law_beside_goes_around(i: int, n: int)
    requires
        0 <= i < n,
    ensures
        beside(i, n, CycleDirection::Forward) == (i + 1) % n,
        beside(i, n, CycleDirection::Backward) == (i + n - 1) % n,
{
    if i + 1 == n {
        vstd::arithmetic::div_mod::lemma_mod_self_0(n);
    } else {
        vstd::arithmetic::div_mod::lemma_small_mod((i + 1) as nat, n as nat);
    }
    if i == 0 {
        vstd::arithmetic::div_mod::lemma_small_mod((n - 1) as nat, n as nat);
    } else {
        vstd::arithmetic::div_mod::lemma_mod_add_multiples_vanish(i - 1, n);
        vstd::arithmetic::div_mod::lemma_small_mod((i - 1) as nat, n as nat);
    }
}

/// The window to activate is the first one found, and it counts as grouped exactly where buttons can
/// be groups and it was not found alone.
pub proof fn law_first_target(found: Seq<WindowInfo>, combine_enabled: bool)
    ensures
        first_target(found, combine_enabled) is None <==> found.len() == 0,
        first_target(found, combine_enabled) matches Some(t) ==> {
            &&& t.hwnd == found.first().hwnd
            &&& t.name == found.first().title
            &&& t.is_grouped <==> combine_enabled && found.len() >= 2
        },
{
}

} // verus!
