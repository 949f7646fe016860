//! Enumerates buttons on the Windows 11 taskbars in order from left to right, and finds the
//! window next to the active one.

use vstd::prelude::*;
use vstd::string::*;

use super::button_window;
use super::button_window::ButtonWindowMap;
use super::cache::ButtonCacheState;
use super::cycle;
use super::cycle::{get_next_valid_button_index, CycleDirection};
use super::explorer::{invalidate_explorer_pid_cache, ExplorerPidCache};
use super::order;
use super::order::sort;
use crate::text;
use crate::text::str_contains;
use crate::types::{clone_text, Rect, TargetWindow, TaskbarButton, WindowInfo};
use crate::utils;
use crate::utils::truncate;

verus! {

/// Why the taskbars cannot be enumerated.
#[derive(Debug, Clone, Copy, PartialEq, Eq, Structural)]
pub enum EnumeratorError {
    /// There is no taskbar.
    NoTaskbar,
}

/// Enumerates taskbar buttons.
#[derive(Debug)]
pub struct TaskbarEnumerator {
    /// Caches the button list to avoid re-enumerating on every keystroke.
    pub cache: ButtonCacheState,
    /// Handles of the taskbar windows, the primary one first.
    pub taskbars: Vec<isize>,
    /// Thread that the UI Automation hooks post to.
    pub uia_thread_id: u32,
    /// Index of the last active button.
    pub last_active_index: Option<usize>,
}

/// One UI Automation element of a taskbar, as far as its properties could be read.
#[derive(Debug)]
pub struct UiaItem {
    pub name: Option<String>,
    pub rect: Option<Rect>,
    pub process_id: Option<i32>,
    pub automation_id: Option<String>,
}

/// The name of an element, empty where it could not be read.
pub open spec fn item_name(item: UiaItem) -> Seq<char> {
    match item.name {
        Some(name) => name@,
        None => Seq::empty(),
    }
}

/// The button is what the element describes.
pub open spec fn describes(item: UiaItem, button: TaskbarButton) -> bool {
    &&& button.name@ == item_name(item)
    &&& item.rect == Some(button.rect)
    &&& button.process_id == match item.process_id {
        Some(pid) => pid,
        None => 0,
    }
    &&& button.automation_id == item.automation_id
}

/// The elements that have a position, which is needed for the order.
pub open spec fn placed_items(items: Seq<UiaItem>) -> Seq<UiaItem> {
    items.filter(|item: UiaItem| item.rect is Some)
}

/// The buttons are what the elements describe, one for one.
pub open spec fn describe_all(items: Seq<UiaItem>, buttons: Seq<TaskbarButton>) -> bool {
    &&& items.len() == buttons.len()
    &&& forall|i: int| 0 <= i < items.len() ==> describes(#[trigger] items[i], buttons[i])
}

/// The list `after` is `before` with a button for each element that has a position.
pub open spec fn extended_by(
    before: Seq<TaskbarButton>,
    items: Seq<UiaItem>,
    after: Seq<TaskbarButton>,
) -> bool {
    &&& before.len() <= after.len()
    &&& after.take(before.len() as int) == before
    &&& describe_all(placed_items(items), after.skip(before.len() as int))
}

/// Appends a button for each element that has a position.
///
/// An element without a name gets the empty name, one without a process the process zero.
pub fn collect_buttons(items: &[UiaItem], buttons: &mut Vec<TaskbarButton>)
    ensures
        extended_by(old(buttons)@, items@, final(buttons)@),
{
    let ghost before = buttons@;
    let ghost pred = |item: UiaItem| item.rect is Some;
    let ghost mut added: Seq<TaskbarButton> = Seq::empty();
    assert(buttons@ == before + added);
    for i in 0..items.len()
        invariant
            pred == (|item: UiaItem| item.rect is Some),
            buttons@ == before + added,
            describe_all(items@.take(i as int).filter(pred), added),
    {
        proof {
            crate::lists::lemma_filter_step(items@, i as int, pred);
        }
        let item = &items[i];
        if let Some(rect) = item.rect {
            let name = match &item.name {
                Some(name) => name.clone(),
                None => String::new(),
            };
            let process_id: i32 = match item.process_id {
                Some(pid) => pid,
                None => 0,
            };
            let automation_id = clone_text(&item.automation_id);
            let button = TaskbarButton { name, rect, process_id, automation_id };
            assert(describes(*item, button));
            proof {
                added = added.push(button);
            }
            buttons.push(button);
            assert(buttons@ =~= before + added);
        }
    }
    assert(items@.take(items@.len() as int) == items@);
    assert(buttons@.take(before.len() as int) =~= before);
    assert(buttons@.skip(before.len() as int) =~= added);
}

/// Takes over what a bridge window inside the taskbar holds, where it could be read.
///
/// Tells whether the next bridge window is to be read: as long as no button was found.
pub fn collect_from_bridge(
    items: Option<&[UiaItem]>,
    buttons: &mut Vec<TaskbarButton>,
) -> (go_on: bool)
    ensures
        items is None ==> final(buttons)@ == old(buttons)@,
        items matches Some(found) ==> extended_by(old(buttons)@, found@, final(buttons)@),
        go_on == (final(buttons)@.len() == 0),
{
    if let Some(found) = items {
        collect_buttons(found, buttons);
    }
    buttons.len() == 0
}

/// The error that UI Automation reports after the explorer has restarted.
pub open spec fn subscribers_failed(chain: Seq<String>) -> bool {
    exists|i: int| 0 <= i < chain.len() && text::contains_text(#[trigger] chain[i]@, "0x80040201"@)
}

/// Detects the error `EVENT_E_ALL_SUBSCRIBERS_FAILED` in the messages of an error and its causes.
pub fn is_subscribers_failed(chain: &[String]) -> (failed: bool)
    ensures
        failed == subscribers_failed(chain@),
{
    for i in 0..chain.len()
        invariant
            forall|k: int|
                0 <= k < i ==> !text::contains_text(#[trigger] chain@[k]@, "0x80040201"@),
    {
        if str_contains(chain[i].as_str(), "0x80040201") {
            return true;
        }
    }
    false
}

/// How far the reading of one taskbar has come.
#[derive(Debug, Clone, Copy, PartialEq, Eq, Structural)]
pub enum EnumerationPhase {
    /// The taskbar is being read for the first time.
    First,
    /// The taskbars are being looked up again after the explorer has restarted.
    Recovering,
    /// The taskbar is being read for the second and last time.
    Second,
}

/// The reading of one taskbar, with one recovery if the explorer has restarted.
#[derive(Debug, Clone, Copy)]
pub struct Enumeration {
    pub target: isize,
    pub phase: EnumerationPhase,
}

/// What to do after an attempt to read the buttons has failed.
#[derive(Debug, Clone, Copy, PartialEq, Eq, Structural)]
pub enum FailedScan {
    /// Look up the taskbars again.
    Recover,
    /// Give up with this error.
    GiveUp,
}

impl Enumeration {
    /// Starts with the given taskbar.
    pub fn start(target: isize) -> (e: Self)
        ensures
            e.target == target,
            e.phase == EnumerationPhase::First,
    {
        Enumeration { target, phase: EnumerationPhase::First }
    }

    /// What a failure with the given chain of messages leads to: a recovery, where it is the first
    /// one and the explorer has restarted.
    pub open spec fn failed(&self, chain: Seq<String>) -> FailedScan {
        if self.phase == EnumerationPhase::First && subscribers_failed(chain) {
            FailedScan::Recover
        } else {
            FailedScan::GiveUp
        }
    }

    /// The reading after such a failure.
    pub open spec fn after_failure(&self, chain: Seq<String>) -> Enumeration {
        match self.failed(chain) {
            FailedScan::Recover => Enumeration { phase: EnumerationPhase::Recovering, ..*self },
            FailedScan::GiveUp => *self,
        }
    }

    /// The reading after the taskbars were looked up again.
    pub open spec fn after_recovery(&self, taskbars: Seq<isize>) -> Enumeration {
        Enumeration {
            target: if taskbars.len() > 0 {
                taskbars[0]
            } else {
                self.target
            },
            phase: EnumerationPhase::Second,
        }
    }

    /// An attempt to read the buttons has failed with the given chain of messages.
    pub fn scan_failed(&mut self, chain: &[String]) -> (next: FailedScan)
        ensures
            next == old(self).failed(chain@),
            *final(self) == old(self).after_failure(chain@),
    {
        let first = match self.phase {
            EnumerationPhase::First => true,
            _ => false,
        };
        if first && is_subscribers_failed(chain) {
            self.phase = EnumerationPhase::Recovering;
            FailedScan::Recover
        } else {
            FailedScan::GiveUp
        }
    }

    /// The taskbars were looked up again: the first of them is read, the old one where there is
    /// none.
    pub fn recovered(&mut self, taskbars: &[isize]) -> (target: isize)
        ensures
            *final(self) == old(self).after_recovery(taskbars@),
            target == final(self).target,
    {
        if taskbars.len() > 0 {
            self.target = taskbars[0];
        }
        self.phase = EnumerationPhase::Second;
        self.target
    }
}

/// A taskbar is read at most twice: whatever fails after a recovery leads to giving up.
pub proof fn law_one_recovery(
    e: Enumeration,
    chain: Seq<String>,
    taskbars: Seq<isize>,
    later: Seq<String>,
)
    requires
        e.failed(chain) == FailedScan::Recover,
    ensures
        e.after_failure(chain).after_recovery(taskbars).failed(later) == FailedScan::GiveUp,
{
}

/// Buttons left to right.
pub fn arrange_buttons(buttons: Vec<TaskbarButton>) -> (arranged: Vec<TaskbarButton>)
    ensures
        arranged@ == order::in_order(buttons@),
{
    sort(buttons)
}

/// The taskbar windows found: the primary one where it exists, then the secondary ones.
#[derive(Debug)]
pub struct TaskbarSearch {
    pub hwnds: Vec<isize>,
}

impl TaskbarSearch {
    /// Starts with the primary taskbar, absent where it was not found, zero where there is none.
    pub fn start(primary: Option<isize>) -> (search: Self)
        ensures
            search.hwnds@ == match primary {
                Some(h) => if h != 0 {
                    seq![h]
                } else {
                    Seq::empty()
                },
                None => Seq::empty(),
            },
    {
        let mut hwnds: Vec<isize> = Vec::new();
        if let Some(h) = primary {
            if h != 0 {
                hwnds.push(h);
            }
        }
        TaskbarSearch { hwnds }
    }

    /// Takes the next secondary taskbar; zero ends the search. Tells whether to go on.
    pub fn found_secondary(&mut self, secondary: isize) -> (go_on: bool)
        ensures
            go_on == (secondary != 0),
            final(self).hwnds@ == if secondary != 0 {
                old(self).hwnds@.push(secondary)
            } else {
                old(self).hwnds@
            },
    {
        if secondary == 0 {
            return false;
        }
        self.hwnds.push(secondary);
        true
    }
}

/// The index of the first taskbar on the given monitor.
pub open spec fn taskbar_on(monitors: Seq<isize>, monitor: isize, i: int) -> Option<int>
    decreases monitors.len() - i,
{
    if i >= monitors.len() {
        None
    } else if monitors[i] != 0 && monitors[i] == monitor {
        Some(i)
    } else {
        taskbar_on(monitors, monitor, i + 1)
    }
}

proof fn lemma_taskbar_on(monitors: Seq<isize>, monitor: isize, i: int)
    requires
        0 <= i,
    ensures
        taskbar_on(monitors, monitor, i) matches Some(k) ==> i <= k < monitors.len(),
    decreases monitors.len() - i,
{
    if i < monitors.len() {
        lemma_taskbar_on(monitors, monitor, i + 1);
    }
}

/// The button that cycling starts from: that of the source window, the one that was active last
/// where the source has none, the first where that does not exist any more.
pub open spec fn source_button(
    assigned: Seq<Seq<WindowInfo>>,
    source: isize,
    last_active: Option<usize>,
) -> int {
    match button_window::holder(assigned, source, 0) {
        Some(b) => b,
        None => match last_active {
            Some(i) => if i < assigned.len() {
                i as int
            } else {
                0
            },
            None => 0,
        },
    }
}

/// The window to activate: the first of the next button that has any.
pub open spec fn neighbor(
    assigned: Seq<Seq<WindowInfo>>,
    start: int,
    uncombine_enabled: bool,
    direction: CycleDirection,
) -> Option<TargetWindow> {
    match cycle::next_valid(assigned, start, direction) {
        Some(target) => Some(
            TargetWindow {
                name: assigned[target][0].title,
                hwnd: assigned[target][0].hwnd,
                is_grouped: !uncombine_enabled && assigned[target].len() > 1,
            },
        ),
        None => None,
    }
}

/// Why no window was activated.
#[derive(Debug, Clone, Copy, PartialEq, Eq, Structural)]
pub enum CycleError {
    /// There is no window to cycle to.
    NoWindow,
}

/// The window to activate.
#[derive(Debug)]
pub struct Activation {
    pub hwnd: isize,
    /// The title, shortened.
    pub name: String,
    /// Whether it belongs to a grouped button.
    pub is_grouped: bool,
}

impl TaskbarEnumerator {
    /// Creates a new enumerator for the given taskbars.
    pub fn new(taskbars: Vec<isize>) -> (result: Result<Self, EnumeratorError>)
        ensures
            taskbars@.len() == 0 ==> result == Err::<Self, EnumeratorError>(
                EnumeratorError::NoTaskbar,
            ),
            taskbars@.len() > 0 ==> (result matches Ok(e) && {
                &&& e.taskbars@ == taskbars@
                &&& e.cache.button_cache is None
                &&& e.cache.last_desktop_id is None
                &&& e.uia_thread_id == 0
                &&& e.last_active_index is None
            }),
    {
        if taskbars.len() == 0 {
            return Err(EnumeratorError::NoTaskbar);
        }
        Ok(
            TaskbarEnumerator {
                cache: ButtonCacheState::new(),
                taskbars,
                uia_thread_id: 0,
                last_active_index: None,
            },
        )
    }

    /// Remembers the thread that the hooks post to.
    ///
    /// Returns the taskbars on which a hook is to be installed.
    pub fn install_uia_hook(&mut self, main_thread_id: u32) -> (hooks: Vec<isize>)
        ensures
            hooks@ == old(self).taskbars@,
            final(self).uia_thread_id == main_thread_id,
            final(self).taskbars == old(self).taskbars,
            final(self).cache == old(self).cache,
            final(self).last_active_index == old(self).last_active_index,
    {
        self.uia_thread_id = main_thread_id;
        self.hook_targets()
    }

    /// The taskbars, each of which has a hook.
    fn hook_targets(&self) -> (hooks: Vec<isize>)
        ensures
            hooks@ == self.taskbars@,
    {
        let mut hooks: Vec<isize> = Vec::new();
        for i in 0..self.taskbars.len()
            invariant
                hooks@ == self.taskbars@.take(i as int),
        {
            hooks.push(self.taskbars[i]);
        }
        assert(self.taskbars@.take(self.taskbars@.len() as int) == self.taskbars@);
        hooks
    }

    /// Self-recovers after explorer.exe crashes and restarts: takes over the taskbars that were
    /// found now, and forgets the cached buttons and the explorer's PID.
    ///
    /// Returns the taskbars on which a hook is to be installed. Without a taskbar nothing changes.
    pub fn refresh_taskbar_hwnd(
        &mut self,
        found: Vec<isize>,
        explorer: &mut ExplorerPidCache,
    ) -> (hooks: Result<Vec<isize>, EnumeratorError>)
        ensures
            found@.len() == 0 ==> {
                &&& hooks == Err::<Vec<isize>, EnumeratorError>(EnumeratorError::NoTaskbar)
                &&& *final(self) == *old(self)
                &&& *final(explorer) == *old(explorer)
            },
            found@.len() > 0 ==> {
                &&& hooks matches Ok(h) && h@ == found@
                &&& final(self).taskbars@ == found@
                &&& final(self).cache.button_cache is None
                &&& final(self).cache.last_desktop_id == old(self).cache.last_desktop_id
                &&& final(self).uia_thread_id == old(self).uia_thread_id
                &&& final(self).last_active_index == old(self).last_active_index
                &&& !final(explorer).valid
                &&& final(explorer).pid == old(explorer).pid
            },
    {
        if found.len() == 0 {
            return Err(EnumeratorError::NoTaskbar);
        }
        self.taskbars = found;
        self.cache.invalidate_cache();
        invalidate_explorer_pid_cache(explorer);
        Ok(self.hook_targets())
    }

    /// The cached buttons of the taskbar on the monitor, if they may still be used; see
    /// [`ButtonCacheState::lookup`].
    ///
    /// Where nothing is returned, the caller reads the taskbar that [`Self::target_taskbar`] names
    /// and hands its buttons to [`Self::store_buttons`].
    pub fn enumerate_buttons_by_monitor(
        &mut self,
        monitor: isize,
        desktop: Option<u128>,
        now: u64,
    ) -> (cached: Option<Vec<TaskbarButton>>)
        ensures
            cached matches Some(buttons) ==> {
                &&& !old(self).cache.sees_other_desktop(desktop)
                &&& old(self).cache.fresh(monitor, now) == Some(buttons@)
            },
            cached is None ==> old(self).cache.sees_other_desktop(desktop) || old(self).cache.fresh(
                monitor,
                now,
            ) is None,
            final(self).cache.last_desktop_id == if desktop is Some {
                desktop
            } else {
                old(self).cache.last_desktop_id
            },
            final(self).cache.button_cache == if old(self).cache.sees_other_desktop(desktop) {
                None
            } else {
                old(self).cache.button_cache
            },
            final(self).taskbars == old(self).taskbars,
            final(self).uia_thread_id == old(self).uia_thread_id,
            final(self).last_active_index == old(self).last_active_index,
    {
        self.cache.lookup(monitor, desktop, now)
    }

    /// The taskbar to read: the first on the given monitor, the first of all where there is none,
    /// zero without any taskbar.
    ///
    /// `monitors` are the monitors of the taskbars, zero where a taskbar is on none.
    pub fn target_taskbar(&self, monitors: &[isize], monitor: isize) -> (target: isize)
        requires
            monitors@.len() == self.taskbars@.len(),
        ensures
            target == match taskbar_on(monitors@, monitor, 0) {
                Some(i) => self.taskbars@[i],
                None => if self.taskbars@.len() > 0 {
                    self.taskbars@[0]
                } else {
                    0
                },
            },
    {
        for i in 0..monitors.len()
            invariant
                monitors@.len() == self.taskbars@.len(),
                taskbar_on(monitors@, monitor, 0) == taskbar_on(monitors@, monitor, i as int),
        {
            if monitors[i] != 0 && monitors[i] == monitor {
                return self.taskbars[i];
            }
        }
        if self.taskbars.len() > 0 {
            self.taskbars[0]
        } else {
            0
        }
    }

    /// Keeps the buttons that were read for the monitor at the time `now`.
    pub fn store_buttons(&mut self, buttons: &[TaskbarButton], monitor: isize, now: u64)
        ensures
            final(self).cache.button_cache matches Some(cache) && cache.buttons@ == buttons@
                && cache.monitor == monitor && cache.created_at == now,
            final(self).cache.last_desktop_id == old(self).cache.last_desktop_id,
            final(self).taskbars == old(self).taskbars,
            final(self).uia_thread_id == old(self).uia_thread_id,
            final(self).last_active_index == old(self).last_active_index,
    {
        self.cache.store(buttons, monitor, now);
    }

    /// Invalidates the button cache: called upon receiving a UI Automation event.
    pub fn invalidate_cache(&mut self)
        ensures
            final(self).cache.button_cache is None,
            final(self).cache.last_desktop_id == old(self).cache.last_desktop_id,
            final(self).taskbars == old(self).taskbars,
            final(self).uia_thread_id == old(self).uia_thread_id,
            final(self).last_active_index == old(self).last_active_index,
    {
        self.cache.invalidate_cache();
    }

    /// Finds the next window to the left/right of `source` on the taskbar.
    ///
    /// Flow: find the active button, compute the next button with windows, take its first window.
    pub fn find_neighbor_window(
        &mut self,
        source: isize,
        uncombine_enabled: bool,
        direction: CycleDirection,
        buttons: &[TaskbarButton],
        windows: &[WindowInfo],
        explorer_pid: u32,
    ) -> (target: Option<TargetWindow>)
        ensures
            buttons@.len() == 0 ==> target is None && *final(self) == *old(self),
            buttons@.len() > 0 ==> {
                let assigned = button_window::assignment(buttons@, windows@, explorer_pid);
                let holder = button_window::holder(assigned, source, 0);
                &&& target == neighbor(
                    assigned,
                    source_button(assigned, source, old(self).last_active_index),
                    uncombine_enabled,
                    direction,
                )
                &&& holder matches Some(b) ==> final(self).last_active_index == Some(b as usize)
                &&& holder is None ==> final(self).last_active_index == old(
                    self,
                ).last_active_index
                &&& final(self).cache == old(self).cache
                &&& final(self).taskbars == old(self).taskbars
                &&& final(self).uia_thread_id == old(self).uia_thread_id
            },
    {
        if buttons.len() == 0 {
            return None;
        }
        let map = ButtonWindowMap::new(buttons, windows, explorer_pid);
        proof {
            button_window::lemma_assignment_prefix(buttons@, windows@, explorer_pid, 0);
        }
        let ghost assigned = map.assigned();
        let start: usize = match map.find_button_index_by_hwnd(source) {
            Some(b) => {
                self.last_active_index = Some(b);
                b
            },
            None => match self.last_active_index {
                Some(i) => if i < buttons.len() {
                    i
                } else {
                    0
                },
                None => 0,
            },
        };
        assert(start == source_button(assigned, source, old(self).last_active_index));
        proof {
            cycle::law_next_valid_exists(assigned, start as int, direction);
        }
        match get_next_valid_button_index(&map, start, direction) {
            Some(index) => {
                if uncombine_enabled {
                    match map.find_window_by_button(index) {
                        Some(w) => Some(
                            TargetWindow { name: w.title, hwnd: w.hwnd, is_grouped: false },
                        ),
                        None => None,
                    }
                } else {
                    let found = map.find_windows_by_button(index);
                    let is_grouped = found.len() > 1;
                    if found.len() == 0 {
                        None
                    } else {
                        let w = found[0].clone();
                        Some(TargetWindow { name: w.title, hwnd: w.hwnd, is_grouped })
                    }
                }
            },
            None => None,
        }
    }

    /// Cycles to the next window on the taskbar: the window to activate, and its name for the log.
    ///
    /// # Errors
    ///
    /// Returns an error if no window could be found to cycle to.
    pub fn cycle_to_neighbor(
        &mut self,
        foreground: isize,
        uncombine_enabled: bool,
        direction: CycleDirection,
        buttons: &[TaskbarButton],
        windows: &[WindowInfo],
        explorer_pid: u32,
    ) -> (activation: Result<Activation, CycleError>)
        ensures
            ({
                let assigned = button_window::assignment(buttons@, windows@, explorer_pid);
                let target = neighbor(
                    assigned,
                    source_button(assigned, foreground, old(self).last_active_index),
                    uncombine_enabled,
                    direction,
                );
                &&& activation is Ok <==> buttons@.len() > 0 && target is Some
                &&& activation matches Err(e) ==> e == CycleError::NoWindow
                &&& activation matches Ok(a) ==> {
                    &&& a.hwnd == target->0.hwnd
                    &&& a.name@ == utils::truncated(target->0.name@, 30)
                    &&& a.is_grouped == target->0.is_grouped
                }
            }),
            buttons@.len() > 0 ==> {
                let assigned = button_window::assignment(buttons@, windows@, explorer_pid);
                let holder = button_window::holder(assigned, foreground, 0);
                &&& holder matches Some(b) ==> final(self).last_active_index == Some(b as usize)
                &&& holder is None ==> final(self).last_active_index == old(
                    self,
                ).last_active_index
            },
            buttons@.len() == 0 ==> final(self).last_active_index == old(self).last_active_index,
            final(self).cache == old(self).cache,
            final(self).taskbars == old(self).taskbars,
            final(self).uia_thread_id == old(self).uia_thread_id,
    {
        let target = self.find_neighbor_window(
            foreground,
            uncombine_enabled,
            direction,
            buttons,
            windows,
            explorer_pid,
        );
        match target {
            Some(target) => Ok(
                Activation {
                    hwnd: target.hwnd,
                    name: truncate(target.name.as_str(), 30),
                    is_grouped: target.is_grouped,
                },
            ),
            None => Err(CycleError::NoWindow),
        }
    }
}

/// The next press goes on from the button whose window was activated: that is its source.
pub proof fn law_cycling_goes_on(
    buttons: Seq<TaskbarButton>,
    windows: Seq<WindowInfo>,
    explorer_pid: u32,
    start: int,
    uncombine_enabled: bool,
    direction: CycleDirection,
    last_active: Option<usize>,
)
    requires
        0 <= start < buttons.len(),
    ensures
        ({
            let assigned = button_window::assignment(buttons, windows, explorer_pid);
            neighbor(assigned, start, uncombine_enabled, direction) matches Some(target)
                ==> cycle::next_valid(assigned, start, direction) == Some(
                source_button(assigned, target.hwnd, last_active),
            )
        }),
{
    let assigned = button_window::assignment(buttons, windows, explorer_pid);
    button_window::lemma_assignment_prefix(buttons, windows, explorer_pid, 0);
    cycle::law_next_valid_exists(assigned, start, direction);
    if let Some(b) = cycle::next_valid(assigned, start, direction) {
        assert(button_window::holds(assigned[b], assigned[b][0].hwnd));
        button_window::law_holder_is_the_button(
            buttons,
            windows,
            explorer_pid,
            assigned[b][0].hwnd,
            b,
        );
    }
}

/// Cycling one way and then the other activates the first window of the button that the cycle
/// started from, where that has any.
pub proof fn law_cycling_there_and_back(
    buttons: Seq<TaskbarButton>,
    windows: Seq<WindowInfo>,
    explorer_pid: u32,
    start: int,
    uncombine_enabled: bool,
    direction: CycleDirection,
    last_active: Option<usize>,
)
    requires
        0 <= start < buttons.len(),
        button_window::assignment(buttons, windows, explorer_pid)[start].len() > 0,
    ensures
        ({
            let assigned = button_window::assignment(buttons, windows, explorer_pid);
            &&& neighbor(assigned, start, uncombine_enabled, direction) matches Some(target)
            &&& neighbor(
                assigned,
                source_button(assigned, target.hwnd, last_active),
                uncombine_enabled,
                cycle::reversed(direction),
            ) matches Some(back)
            &&& back.hwnd == assigned[start][0].hwnd
        }),
{
    let assigned = button_window::assignment(buttons, windows, explorer_pid);
    button_window::lemma_assignment_prefix(buttons, windows, explorer_pid, 0);
    cycle::law_cycle_there_and_back(assigned, start, direction);
    law_cycling_goes_on(
        buttons,
        windows,
        explorer_pid,
        start,
        uncombine_enabled,
        direction,
        last_active,
    );
}

/// A window is always found to cycle to where any visible window belongs to a button.
pub proof fn law_neighbor_is_found(
    assigned: Seq<Seq<WindowInfo>>,
    start: int,
    uncombine_enabled: bool,
    direction: CycleDirection,
)
    requires
        0 <= start < assigned.len(),
    ensures
        neighbor(assigned, start, uncombine_enabled, direction) is Some <==> exists|b: int|
            0 <= b < assigned.len() && (#[trigger] assigned[b]).len() > 0,
{
    cycle::law_next_valid_exists(assigned, start, direction);
}

/// The taskbar on a monitor is the first one there; zero is no monitor.
pub proof fn law_first_taskbar_on_the_monitor(monitors: Seq<isize>, monitor: isize, i: int)
    ensures
        taskbar_on(monitors, monitor, 0) is None <==> monitor == 0 || !monitors.contains(monitor),
        taskbar_on(monitors, monitor, 0) == Some(i) <==> {
            &&& 0 <= i < monitors.len()
            &&& monitor != 0
            &&& monitors[i] == monitor
            &&& forall|k: int| 0 <= k < i ==> #[trigger] monitors[k] != monitor
        },
{
    lemma_first_taskbar(monitors, monitor, 0);
    if let Some(k) = taskbar_on(monitors, monitor, 0) {
        assert(monitors[k] == monitor);
    } else if monitors.contains(monitor) {
        let k = choose|k: int| 0 <= k < monitors.len() && monitors[k] == monitor;
        assert(monitors[k] == monitor);
    }
}

proof fn lemma_first_taskbar(monitors: Seq<isize>, monitor: isize, from: int)
    requires
        0 <= from,
    ensures
        taskbar_on(monitors, monitor, from) matches Some(k) ==> {
            &&& from <= k < monitors.len()
            &&& monitor != 0
            &&& monitors[k] == monitor
            &&& forall|j: int| from <= j < k ==> #[trigger] monitors[j] != monitor
        },
        taskbar_on(monitors, monitor, from) is None ==> monitor == 0 || forall|j: int|
            from <= j < monitors.len() ==> #[trigger] monitors[j] != monitor,
    decreases monitors.len() - from,
{
    if from < monitors.len() {
        lemma_first_taskbar(monitors, monitor, from + 1);
    }
}

/// Cycling starts from the button that has the source window. Where none has it, cycling starts from
/// the button that was active last, or from the first where there is no such button.
pub proof fn law_cycling_starts_from_the_source(
    assigned: Seq<Seq<WindowInfo>>,
    source: isize,
    last_active: Option<usize>,
)
    requires
        assigned.len() > 0,
    ensures
        ({
            let start = source_button(assigned, source, last_active);
            &&& 0 <= start < assigned.len()
            &&& button_window::any_holds(assigned, source) ==> button_window::holds(
                assigned[start],
                source,
            ) && forall|b: int|
                0 <= b < start ==> !#[trigger] button_window::holds(assigned[b], source)
            &&& !button_window::any_holds(assigned, source) ==> match last_active {
                Some(i) => start == i || (start == 0 && i >= assigned.len()),
                None => start == 0,
            }
        }),
{
    lemma_first_holder(assigned, source, 0);
    if button_window::holder(assigned, source, 0) is None {
        assert(!button_window::any_holds(assigned, source));
    }
}

proof fn lemma_first_holder(assigned: Seq<Seq<WindowInfo>>, hwnd: isize, from: int)
    requires
        0 <= from,
    ensures
        button_window::holder(assigned, hwnd, from) matches Some(h) ==> {
            &&& from <= h < assigned.len()
            &&& button_window::holds(assigned[h], hwnd)
            &&& forall|b: int|
                from <= b < h ==> !#[trigger] button_window::holds(assigned[b], hwnd)
        },
        button_window::holder(assigned, hwnd, from) is None ==> forall|b: int|
            from <= b < assigned.len() ==> !#[trigger] button_window::holds(assigned[b], hwnd),
    decreases assigned.len() - from,
{
    if from < assigned.len() && !button_window::holds(assigned[from], hwnd) {
        lemma_first_holder(assigned, hwnd, from + 1);
    }
}

/// The window cycled to is the leftmost one of the nearest button with windows, to the right or to the
/// left as asked. It counts as grouped exactly if the button has other windows too and windows are
/// not uncombined.
pub proof fn law_neighbor_is_leftmost_of_the_nearest_button(
    buttons: Seq<TaskbarButton>,
    windows: Seq<WindowInfo>,
    explorer_pid: u32,
    start: int,
    uncombine_enabled: bool,
    direction: CycleDirection,
    target: TargetWindow,
) -> (t: int)
    requires
        0 <= start < buttons.len(),
        neighbor(
            button_window::assignment(buttons, windows, explorer_pid),
            start,
            uncombine_enabled,
            direction,
        ) == Some(target),
    ensures
        ({
            let assigned = button_window::assignment(buttons, windows, explorer_pid);
            &&& 0 <= t < assigned.len() == buttons.len()
            &&& assigned[t].len() > 0
            &&& target.hwnd == assigned[t].first().hwnd
            &&& target.name == assigned[t].first().title
            &&& forall|k: int|
                0 <= k < assigned[t].len() ==> assigned[t].first().rect.left <= (
                #[trigger] assigned[t][k]).rect.left
            &&& target.is_grouped <==> !uncombine_enabled && assigned[t].len() >= 2
            &&& direction == CycleDirection::Forward ==> forall|b: int|
                (start < b < t || t <= start < b < assigned.len() || 0 <= b < t <= start) ==> (
                #[trigger] assigned[b]).len() == 0
            &&& direction == CycleDirection::Backward ==> forall|b: int|
                (t < b < start || 0 <= b < start <= t || start <= t < b < assigned.len()) ==> (
                #[trigger] assigned[b]).len() == 0
        }),
{
    let assigned = button_window::assignment(buttons, windows, explorer_pid);
    button_window::lemma_assignment_prefix(buttons, windows, explorer_pid, 0);
    let t = cycle::next_valid(assigned, start, direction)->0;
    cycle::law_next_valid_exists(assigned, start, direction);
    match direction {
        CycleDirection::Forward => {
            cycle::law_forward_is_the_nearest_to_the_right(assigned, start, t);
        },
        CycleDirection::Backward => {
            cycle::law_backward_is_the_nearest_to_the_left(assigned, start, t);
        },
    }
    assert forall|k: int| 0 <= k < assigned[t].len() implies assigned[t][0].rect.left <= (
    #[trigger] assigned[t][k]).rect.left by {
        if k > 0 {
            button_window::law_assigned_windows_stand_by_left_edge(
                buttons,
                windows,
                explorer_pid,
                t,
                0,
                k,
            );
        }
    }
    t
}

/// The taskbars are looked up again exactly after the first failure that names the error of a
/// restarted explorer; then the first taskbar found is read, the same one where none was found.
pub proof fn law_recovery_reads_the_first_taskbar(
    e: Enumeration,
    chain: Seq<String>,
    taskbars: Seq<isize>,
)
    ensures
        e.failed(chain) == FailedScan::Recover <==> e.phase == EnumerationPhase::First
            && exists|i: int|
            0 <= i < chain.len() && text::contains_text(#[trigger] chain[i]@, "0x80040201"@),
        e.failed(chain) == FailedScan::GiveUp ==> e.after_failure(chain) == e,
        e.after_failure(chain).target == e.target,
        e.failed(chain) == FailedScan::Recover ==> e.after_failure(chain).phase
            == EnumerationPhase::Recovering,
        e.after_recovery(taskbars).phase == EnumerationPhase::Second,
        taskbars.len() == 0 ==> e.after_recovery(taskbars).target == e.target,
        taskbars.len() > 0 ==> e.after_recovery(taskbars).target == taskbars.first(),
{
}

/// Every element with a position has its button, and no other has one: the buttons added are as many,
/// in the same order, with what the elements tell.
pub proof fn law_buttons_follow_the_elements(
    before: Seq<TaskbarButton>,
    items: Seq<UiaItem>,
    after: Seq<TaskbarButton>,
    m: int,
)
    requires
        extended_by(before, items, after),
        0 <= m < items.filter(|item: UiaItem| item.rect is Some).len(),
    ensures
        after.len() == before.len() + items.filter(|item: UiaItem| item.rect is Some).len(),
        forall|i: int| 0 <= i < before.len() ==> #[trigger] after[i] == before[i],
        ({
            let item = items.filter(|item: UiaItem| item.rect is Some)[m];
            let button = after[before.len() + m];
            &&& item.rect == Some(button.rect)
            &&& button.automation_id == item.automation_id
            &&& item.name matches Some(name) ==> button.name@ == name@
            &&& item.name is None ==> button.name@.len() == 0
            &&& item.process_id matches Some(pid) ==> button.process_id == pid
            &&& item.process_id is None ==> button.process_id == 0
        }),
{
    let n = before.len() as int;
    let placed = items.filter(|item: UiaItem| item.rect is Some);
    assert(placed_items(items) == placed);
    assert forall|i: int| 0 <= i < before.len() implies #[trigger] after[i] == before[i] by {
        assert(after.take(n)[i] == after[i]);
    }
    assert(describes(placed[m], after.skip(n)[m]));
    assert(after[n + m] == after.skip(n)[m]);
}

} // verus!
