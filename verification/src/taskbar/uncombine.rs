//! Manages uncombining taskbar buttons.
//!
//! On Windows, the taskbar defaults to grouping (`combine`) multiple windows of the same app into
//! a single button. This mechanism is based on the **AppUserModelID (AUMID)**: windows with the
//! same AUMID are grouped.
//!
//! `UncombineManager` gives a window a **unique** AUMID of the form `TaskbarSwitcher_<HWND>`, so
//! that it gets its own taskbar button. The original AUMID of each such window is kept, so that it
//! can be **restored** when the app exits.
//!
//! The manager decides; the caller writes the AUMIDs that it returns to the windows.

use std::collections::HashMap;
use vstd::prelude::*;
use vstd::string::*;

use crate::parsing::copy_chars;
use crate::text;
use crate::text::{chars_eq, chars_of, signed_decimal_text};
use crate::types::{clone_text, WindowInfo};

verus! {

/// A window that gets an AUMID of its own.
#[derive(Debug)]
pub struct AumidChange {
    pub hwnd: isize,
    pub aumid: String,
}

/// A window that gets its original AUMID back; none clears the property.
#[derive(Debug)]
pub struct AumidRestore {
    pub hwnd: isize,
    pub aumid: Option<String>,
}

/// The AUMID that only this window has.
pub open spec fn unique_aumid(hwnd: isize) -> Seq<char> {
    "TaskbarSwitcher_"@ + text::signed_decimal(hwnd as int)
}

/// What windows on one taskbar button have in common: the AUMID, without one the executable.
pub open spec fn group_key(w: WindowInfo) -> Seq<char> {
    match w.aumid {
        Some(aumid) => "AUMID:"@ + aumid@,
        None => "EXE:"@ + w.process_name@,
    }
}

/// The number of windows in a group.
pub open spec fn group_size(windows: Seq<WindowInfo>, key: Seq<char>) -> nat
    decreases windows.len(),
{
    if windows.len() == 0 {
        0
    } else {
        group_size(windows.drop_last(), key) + if group_key(windows.last()) == key {
            1nat
        } else {
            0
        }
    }
}

/// The state of a pass over the windows.
pub struct Pass {
    /// The windows with an AUMID of their own, each with its original AUMID.
    pub originals: Map<isize, Option<String>>,
    /// The groups whose first window was passed, which keeps its AUMID.
    pub spared: Set<Seq<char>>,
    /// The windows that were given an AUMID of their own, in order.
    pub changed: Seq<isize>,
}

/// One window in a pass: the first of a group of several is spared, the next ones are changed.
pub open spec fn pass_window(all: Seq<WindowInfo>, before: Pass, w: WindowInfo) -> Pass {
    let key = group_key(w);
    if before.originals.dom().contains(w.hwnd) || group_size(all, key) <= 1 {
        before
    } else if !before.spared.contains(key) {
        Pass { spared: before.spared.insert(key), ..before }
    } else {
        Pass {
            originals: before.originals.insert(w.hwnd, w.aumid),
            changed: before.changed.push(w.hwnd),
            ..before
        }
    }
}

/// A pass over `windows`, which are the first ones of `all`.
pub open spec fn pass_over(
    all: Seq<WindowInfo>,
    windows: Seq<WindowInfo>,
    originals: Map<isize, Option<String>>,
) -> Pass
    decreases windows.len(),
{
    if windows.len() == 0 {
        Pass { originals, spared: Set::empty(), changed: Seq::empty() }
    } else {
        pass_window(all, pass_over(all, windows.drop_last(), originals), windows.last())
    }
}

/// The position of the window `hwnd`; the number of windows where it is not there.
pub open spec fn position_of(windows: Seq<WindowInfo>, hwnd: isize, i: int) -> int
    decreases windows.len() - i,
{
    if i >= windows.len() {
        windows.len() as int
    } else if windows[i].hwnd == hwnd {
        i
    } else {
        position_of(windows, hwnd, i + 1)
    }
}

/// A new window is uncombined if it is visible and not tracked, and shares its group.
pub open spec fn takes_own_button(
    windows: Seq<WindowInfo>,
    originals: Map<isize, Option<String>>,
    hwnd: isize,
) -> bool {
    let i = position_of(windows, hwnd, 0);
    &&& !originals.dom().contains(hwnd)
    &&& i < windows.len()
    &&& group_size(windows, group_key(windows[i])) > 1
}

/// The changes give each of the windows its own AUMID, in order.
pub open spec fn announces(changes: Seq<AumidChange>, changed: Seq<isize>) -> bool {
    &&& changes.len() == changed.len()
    &&& forall|i: int|
        0 <= i < changes.len() ==> {
            &&& (#[trigger] changes[i]).hwnd == changed[i]
            &&& changes[i].aumid@ == unique_aumid(changed[i])
        }
}

/// The list gives each tracked window its original AUMID back, once and in any order.
pub open spec fn gives_back(
    restores: Seq<AumidRestore>,
    originals: Map<isize, Option<String>>,
) -> bool {
    &&& restores.len() == originals.dom().len()
    &&& forall|i: int|
        0 <= i < restores.len() ==> {
            &&& originals.dom().contains((#[trigger] restores[i]).hwnd)
            &&& restores[i].aumid == originals[restores[i].hwnd]
        }
    &&& forall|hwnd: isize| #[trigger]
        originals.dom().contains(hwnd) ==> exists|i: int|
            0 <= i < restores.len() && (#[trigger] restores[i]).hwnd == hwnd
}

/// The group key of a window.
pub fn key_of(w: &WindowInfo) -> (key: Vec<char>)
    ensures
        key@ == group_key(*w),
{
    let mut key: String = String::new();
    match &w.aumid {
        Some(aumid) => {
            key.append("AUMID:");
            key.append(aumid.as_str());
        },
        None => {
            key.append("EXE:");
            key.append(w.process_name.as_str());
        },
    }
    assert(key@ =~= group_key(*w));
    chars_of(key.as_str())
}

/// The AUMID that only this window has.
pub fn own_aumid(hwnd: isize) -> (aumid: String)
    ensures
        aumid@ == unique_aumid(hwnd),
{
    let mut aumid: String = String::new();
    aumid.append("TaskbarSwitcher_");
    aumid.append(signed_decimal_text(hwnd).as_str());
    assert(aumid@ =~= unique_aumid(hwnd));
    aumid
}

/// The list holds the keys of the set.
spec fn holds_keys(list: Seq<Vec<char>>, keys: Set<Seq<char>>) -> bool {
    forall|key: Seq<char>| #[trigger]
        keys.contains(key) <==> exists|i: int| 0 <= i < list.len() && (#[trigger] list[i])@ == key
}

proof fn lemma_pushed(
    list: Seq<Vec<char>>,
    longer: Seq<Vec<char>>,
    keys: Set<Seq<char>>,
    key: Seq<char>,
)
    requires
        holds_keys(list, keys),
        longer.len() == list.len() + 1,
        longer.drop_last() == list,
        longer.last()@ == key,
    ensures
        holds_keys(longer, keys.insert(key)),
{
    let more = keys.insert(key);
    assert forall|k: Seq<char>| #[trigger] more.contains(k) <==> exists|i: int|
        0 <= i < longer.len() && (#[trigger] longer[i])@ == k by {
        if more.contains(k) {
            if keys.contains(k) {
                let i = choose|i: int| 0 <= i < list.len() && (#[trigger] list[i])@ == k;
                assert(longer.drop_last()[i] == list[i]);
                assert(longer[i]@ == k);
            } else {
                assert(longer[list.len() as int]@ == k);
            }
        }
        if exists|i: int| 0 <= i < longer.len() && (#[trigger] longer[i])@ == k {
            let i = choose|i: int| 0 <= i < longer.len() && (#[trigger] longer[i])@ == k;
            if i < list.len() {
                assert(longer.drop_last()[i] == list[i]);
                assert(list[i]@ == k);
                assert(keys.contains(k));
            }
        }
    }
}

fn keys_of(windows: &[WindowInfo]) -> (keys: Vec<Vec<char>>)
    ensures
        keys@.len() == windows@.len(),
        forall|i: int| 0 <= i < windows@.len() ==> (#[trigger] keys@[i])@ == group_key(windows@[i]),
{
    let mut keys: Vec<Vec<char>> = Vec::new();
    for i in 0..windows.len()
        invariant
            keys@.len() == i,
            forall|k: int| 0 <= k < i ==> (#[trigger] keys@[k])@ == group_key(windows@[k]),
    {
        keys.push(key_of(&windows[i]));
    }
    keys
}

fn count_group(windows: &[WindowInfo], keys: &[Vec<char>], key: &[char]) -> (count: usize)
    requires
        keys@.len() == windows@.len(),
        forall|i: int| 0 <= i < windows@.len() ==> (#[trigger] keys@[i])@ == group_key(windows@[i]),
    ensures
        count == group_size(windows@, key@),
{
    let mut count: usize = 0;
    for i in 0..keys.len()
        invariant
            keys@.len() == windows@.len(),
            count <= i,
            count == group_size(windows@.take(i as int), key@),
            forall|k: int|
                0 <= k < windows@.len() ==> (#[trigger] keys@[k])@ == group_key(windows@[k]),
    {
        assert(windows@.take(i + 1).drop_last() =~= windows@.take(i as int));
        if chars_eq(&keys[i], key) {
            count = count + 1;
        }
    }
    assert(windows@.take(windows@.len() as int) =~= windows@);
    count
}

fn contains_key(keys: &[Vec<char>], key: &[char]) -> (found: bool)
    ensures
        found == exists|i: int| 0 <= i < keys@.len() && (#[trigger] keys@[i])@ == key@,
{
    for i in 0..keys.len()
        invariant
            forall|k: int| 0 <= k < i ==> (#[trigger] keys@[k])@ != key@,
    {
        if chars_eq(&keys[i], key) {
            return true;
        }
    }
    false
}

/// Keeps the original AUMID of each window that was given one of its own.
pub struct UncombineManager {
    /// The original AUMID by window handle; none where the window had no AUMID (for instance a
    /// console window).
    original_aumids: HashMap<isize, Option<String>>,
}

impl UncombineManager {
    /// The tracked windows, each with its original AUMID.
    pub closed spec fn originals(&self) -> Map<isize, Option<String>> {
        self.original_aumids@
    }

    /// Creates a new instance that tracks no window.
    pub fn new() -> (manager: Self)
        ensures
            manager.originals() == Map::<isize, Option<String>>::empty(),
    {
        UncombineManager { original_aumids: HashMap::new() }
    }

    /// Checks if a window is already tracked by uncombine.
    ///
    /// Used for quick filtering, to avoid messages for windows that are already uncombined.
    pub fn is_tracked(&self, hwnd: isize) -> (r: bool)
        ensures
            r == self.originals().dom().contains(hwnd),
    {
        broadcast use vstd::std_specs::hash::group_hash_axioms;

        self.original_aumids.contains_key(&hwnd)
    }

    /// Uncombines **all** visible windows on the desktop, given with the AUMID that each has now.
    ///
    /// Only uncombines when 2 or more windows of the same app (same AUMID or process name) are
    /// detected. The first window (anchor) keeps its original AUMID to not lose its icon.
    pub fn uncombine_all(&mut self, windows: &[WindowInfo]) -> (changes: Vec<AumidChange>)
        ensures
            ({
                let pass = pass_over(windows@, windows@, old(self).originals());
                &&& final(self).originals() == pass.originals
                &&& announces(changes@, pass.changed)
            }),
    {
        broadcast use vstd::std_specs::hash::group_hash_axioms;

        let keys = keys_of(windows);
        let mut spared: Vec<Vec<char>> = Vec::new();
        let mut changes: Vec<AumidChange> = Vec::new();
        let ghost originals = self.originals();
        for i in 0..windows.len()
            invariant
                keys@.len() == windows@.len(),
                forall|k: int|
                    0 <= k < windows@.len() ==> (#[trigger] keys@[k])@ == group_key(windows@[k]),
                ({
                    let pass = pass_over(windows@, windows@.take(i as int), originals);
                    &&& self.originals() == pass.originals
                    &&& holds_keys(spared@, pass.spared)
                    &&& announces(changes@, pass.changed)
                }),
        {
            let ghost before = pass_over(windows@, windows@.take(i as int), originals);
            let ghost after = pass_over(windows@, windows@.take(i + 1), originals);
            assert(windows@.take(i + 1).drop_last() =~= windows@.take(i as int));
            assert(after == pass_window(windows@, before, windows@[i as int]));
            let hwnd: isize = windows[i].hwnd;
            let is_tracked = self.original_aumids.contains_key(&hwnd);
            if !is_tracked && count_group(windows, &keys, &keys[i]) > 1 {
                if !contains_key(&spared, &keys[i]) {
                    let ghost earlier = spared@;
                    spared.push(copy_chars(&keys[i]));
                    proof {
                        assert(spared@.drop_last() =~= earlier);
                        lemma_pushed(earlier, spared@, before.spared, keys@[i as int]@);
                    }
                } else {
                    let original = clone_text(&windows[i].aumid);
                    let aumid = own_aumid(hwnd);
                    self.original_aumids.insert(hwnd, original);
                    changes.push(AumidChange { hwnd, aumid });
                }
            }
        }
        assert(windows@.take(windows@.len() as int) =~= windows@);
        changes
    }

    /// Uncombines a **single** new window; `windows` are the visible ones, given with the AUMID
    /// that each has now.
    ///
    /// Only uncombines if there is another window of the same app already visible (anchor window).
    pub fn uncombine_one(&mut self, hwnd: isize, windows: &[WindowInfo]) -> (change: Option<
        AumidChange,
    >)
        ensures
            change is Some <==> takes_own_button(windows@, old(self).originals(), hwnd),
            change matches Some(c) ==> {
                &&& c.hwnd == hwnd
                &&& c.aumid@ == unique_aumid(hwnd)
                &&& final(self).originals() == old(self).originals().insert(
                    hwnd,
                    windows@[position_of(windows@, hwnd, 0)].aumid,
                )
            },
            change is None ==> final(self).originals() == old(self).originals(),
    {
        broadcast use vstd::std_specs::hash::group_hash_axioms;

        if self.original_aumids.contains_key(&hwnd) {
            return None;
        }
        let target: usize = match find_window(windows, hwnd) {
            Some(i) => i,
            None => {
                return None;
            },
        };
        let keys = keys_of(windows);
        if count_group(windows, &keys, &keys[target]) <= 1 {
            return None;
        }
        let original = clone_text(&windows[target].aumid);
        let aumid = own_aumid(hwnd);
        self.original_aumids.insert(hwnd, original);
        Some(AumidChange { hwnd, aumid })
    }

    /// Restores **all** original AUMIDs, in no particular order, and tracks no window any more.
    ///
    /// A window that had an original AUMID gets it back; one that had none is cleared.
    pub fn restore_all(&mut self) -> (restores: Vec<AumidRestore>)
        ensures
            final(self).originals() == Map::<isize, Option<String>>::empty(),
            gives_back(restores@, old(self).originals()),
    {
        broadcast use vstd::std_specs::hash::group_hash_axioms;

        let mut restores: Vec<AumidRestore> = Vec::new();
        let ghost originals = self.originals();
        let ghost entries = vstd::std_specs::iter::IteratorSpec::remaining(
            &vstd::std_specs::hash::spec_hash_map_iter(&self.original_aumids),
        );
        for (hwnd, original) in it: self.original_aumids.iter()
            invariant
                originals == self.original_aumids@,
                it.seq() == entries,
                restores@.len() == it.index(),
                forall|i: int|
                    0 <= i < restores@.len() ==> {
                        &&& (#[trigger] restores@[i]).hwnd == *entries[i].0
                        &&& restores@[i].aumid == *entries[i].1
                    },
        {
            restores.push(AumidRestore { hwnd: *hwnd, aumid: clone_text(original) });
        }
        assert forall|hwnd: isize| #[trigger] originals.dom().contains(hwnd) implies exists|i: int|
            0 <= i < restores@.len() && (#[trigger] restores@[i]).hwnd == hwnd by {
            assert(originals.contains_key(hwnd));
            let entry = (&hwnd, &originals[hwnd]);
            assert(entries.contains(entry));
            let i = choose|i: int| 0 <= i < entries.len() && entries[i] == entry;
            assert(restores@[i].hwnd == hwnd);
        }
        self.original_aumids.clear();
        restores
    }
}

fn find_window(windows: &[WindowInfo], hwnd: isize) -> (index: Option<usize>)
    ensures
        index matches Some(i) ==> i < windows@.len() && i == position_of(windows@, hwnd, 0)
            && windows@[i as int].hwnd == hwnd,
        index is None ==> position_of(windows@, hwnd, 0) == windows@.len(),
{
    for i in 0..windows.len()
        invariant
            position_of(windows@, hwnd, 0) == position_of(windows@, hwnd, i as int),
    {
        if windows[i].hwnd == hwnd {
            return Some(i);
        }
    }
    None
}

/// No two windows have the same handle.
pub open spec fn distinct(windows: Seq<WindowInfo>) -> bool {
    forall|i: int, j: int|
        #![trigger windows[i], windows[j]]
        0 <= i < j < windows.len() ==> windows[i].hwnd != windows[j].hwnd
}

/// The AUMIDs by window handle; none where a window has no AUMID.
pub open spec fn text_of_aumid(aumid: Option<String>) -> Option<Seq<char>> {
    match aumid {
        Some(s) => Some(s@),
        None => None,
    }
}

/// What makes a pass change a window: it is not tracked, and some earlier window of its group is
/// not tracked either.
spec fn changes_at(all: Seq<WindowInfo>, originals: Map<isize, Option<String>>, i: int) -> bool {
    &&& !originals.dom().contains(all[i].hwnd)
    &&& group_size(all, group_key(all[i])) > 1
    &&& exists|j: int|
        0 <= j < i && group_key(#[trigger] all[j]) == group_key(all[i])
            && !originals.dom().contains(all[j].hwnd)
}

/// A pass keeps what was there, and what it adds are windows that it changed.
proof fn lemma_pass(all: Seq<WindowInfo>, n: int, originals: Map<isize, Option<String>>)
    requires
        0 <= n <= all.len(),
    ensures
        ({
            let pass = pass_over(all, all.take(n), originals);
            &&& forall|h: isize| #[trigger]
                originals.dom().contains(h) ==> pass.originals.dom().contains(h)
                    && pass.originals[h] == originals[h]
            &&& forall|h: isize| #[trigger]
                pass.originals.dom().contains(h) ==> originals.dom().contains(h)
                    || pass.changed.contains(h)
            &&& forall|h: isize| #[trigger]
                pass.changed.contains(h) ==> pass.originals.dom().contains(h) && exists|i: int|
                    0 <= i < n && #[trigger] changes_at(all, originals, i) && all[i].hwnd == h
                        && pass.originals[h] == all[i].aumid
            &&& forall|key: Seq<char>| #[trigger]
                pass.spared.contains(key) ==> exists|j: int|
                    0 <= j < n && group_key(#[trigger] all[j]) == key && !originals.dom().contains(
                        all[j].hwnd,
                    )
            &&& forall|i: int|
                0 <= i < n && !pass.originals.dom().contains((#[trigger] all[i]).hwnd)
                    && group_size(all, group_key(all[i])) > 1 ==> pass.spared.contains(
                    group_key(all[i]),
                )
        }),
    decreases n,
{
    let pass = pass_over(all, all.take(n), originals);
    if n > 0 {
        lemma_pass(all, n - 1, originals);
        let before = pass_over(all, all.take(n - 1), originals);
        let w = all[n - 1];
        assert(all.take(n).drop_last() =~= all.take(n - 1));
        assert(pass == pass_window(all, before, w));
        assert forall|h: isize| #[trigger] pass.originals.dom().contains(h) implies originals.dom().contains(
            h,
        ) || pass.changed.contains(h) by {
            if before.originals.dom().contains(h) {
                if before.changed.contains(h) {
                    let k = choose|k: int| 0 <= k < before.changed.len() && before.changed[k] == h;
                    assert(pass.changed[k] == h);
                }
            } else {
                assert(pass.changed.last() == h);
            }
        }
        assert forall|h: isize| #[trigger] pass.changed.contains(h) implies (
        pass.originals.dom().contains(h) && exists|i: int|
            0 <= i < n && #[trigger] changes_at(all, originals, i) && all[i].hwnd == h
                && pass.originals[h] == all[i].aumid) by {
            let k = choose|k: int| 0 <= k < pass.changed.len() && pass.changed[k] == h;
            if k < before.changed.len() {
                assert(before.changed[k] == h);
                assert(before.changed.contains(h));
            } else {
                assert(before.spared.contains(group_key(w)));
                assert(changes_at(all, originals, n - 1));
            }
        }
        assert forall|key: Seq<char>| #[trigger] pass.spared.contains(key) implies exists|j: int|
            0 <= j < n && group_key(#[trigger] all[j]) == key && !originals.dom().contains(
                all[j].hwnd,
            ) by {
            if !before.spared.contains(key) {
                assert(group_key(all[n - 1]) == key);
            }
        }
    }
}

/// The original AUMIDs are those that the windows had at first, and the windows without an AUMID
/// of their own still have theirs.
pub open spec fn faithful(
    originals: Map<isize, Option<String>>,
    first: spec_fn(isize) -> Option<Seq<char>>,
    now: spec_fn(isize) -> Option<Seq<char>>,
) -> bool {
    &&& forall|h: isize| #[trigger]
        originals.dom().contains(h) ==> text_of_aumid(originals[h]) == first(h)
    &&& forall|h: isize| !#[trigger] originals.dom().contains(h) ==> now(h) == first(h)
}

/// The list tells of each window that is not tracked the AUMID that it has now.
pub open spec fn up_to_date(
    windows: Seq<WindowInfo>,
    originals: Map<isize, Option<String>>,
    now: spec_fn(isize) -> Option<Seq<char>>,
) -> bool {
    forall|i: int|
        0 <= i < windows.len() && !originals.dom().contains((#[trigger] windows[i]).hwnd)
            ==> text_of_aumid(windows[i].aumid) == now(windows[i].hwnd)
}

/// The AUMIDs after the original ones were written back.
pub open spec fn restored(
    originals: Map<isize, Option<String>>,
    now: spec_fn(isize) -> Option<Seq<char>>,
) -> spec_fn(isize) -> Option<Seq<char>> {
    |h: isize|
        if originals.dom().contains(h) {
            text_of_aumid(originals[h])
        } else {
            now(h)
        }
}

/// Uncombining all windows keeps the original AUMIDs faithful, whether or not the new AUMIDs could
/// be written: `after` are the AUMIDs afterwards, which differ at most for the changed windows.
pub proof fn law_uncombine_all_is_faithful(
    windows: Seq<WindowInfo>,
    originals: Map<isize, Option<String>>,
    first: spec_fn(isize) -> Option<Seq<char>>,
    now: spec_fn(isize) -> Option<Seq<char>>,
    after: spec_fn(isize) -> Option<Seq<char>>,
)
    requires
        faithful(originals, first, now),
        up_to_date(windows, originals, now),
        forall|h: isize|
            !#[trigger] pass_over(windows, windows, originals).changed.contains(h) ==> after(h)
                == now(h),
    ensures
        faithful(pass_over(windows, windows, originals).originals, first, after),
{
    let pass = pass_over(windows, windows, originals);
    assert(windows.take(windows.len() as int) =~= windows);
    lemma_pass(windows, windows.len() as int, originals);
    assert forall|h: isize| #[trigger] pass.originals.dom().contains(h) implies text_of_aumid(
        pass.originals[h],
    ) == first(h) by {
        if !originals.dom().contains(h) {
            assert(pass.changed.contains(h));
        }
    }
    assert forall|h: isize| !#[trigger] pass.originals.dom().contains(h) implies after(h) == first(
        h,
    ) by {
        assert(!pass.changed.contains(h));
        assert(!originals.dom().contains(h));
    }
}

/// Uncombining a single window keeps the original AUMIDs faithful, whether or not the new AUMID
/// could be written.
pub proof fn law_uncombine_one_is_faithful(
    windows: Seq<WindowInfo>,
    originals: Map<isize, Option<String>>,
    hwnd: isize,
    first: spec_fn(isize) -> Option<Seq<char>>,
    now: spec_fn(isize) -> Option<Seq<char>>,
    after: spec_fn(isize) -> Option<Seq<char>>,
)
    requires
        faithful(originals, first, now),
        up_to_date(windows, originals, now),
        takes_own_button(windows, originals, hwnd),
        forall|h: isize| h != hwnd ==> #[trigger] after(h) == now(h),
    ensures
        faithful(
            originals.insert(hwnd, windows[position_of(windows, hwnd, 0)].aumid),
            first,
            after,
        ),
{
    lemma_position_of(windows, hwnd, 0);
    let more = originals.insert(hwnd, windows[position_of(windows, hwnd, 0)].aumid);
    assert forall|h: isize| #[trigger] more.dom().contains(h) implies text_of_aumid(more[h])
        == first(h) by {
        if h == hwnd {
            assert(!originals.dom().contains(h));
        } else {
            assert(originals.dom().contains(h));
        }
    }
    assert forall|h: isize| !#[trigger] more.dom().contains(h) implies after(h) == first(h) by {
        assert(!originals.dom().contains(h));
    }
}

proof fn lemma_position_of(windows: Seq<WindowInfo>, hwnd: isize, i: int)
    requires
        0 <= i <= windows.len(),
    ensures
        i <= position_of(windows, hwnd, i) <= windows.len(),
        position_of(windows, hwnd, i) < windows.len() ==> windows[position_of(
            windows,
            hwnd,
            i,
        )].hwnd == hwnd,
    decreases windows.len() - i,
{
    if i < windows.len() && windows[i].hwnd != hwnd {
        lemma_position_of(windows, hwnd, i + 1);
    }
}

/// At the start nothing is tracked, which is faithful.
pub proof fn law_start_is_faithful(first: spec_fn(isize) -> Option<Seq<char>>)
    ensures
        faithful(Map::<isize, Option<String>>::empty(), first, first),
{
}

/// Restoring gives every window the AUMID back that it had at first.
pub proof fn law_restore_undoes_uncombine(
    originals: Map<isize, Option<String>>,
    first: spec_fn(isize) -> Option<Seq<char>>,
    now: spec_fn(isize) -> Option<Seq<char>>,
    hwnd: isize,
)
    requires
        faithful(originals, first, now),
    ensures
        restored(originals, now)(hwnd) == first(hwnd),
{
}

/// The AUMID of a window after a list was written, one entry after the other.
pub open spec fn after_writing(
    restores: Seq<AumidRestore>,
    now: spec_fn(isize) -> Option<Seq<char>>,
    hwnd: isize,
) -> Option<Seq<char>>
    decreases restores.len(),
{
    if restores.len() == 0 {
        now(hwnd)
    } else if restores.last().hwnd == hwnd {
        text_of_aumid(restores.last().aumid)
    } else {
        after_writing(restores.drop_last(), now, hwnd)
    }
}

proof fn lemma_after_writing(
    restores: Seq<AumidRestore>,
    originals: Map<isize, Option<String>>,
    now: spec_fn(isize) -> Option<Seq<char>>,
    hwnd: isize,
)
    requires
        forall|i: int|
            0 <= i < restores.len() ==> (#[trigger] restores[i]).aumid
                == originals[restores[i].hwnd],
    ensures
        after_writing(restores, now, hwnd) == if exists|i: int|
            0 <= i < restores.len() && (#[trigger] restores[i]).hwnd == hwnd {
            text_of_aumid(originals[hwnd])
        } else {
            now(hwnd)
        },
    decreases restores.len(),
{
    if restores.len() > 0 {
        let rest = restores.drop_last();
        assert forall|i: int| 0 <= i < rest.len() implies (#[trigger] rest[i]).aumid
            == originals[rest[i].hwnd] by {
            assert(rest[i] == restores[i]);
        }
        lemma_after_writing(rest, originals, now, hwnd);
        if restores.last().hwnd == hwnd {
            assert(restores[restores.len() - 1].hwnd == hwnd);
        } else if exists|i: int| 0 <= i < restores.len() && (#[trigger] restores[i]).hwnd == hwnd {
            let i = choose|i: int|
                0 <= i < restores.len() && (#[trigger] restores[i]).hwnd == hwnd;
            assert(rest[i].hwnd == hwnd);
        } else {
            assert forall|i: int| 0 <= i < rest.len() implies (#[trigger] rest[i]).hwnd
                != hwnd by {
                assert(rest[i] == restores[i]);
            }
        }
    }
}

/// Whatever the order of the list that gives the original AUMIDs back, writing it restores them.
pub proof fn law_restoring_in_any_order(
    restores: Seq<AumidRestore>,
    originals: Map<isize, Option<String>>,
    now: spec_fn(isize) -> Option<Seq<char>>,
    hwnd: isize,
)
    requires
        gives_back(restores, originals),
    ensures
        after_writing(restores, now, hwnd) == restored(originals, now)(hwnd),
{
    lemma_after_writing(restores, originals, now, hwnd);
    if !originals.dom().contains(hwnd) {
        assert forall|i: int| 0 <= i < restores.len() implies (#[trigger] restores[i]).hwnd
            != hwnd by {
            assert(originals.dom().contains(restores[i].hwnd));
        }
    }
}

/// Different windows get different AUMIDs of their own.
pub proof fn law_own_aumids_differ(a: isize, b: isize)
    requires
        a != b,
    ensures
        unique_aumid(a) != unique_aumid(b),
{
    let prefix = "TaskbarSwitcher_"@;
    text::lemma_signed_decimal_injective(a as int, b as int);
    assert(unique_aumid(a).skip(prefix.len() as int) =~= text::signed_decimal(a as int));
    assert(unique_aumid(b).skip(prefix.len() as int) =~= text::signed_decimal(b as int));
}

proof fn lemma_two_in_group(windows: Seq<WindowInfo>, i: int, j: int)
    requires
        0 <= i < j < windows.len(),
        group_key(windows[i]) == group_key(windows[j]),
    ensures
        group_size(windows, group_key(windows[j])) >= 2,
    decreases windows.len(),
{
    let key = group_key(windows[j]);
    let rest = windows.drop_last();
    if j < rest.len() {
        assert(rest[i] == windows[i] && rest[j] == windows[j]);
        lemma_two_in_group(rest, i, j);
    } else {
        lemma_one_in_group(rest, i);
    }
}

proof fn lemma_one_in_group(windows: Seq<WindowInfo>, i: int)
    requires
        0 <= i < windows.len(),
    ensures
        group_size(windows, group_key(windows[i])) >= 1,
    decreases windows.len(),
{
    let rest = windows.drop_last();
    if i < rest.len() {
        assert(rest[i] == windows[i]);
        lemma_one_in_group(rest, i);
    }
}

/// After a pass no two windows share a button by their original AUMIDs: of two different windows in
/// one group, at least one has an AUMID of its own.
pub proof fn law_each_window_has_its_own_button(
    windows: Seq<WindowInfo>,
    originals: Map<isize, Option<String>>,
    i: int,
    j: int,
)
    requires
        0 <= i < j < windows.len(),
        group_key(windows[i]) == group_key(windows[j]),
    ensures
        ({
            let after = pass_over(windows, windows, originals).originals;
            after.dom().contains(windows[i].hwnd) || after.dom().contains(windows[j].hwnd)
        }),
{
    let after = pass_over(windows, windows, originals).originals;
    assert(windows.take(windows.len() as int) =~= windows);
    lemma_two_in_group(windows, i, j);
    lemma_pass(windows, j, originals);
    lemma_pass_grows(windows, j, windows.len() as int, originals);
    lemma_pass_grows(windows, j + 1, windows.len() as int, originals);
    assert(windows.take(j + 1).drop_last() =~= windows.take(j));
    assert(windows.take(j + 1).last() == windows[j]);
    let at = pass_over(windows, windows.take(j), originals);
    if !after.dom().contains(windows[i].hwnd) {
        assert(!at.originals.dom().contains(windows[i].hwnd));
        assert(at.spared.contains(group_key(windows[j])));
        let next = pass_over(windows, windows.take(j + 1), originals);
        assert(next == pass_window(windows, at, windows[j]));
        assert(next.originals.dom().contains(windows[j].hwnd));
    }
}

/// The key of the button that a window has: that of its own AUMID where it is tracked, otherwise that
/// of its group.
pub open spec fn button_key(originals: Map<isize, Option<String>>, w: WindowInfo) -> Seq<char> {
    if originals.dom().contains(w.hwnd) {
        "AUMID:"@ + unique_aumid(w.hwnd)
    } else {
        group_key(w)
    }
}

/// After a pass every window has a taskbar button of its own, provided that the AUMIDs given out are
/// used by no other window.
pub proof fn law_all_buttons_differ(
    windows: Seq<WindowInfo>,
    originals: Map<isize, Option<String>>,
    i: int,
    j: int,
)
    requires
        distinct(windows),
        0 <= i < j < windows.len(),
        forall|k: int, h: isize|
            0 <= k < windows.len() && !originals.dom().contains(windows[k].hwnd) ==> #[trigger]
            group_key(windows[k]) != "AUMID:"@ + #[trigger] unique_aumid(h),
    ensures
        ({
            let after = pass_over(windows, windows, originals).originals;
            button_key(after, windows[i]) != button_key(after, windows[j])
        }),
{
    let after = pass_over(windows, windows, originals).originals;
    let (a, b) = (windows[i], windows[j]);
    assert(windows.take(windows.len() as int) =~= windows);
    lemma_pass(windows, windows.len() as int, originals);
    assert(!after.dom().contains(a.hwnd) ==> !originals.dom().contains(a.hwnd));
    assert(!after.dom().contains(b.hwnd) ==> !originals.dom().contains(b.hwnd));
    if after.dom().contains(a.hwnd) && after.dom().contains(b.hwnd) {
        law_own_aumids_differ(a.hwnd, b.hwnd);
        let prefix = "AUMID:"@;
        assert((prefix + unique_aumid(a.hwnd)).skip(prefix.len() as int) =~= unique_aumid(a.hwnd));
        assert((prefix + unique_aumid(b.hwnd)).skip(prefix.len() as int) =~= unique_aumid(b.hwnd));
    } else if after.dom().contains(a.hwnd) {
        assert(group_key(windows[j]) != "AUMID:"@ + unique_aumid(a.hwnd));
    } else if after.dom().contains(b.hwnd) {
        assert(group_key(windows[i]) != "AUMID:"@ + unique_aumid(b.hwnd));
    } else if group_key(a) == group_key(b) {
        law_each_window_has_its_own_button(windows, originals, i, j);
    }
}

proof fn lemma_pass_grows(
    all: Seq<WindowInfo>,
    m: int,
    n: int,
    originals: Map<isize, Option<String>>,
)
    requires
        0 <= m <= n <= all.len(),
    ensures
        forall|h: isize| #[trigger]
            pass_over(all, all.take(m), originals).originals.dom().contains(h) ==> pass_over(
                all,
                all.take(n),
                originals,
            ).originals.dom().contains(h),
    decreases n - m,
{
    if m < n {
        lemma_pass_grows(all, m, n - 1, originals);
        assert(all.take(n).drop_last() =~= all.take(n - 1));
    }
}

proof fn lemma_changed_once(
    windows: Seq<WindowInfo>,
    originals: Map<isize, Option<String>>,
    i: int,
)
    requires
        distinct(windows),
        0 <= i < windows.len(),
        !originals.dom().contains(windows[i].hwnd),
        !changes_at(windows, originals, i),
    ensures
        !pass_over(windows, windows.take(windows.len() as int), originals).originals.dom().contains(
            windows[i].hwnd,
        ),
{
    let n = windows.len() as int;
    let hwnd = windows[i].hwnd;
    let pass = pass_over(windows, windows.take(n), originals);
    lemma_pass(windows, n, originals);
    if pass.originals.dom().contains(hwnd) {
        assert(pass.changed.contains(hwnd));
        let k = choose|k: int|
            0 <= k < n && #[trigger] changes_at(windows, originals, k) && windows[k].hwnd == hwnd
                && pass.originals[hwnd] == windows[k].aumid;
        assert(windows[k].hwnd == windows[i].hwnd);
        assert(k == i);
    }
}

/// The anchor keeps its AUMID: the first window of a group that is not tracked stays so.
pub proof fn law_anchor_keeps_its_aumid(
    windows: Seq<WindowInfo>,
    originals: Map<isize, Option<String>>,
    i: int,
)
    requires
        distinct(windows),
        0 <= i < windows.len(),
        !originals.dom().contains(windows[i].hwnd),
        forall|j: int|
            0 <= j < i && group_key(#[trigger] windows[j]) == group_key(windows[i])
                ==> originals.dom().contains(windows[j].hwnd),
    ensures
        !pass_over(windows, windows, originals).originals.dom().contains(windows[i].hwnd),
{
    assert(windows.take(windows.len() as int) =~= windows);
    lemma_changed_once(windows, originals, i);
}

/// A window that is alone in its group keeps its AUMID.
pub proof fn law_single_window_keeps_its_aumid(
    windows: Seq<WindowInfo>,
    originals: Map<isize, Option<String>>,
    i: int,
)
    requires
        distinct(windows),
        0 <= i < windows.len(),
        !originals.dom().contains(windows[i].hwnd),
        group_size(windows, group_key(windows[i])) <= 1,
    ensures
        !pass_over(windows, windows, originals).originals.dom().contains(windows[i].hwnd),
{
    assert(windows.take(windows.len() as int) =~= windows);
    lemma_changed_once(windows, originals, i);
}

/// Two windows are of the same app: their AUMIDs are the same, or neither has one and their
/// executables are the same.
pub open spec fn same_app(a: WindowInfo, b: WindowInfo) -> bool {
    match (a.aumid, b.aumid) {
        (Some(x), Some(y)) => x@ == y@,
        (None, None) => a.process_name@ == b.process_name@,
        _ => false,
    }
}

/// Windows are in one group exactly if they are of the same app.
pub proof fn law_groups_are_apps(a: WindowInfo, b: WindowInfo)
    ensures
        group_key(a) == group_key(b) <==> same_app(a, b),
{
    reveal_strlit("AUMID:");
    reveal_strlit("EXE:");
    match (a.aumid, b.aumid) {
        (Some(x), Some(y)) => {
            assert(group_key(a).skip(6) =~= x@);
            assert(group_key(b).skip(6) =~= y@);
        },
        (None, None) => {
            assert(group_key(a).skip(4) =~= a.process_name@);
            assert(group_key(b).skip(4) =~= b.process_name@);
        },
        (Some(_), None) => {
            assert(group_key(a)[0] == 'A');
            assert(group_key(b)[0] == 'E');
        },
        (None, Some(_)) => {
            assert(group_key(a)[0] == 'E');
            assert(group_key(b)[0] == 'A');
        },
    }
}

proof fn lemma_none_in_group(windows: Seq<WindowInfo>, key: Seq<char>)
    requires
        forall|j: int| 0 <= j < windows.len() ==> group_key(#[trigger] windows[j]) != key,
    ensures
        group_size(windows, key) == 0,
    decreases windows.len(),
{
    if windows.len() > 0 {
        let rest = windows.drop_last();
        assert(group_key(windows[windows.len() - 1]) != key);
        assert forall|j: int| 0 <= j < rest.len() implies group_key(#[trigger] rest[j]) != key by {
            assert(rest[j] == windows[j]);
        }
        lemma_none_in_group(rest, key);
    }
}

proof fn lemma_alone_in_group(windows: Seq<WindowInfo>, i: int)
    requires
        0 <= i < windows.len(),
        forall|j: int|
            0 <= j < windows.len() && j != i ==> group_key(#[trigger] windows[j]) != group_key(
                windows[i],
            ),
    ensures
        group_size(windows, group_key(windows[i])) == 1,
    decreases windows.len(),
{
    let rest = windows.drop_last();
    let key = group_key(windows[i]);
    if i == rest.len() {
        assert forall|j: int| 0 <= j < rest.len() implies group_key(#[trigger] rest[j]) != key by {
            assert(rest[j] == windows[j]);
        }
        lemma_none_in_group(rest, key);
    } else {
        assert(group_key(windows[windows.len() - 1]) != key);
        assert(rest[i] == windows[i]);
        assert forall|j: int| 0 <= j < rest.len() && j != i implies group_key(#[trigger] rest[j])
            != group_key(rest[i]) by {
            assert(rest[j] == windows[j]);
        }
        lemma_alone_in_group(rest, i);
    }
}

/// A group has several windows exactly if some other window, at any place in the list, is of the
/// same app.
pub proof fn law_group_needs_another_window(windows: Seq<WindowInfo>, i: int)
    requires
        0 <= i < windows.len(),
    ensures
        group_size(windows, group_key(windows[i])) > 1 <==> exists|j: int|
            0 <= j < windows.len() && j != i && same_app(#[trigger] windows[j], windows[i]),
{
    if exists|j: int|
        0 <= j < windows.len() && j != i && same_app(#[trigger] windows[j], windows[i]) {
        let j = choose|j: int|
            0 <= j < windows.len() && j != i && same_app(#[trigger] windows[j], windows[i]);
        law_groups_are_apps(windows[j], windows[i]);
        if i < j {
            lemma_two_in_group(windows, i, j);
        } else {
            lemma_two_in_group(windows, j, i);
        }
    } else {
        assert forall|j: int| 0 <= j < windows.len() && j != i implies group_key(
            #[trigger] windows[j],
        ) != group_key(windows[i]) by {
            law_groups_are_apps(windows[j], windows[i]);
        }
        lemma_alone_in_group(windows, i);
    }
}

/// A new window is uncombined exactly if it is listed and not tracked, and some other window of the
/// list, before it or behind it, is of the same app. The window's own entry is the first one with
/// its handle.
pub proof fn law_new_window_needs_a_sibling(
    windows: Seq<WindowInfo>,
    originals: Map<isize, Option<String>>,
    hwnd: isize,
    i: int,
)
    requires
        0 <= i < windows.len(),
        windows[i].hwnd == hwnd,
        forall|k: int| 0 <= k < i ==> (#[trigger] windows[k]).hwnd != hwnd,
    ensures
        takes_own_button(windows, originals, hwnd) <==> !originals.dom().contains(hwnd)
            && exists|j: int|
            0 <= j < windows.len() && j != i && same_app(#[trigger] windows[j], windows[i]),
        position_of(windows, hwnd, 0) == i,
{
    lemma_first_position(windows, hwnd, i, 0);
    law_group_needs_another_window(windows, i);
}

/// A window that is not listed is not uncombined.
pub proof fn law_hidden_window_is_not_uncombined(
    windows: Seq<WindowInfo>,
    originals: Map<isize, Option<String>>,
    hwnd: isize,
)
    requires
        forall|k: int| 0 <= k < windows.len() ==> (#[trigger] windows[k]).hwnd != hwnd,
    ensures
        !takes_own_button(windows, originals, hwnd),
{
    lemma_position_of(windows, hwnd, 0);
}

proof fn lemma_first_position(windows: Seq<WindowInfo>, hwnd: isize, i: int, from: int)
    requires
        0 <= from <= i < windows.len(),
        windows[i].hwnd == hwnd,
        forall|k: int| 0 <= k < i ==> (#[trigger] windows[k]).hwnd != hwnd,
    ensures
        position_of(windows, hwnd, from) == i,
    decreases i - from,
{
    if from < i {
        assert(windows[from].hwnd != hwnd);
        lemma_first_position(windows, hwnd, i, from + 1);
    }
}

/// Whether a new window is uncombined does not depend on the order of the list.
pub proof fn law_uncombine_one_ignores_the_order(
    a: Seq<WindowInfo>,
    b: Seq<WindowInfo>,
    originals: Map<isize, Option<String>>,
    hwnd: isize,
)
    requires
        distinct(a),
        distinct(b),
        forall|w: WindowInfo| #[trigger] a.contains(w) <==> b.contains(w),
    ensures
        takes_own_button(a, originals, hwnd) == takes_own_button(b, originals, hwnd),
{
    if takes_own_button(a, originals, hwnd) {
        lemma_taken_in_both(a, b, originals, hwnd);
    }
    if takes_own_button(b, originals, hwnd) {
        assert forall|w: WindowInfo| #[trigger] b.contains(w) implies a.contains(w) by {
            assert(a.contains(w) <==> b.contains(w));
        }
        lemma_taken_in_both(b, a, originals, hwnd);
    }
}

proof fn lemma_taken_in_both(
    a: Seq<WindowInfo>,
    b: Seq<WindowInfo>,
    originals: Map<isize, Option<String>>,
    hwnd: isize,
)
    requires
        distinct(a),
        distinct(b),
        forall|w: WindowInfo| #[trigger] a.contains(w) ==> b.contains(w),
        takes_own_button(a, originals, hwnd),
    ensures
        takes_own_button(b, originals, hwnd),
{
    lemma_position_of(a, hwnd, 0);
    let i = position_of(a, hwnd, 0);
    assert forall|k: int| 0 <= k < i implies (#[trigger] a[k]).hwnd != hwnd by {
        assert(a[i].hwnd == hwnd);
    }
    law_new_window_needs_a_sibling(a, originals, hwnd, i);
    let j = choose|j: int| 0 <= j < a.len() && j != i && same_app(#[trigger] a[j], a[i]);
    assert(a.contains(a[i]) && a.contains(a[j]));
    let m = choose|m: int| 0 <= m < b.len() && b[m] == a[i];
    let n = choose|n: int| 0 <= n < b.len() && b[n] == a[j];
    assert(a[i].hwnd != a[j].hwnd) by {
        if i < j {
            assert(a[i].hwnd != a[j].hwnd);
        } else {
            assert(a[j].hwnd != a[i].hwnd);
        }
    }
    assert(m != n);
    assert forall|k: int| 0 <= k < m implies (#[trigger] b[k]).hwnd != hwnd by {
        assert(b[m].hwnd == hwnd);
    }
    assert(same_app(b[n], b[m]));
    law_new_window_needs_a_sibling(b, originals, hwnd, m);
}

/// Uncombining all windows tracks a window exactly if it was tracked before, or an earlier window
/// of the list that was not tracked is of the same app.
pub proof fn law_uncombined_windows_follow_another(
    windows: Seq<WindowInfo>,
    originals: Map<isize, Option<String>>,
    i: int,
)
    requires
        distinct(windows),
        0 <= i < windows.len(),
    ensures
        pass_over(windows, windows, originals).originals.dom().contains(windows[i].hwnd)
            <==> originals.dom().contains(windows[i].hwnd) || exists|j: int|
            0 <= j < i && same_app(#[trigger] windows[j], windows[i]) && !originals.dom().contains(
                windows[j].hwnd,
            ),
{
    let n = windows.len() as int;
    let hwnd = windows[i].hwnd;
    let after = pass_over(windows, windows, originals).originals;
    assert(windows.take(n) =~= windows);
    lemma_pass(windows, n, originals);
    if originals.dom().contains(hwnd) {
        assert(after.dom().contains(hwnd));
    } else if exists|j: int|
        0 <= j < i && same_app(#[trigger] windows[j], windows[i]) && !originals.dom().contains(
            windows[j].hwnd,
        ) {
        let j = lemma_first_untracked(windows, originals, i);
        law_groups_are_apps(windows[j], windows[i]);
        assert forall|k: int|
            0 <= k < j && group_key(#[trigger] windows[k]) == group_key(
                windows[j],
            ) implies originals.dom().contains(windows[k].hwnd) by {
            law_groups_are_apps(windows[k], windows[i]);
        }
        law_anchor_keeps_its_aumid(windows, originals, j);
        law_each_window_has_its_own_button(windows, originals, j, i);
    } else {
        assert forall|j: int|
            0 <= j < i && group_key(#[trigger] windows[j]) == group_key(
                windows[i],
            ) implies originals.dom().contains(windows[j].hwnd) by {
            law_groups_are_apps(windows[j], windows[i]);
        }
        law_anchor_keeps_its_aumid(windows, originals, i);
    }
}

proof fn lemma_first_untracked(
    windows: Seq<WindowInfo>,
    originals: Map<isize, Option<String>>,
    i: int,
) -> (first: int)
    requires
        0 <= i < windows.len(),
        exists|j: int|
            0 <= j < i && same_app(#[trigger] windows[j], windows[i]) && !originals.dom().contains(
                windows[j].hwnd,
            ),
    ensures
        0 <= first < i,
        same_app(windows[first], windows[i]),
        !originals.dom().contains(windows[first].hwnd),
        forall|k: int|
            0 <= k < first && same_app(#[trigger] windows[k], windows[i])
                ==> originals.dom().contains(windows[k].hwnd),
{
    let j = choose|j: int|
        0 <= j < i && same_app(#[trigger] windows[j], windows[i]) && !originals.dom().contains(
            windows[j].hwnd,
        );
    lemma_first_untracked_upto(windows, originals, i, j)
}

proof fn lemma_first_untracked_upto(
    windows: Seq<WindowInfo>,
    originals: Map<isize, Option<String>>,
    i: int,
    j: int,
) -> (first: int)
    requires
        0 <= j < i < windows.len(),
        same_app(windows[j], windows[i]),
        !originals.dom().contains(windows[j].hwnd),
    ensures
        0 <= first < i,
        same_app(windows[first], windows[i]),
        !originals.dom().contains(windows[first].hwnd),
        forall|k: int|
            0 <= k < first && same_app(#[trigger] windows[k], windows[i])
                ==> originals.dom().contains(windows[k].hwnd),
    decreases j,
{
    if exists|k: int|
        0 <= k < j && same_app(#[trigger] windows[k], windows[i]) && !originals.dom().contains(
            windows[k].hwnd,
        ) {
        let k = choose|k: int|
            0 <= k < j && same_app(#[trigger] windows[k], windows[i]) && !originals.dom().contains(
                windows[k].hwnd,
            );
        lemma_first_untracked_upto(windows, originals, i, k)
    } else {
        j
    }
}

/// The windows that a pass changes are those that it newly tracks. Each is kept with the AUMID that
/// it has in the list, and an earlier window of the list is of the same app.
pub proof fn law_changed_windows_are_newly_tracked(
    windows: Seq<WindowInfo>,
    originals: Map<isize, Option<String>>,
    hwnd: isize,
)
    ensures
        ({
            let pass = pass_over(windows, windows, originals);
            &&& pass.originals.dom().contains(hwnd) <==> originals.dom().contains(hwnd)
                || pass.changed.contains(hwnd)
            &&& originals.dom().contains(hwnd) ==> pass.originals[hwnd] == originals[hwnd]
                && !pass.changed.contains(hwnd)
            &&& pass.changed.contains(hwnd) ==> exists|j: int, i: int|
                0 <= j < i < windows.len() && same_app(#[trigger] windows[j], #[trigger] windows[i])
                    && windows[i].hwnd == hwnd && pass.originals[hwnd] == windows[i].aumid
        }),
{
    let n = windows.len() as int;
    let pass = pass_over(windows, windows, originals);
    assert(windows.take(n) =~= windows);
    lemma_pass(windows, n, originals);
    if pass.changed.contains(hwnd) {
        let i = choose|i: int|
            0 <= i < n && #[trigger] changes_at(windows, originals, i) && windows[i].hwnd == hwnd
                && pass.originals[hwnd] == windows[i].aumid;
        let j = choose|j: int|
            0 <= j < i && group_key(#[trigger] windows[j]) == group_key(windows[i])
                && !originals.dom().contains(windows[j].hwnd);
        law_groups_are_apps(windows[j], windows[i]);
        assert(same_app(windows[j], windows[i]));
    }
}

/// A pass changes windows in the order of the list, each once: `at` are their places.
pub proof fn law_changes_follow_the_list(
    windows: Seq<WindowInfo>,
    originals: Map<isize, Option<String>>,
) -> (at: Seq<int>)
    ensures
        ({
            let changed = pass_over(windows, windows, originals).changed;
            &&& at.len() == changed.len()
            &&& forall|k: int|
                0 <= k < at.len() ==> 0 <= #[trigger] at[k] < windows.len() && windows[at[k]].hwnd
                    == changed[k]
            &&& forall|k: int, m: int|
                #![trigger at[k], at[m]]
                0 <= k < m < at.len() ==> at[k] < at[m]
            &&& changed.no_duplicates()
        }),
{
    assert(windows.take(windows.len() as int) =~= windows);
    lemma_changes_follow_the_list(windows, originals, windows.len() as int)
}

proof fn lemma_changes_follow_the_list(
    windows: Seq<WindowInfo>,
    originals: Map<isize, Option<String>>,
    n: int,
) -> (at: Seq<int>)
    requires
        0 <= n <= windows.len(),
    ensures
        ({
            let changed = pass_over(windows, windows.take(n), originals).changed;
            &&& at.len() == changed.len()
            &&& forall|k: int|
                0 <= k < at.len() ==> 0 <= #[trigger] at[k] < n && windows[at[k]].hwnd == changed[k]
            &&& forall|k: int, m: int|
                #![trigger at[k], at[m]]
                0 <= k < m < at.len() ==> at[k] < at[m]
            &&& changed.no_duplicates()
        }),
    decreases n,
{
    if n == 0 {
        Seq::empty()
    } else {
        let before = pass_over(windows, windows.take(n - 1), originals);
        let after = pass_over(windows, windows.take(n), originals);
        assert(windows.take(n).drop_last() =~= windows.take(n - 1));
        assert(after == pass_window(windows, before, windows[n - 1]));
        let earlier = lemma_changes_follow_the_list(windows, originals, n - 1);
        lemma_pass(windows, n - 1, originals);
        if after.changed == before.changed {
            earlier
        } else {
            let hwnd = windows[n - 1].hwnd;
            assert(!before.changed.contains(hwnd));
            assert(after.changed == before.changed.push(hwnd));
            assert(after.changed.no_duplicates()) by {
                assert forall|k: int, m: int|
                    0 <= k < after.changed.len() && 0 <= m < after.changed.len() && k
                        != m implies after.changed[k] != after.changed[m] by {
                    if k < before.changed.len() {
                        assert(before.changed.contains(before.changed[k]));
                    }
                    if m < before.changed.len() {
                        assert(before.changed.contains(before.changed[m]));
                    }
                }
            }
            earlier.push(n - 1)
        }
    }
}

/// The AUMID of a window of its own begins like all of them, and the handle is read back from the rest.
pub proof fn law_own_aumid_names_the_window(hwnd: isize)
    ensures
        text::starts_with_text(unique_aumid(hwnd), "TaskbarSwitcher_"@),
        ({
            let rest = unique_aumid(hwnd).skip(16);
            &&& hwnd >= 0 ==> text::number_read(rest) == hwnd
            &&& hwnd < 0 ==> rest[0] == '-' && text::number_read(rest.skip(1)) == -hwnd
        }),
{
    reveal_strlit("TaskbarSwitcher_");
    let prefix = "TaskbarSwitcher_"@;
    text::law_signed_digits_read_back(hwnd as int);
    assert(unique_aumid(hwnd).skip(16) =~= text::signed_decimal(hwnd as int));
    assert(unique_aumid(hwnd).subrange(0, 16) =~= prefix);
}

/// The changes that are announced are one for each window, in order, with the AUMID that names it.
pub proof fn law_announced_changes(changes: Seq<AumidChange>, changed: Seq<isize>, i: int)
    requires
        announces(changes, changed),
        0 <= i < changed.len(),
    ensures
        changes.len() == changed.len(),
        changes[i].hwnd == changed[i],
        changes[i].aumid@ == "TaskbarSwitcher_"@ + text::signed_decimal(changed[i] as int),
{
}

/// What is given back is the original AUMID of each tracked window, once, and nothing else.
pub proof fn law_given_back_once(
    restores: Seq<AumidRestore>,
    originals: Map<isize, Option<String>>,
    hwnd: isize,
)
    requires
        gives_back(restores, originals),
    ensures
        restores.len() == originals.dom().len(),
        originals.dom().contains(hwnd) <==> exists|i: int|
            0 <= i < restores.len() && (#[trigger] restores[i]).hwnd == hwnd,
        forall|i: int|
            0 <= i < restores.len() && (#[trigger] restores[i]).hwnd == hwnd ==> restores[i].aumid
                == originals[hwnd],
{
}

} // verus!
