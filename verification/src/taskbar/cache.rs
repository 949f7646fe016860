//! The cached button list: valid for one second, for one monitor, on one virtual desktop, until an
//! event.

use vstd::prelude::*;

use crate::types::{clone_buttons, TaskbarButton};

verus! {

/// Cache TTL in nanoseconds: without an event, the cache expires after one second.
pub const CACHE_TTL_NANOS: u64 = 1_000_000_000;

/// Button list of one monitor, with the time at which it was read, in nanoseconds on a monotonic
/// clock.
#[derive(Debug)]
pub struct ButtonCache {
    pub buttons: Vec<TaskbarButton>,
    /// The monitor that the buttons were read for.
    pub monitor: isize,
    pub created_at: u64,
}

/// Caches the button list to avoid re-enumerating on every keystroke.
#[derive(Debug)]
pub struct ButtonCacheState {
    /// The button list, where there is a valid one.
    pub button_cache: Option<ButtonCache>,
    /// Virtual Desktop ID of the most recent foreground window.
    pub last_desktop_id: Option<u128>,
}

impl ButtonCacheState {
    /// The cached buttons of the monitor, if they are no older than the TTL at the time `now`.
    pub open spec fn fresh(&self, monitor: isize, now: u64) -> Option<Seq<TaskbarButton>> {
        match self.button_cache {
            Some(cache) => if cache.monitor == monitor && now - cache.created_at
                < CACHE_TTL_NANOS {
                Some(cache.buttons@)
            } else {
                None
            },
            None => None,
        }
    }

    /// The foreground window is on another virtual desktop than the one seen last.
    pub open spec fn sees_other_desktop(&self, current: Option<u128>) -> bool {
        self.last_desktop_id matches Some(last) && current matches Some(id) && last != id
    }

    /// An empty cache that has seen no desktop yet.
    pub fn new() -> (state: Self)
        ensures
            state.button_cache is None,
            state.last_desktop_id is None,
    {
        ButtonCacheState { button_cache: None, last_desktop_id: None }
    }

    /// Checks if the virtual desktop has changed since the last call.
    ///
    /// `current` is the desktop of the foreground window, absent where it cannot be told.
    pub fn desktop_changed(&mut self, current: Option<u128>) -> (changed: bool)
        ensures
            changed == old(self).sees_other_desktop(current),
            final(self).last_desktop_id == if current is Some {
                current
            } else {
                old(self).last_desktop_id
            },
            final(self).button_cache == old(self).button_cache,
    {
        match current {
            Some(id) => {
                let changed = match self.last_desktop_id {
                    Some(last) => last != id,
                    None => false,
                };
                self.last_desktop_id = Some(id);
                changed
            },
            None => false,
        }
    }

    /// Invalidates the button cache.
    pub fn invalidate_cache(&mut self)
        ensures
            final(self).button_cache is None,
            final(self).last_desktop_id == old(self).last_desktop_id,
    {
        self.button_cache = None;
    }

    /// The cached buttons of the monitor, if they may still be used at the time `now` with the
    /// foreground window on the desktop `current`.
    ///
    /// A desktop switch drops the cache. Where nothing is returned, the caller reads the buttons
    /// and hands them to [`Self::store`].
    pub fn lookup(&mut self, monitor: isize, current: Option<u128>, now: u64) -> (cached: Option<
        Vec<TaskbarButton>,
    >)
        ensures
            cached matches Some(buttons) ==> {
                &&& !old(self).sees_other_desktop(current)
                &&& old(self).fresh(monitor, now) == Some(buttons@)
            },
            cached is None ==> old(self).sees_other_desktop(current) || old(self).fresh(
                monitor,
                now,
            ) is None,
            final(self).last_desktop_id == if current is Some {
                current
            } else {
                old(self).last_desktop_id
            },
            final(self).button_cache == if old(self).sees_other_desktop(current) {
                None
            } else {
                old(self).button_cache
            },
    {
        if self.desktop_changed(current) {
            self.invalidate_cache();
        }
        match &self.button_cache {
            Some(cache) => {
                let age: u64 = if now >= cache.created_at {
                    now - cache.created_at
                } else {
                    0
                };
                if cache.monitor == monitor && age < CACHE_TTL_NANOS {
                    Some(clone_buttons(&cache.buttons))
                } else {
                    None
                }
            },
            None => None,
        }
    }

    /// Keeps the buttons of the monitor that were read at the time `now`.
    pub fn store(&mut self, buttons: &[TaskbarButton], monitor: isize, now: u64)
        ensures
            final(self).button_cache matches Some(cache) && cache.buttons@ == buttons@
                && cache.monitor == monitor && cache.created_at == now,
            final(self).last_desktop_id == old(self).last_desktop_id,
    {
        self.button_cache = Some(
            ButtonCache { buttons: clone_buttons(buttons), monitor, created_at: now },
        );
    }
}

/// Buttons stored at one time are given back for their monitor at every time less than a second
/// later, and at none from then on.
pub proof fn law_stored_buttons_last_one_second(
    state: ButtonCacheState,
    cache: ButtonCache,
    now: u64,
)
    requires
        state.button_cache == Some(cache),
    ensures
        now - cache.created_at < 1_000_000_000 ==> state.fresh(cache.monitor, now) == Some(
            cache.buttons@,
        ),
        now - cache.created_at >= 1_000_000_000 ==> state.fresh(cache.monitor, now) is None,
{
}

/// The buttons of one monitor are never given back for another.
pub proof fn law_other_monitor_is_read_anew(
    state: ButtonCacheState,
    cache: ButtonCache,
    monitor: isize,
    now: u64,
)
    requires
        state.button_cache == Some(cache),
        cache.monitor != monitor,
    ensures
        state.fresh(monitor, now) is None,
{
}

/// A desktop change is reported once: a state that remembers a desktop, as every state does
/// after it has been shown one, sees no change on that desktop.
pub proof fn law_desktop_change_reported_once(after: ButtonCacheState, current: u128)
    requires
        after.last_desktop_id == Some(current),
    ensures
        !after.sees_other_desktop(Some(current)),
{
}

/// A desktop change is seen exactly if both desktops are known and differ; an unknown desktop, now or
/// before, is no change.
pub proof fn law_unknown_desktop_is_no_change(state: ButtonCacheState, last: u128, current: u128)
    ensures
        !state.sees_other_desktop(None),
        state.last_desktop_id is None ==> !state.sees_other_desktop(Some(current)),
        state.last_desktop_id == Some(last) ==> (state.sees_other_desktop(Some(current)) <==> last
            != current),
{
}

/// An empty cache has nothing for any monitor at any time.
pub proof fn law_empty_cache_has_nothing(state: ButtonCacheState, monitor: isize, now: u64)
    requires
        state.button_cache is None,
    ensures
        state.fresh(monitor, now) is None,
{
}

} // verus!
