//! UIA StructureChanged event handler: detects added and removed taskbar buttons.
//!
//! # Reorder detection
//!
//! A reordering of the children does not fire on the Win11 XAML taskbar. It is handled by the
//! lifetime of the button cache.

use vstd::prelude::*;

use crate::event::winevent::InvalidateSource;
use crate::event::{PostedMessage, WM_APP_INVALIDATE_CACHE};

verus! {

/// Keeps several UIA events in a row from sending the same message: set when a message was sent,
/// until the main thread has handled it.
#[derive(Debug, Clone, Copy, PartialEq, Eq, Structural)]
pub struct CacheFlag {
    pub invalidated: bool,
}

impl CacheFlag {
    /// No message was sent.
    pub fn new() -> (flag: Self)
        ensures
            !flag.invalidated,
    {
        CacheFlag { invalidated: false }
    }
}

/// What a change of the taskbar's structure means; the types count: child added, child removed,
/// children invalidated, children added in bulk, children removed in bulk.
pub open spec fn source_of(change_type: i32) -> Option<InvalidateSource> {
    if change_type == 0 {
        Some(InvalidateSource::ButtonAdded)
    } else if change_type == 1 {
        Some(InvalidateSource::ButtonRemoved)
    } else if change_type == 2 {
        Some(InvalidateSource::ButtonInvalidated)
    } else if change_type == 3 {
        Some(InvalidateSource::ButtonBulkAdded)
    } else if change_type == 4 {
        Some(InvalidateSource::ButtonBulkRemoved)
    } else {
        None
    }
}

/// What a change of the taskbar's structure means.
pub fn change_source(change_type: i32) -> (source: Option<InvalidateSource>)
    ensures
        source == source_of(change_type),
{
    match change_type {
        0 => Some(InvalidateSource::ButtonAdded),
        1 => Some(InvalidateSource::ButtonRemoved),
        2 => Some(InvalidateSource::ButtonInvalidated),
        3 => Some(InvalidateSource::ButtonBulkAdded),
        4 => Some(InvalidateSource::ButtonBulkRemoved),
        _ => None,
    }
}

/// Handles a change of the taskbar's structure: tells the main thread, unless it was told already
/// or is unknown (zero).
pub fn handle_structure_changed_event(
    flag: &mut CacheFlag,
    main_thread_id: u32,
    change_type: i32,
) -> (post: Option<PostedMessage>)
    ensures
        post is Some <==> main_thread_id != 0 && source_of(change_type) is Some && !old(
            flag,
        ).invalidated,
        post matches Some(m) ==> m == (PostedMessage {
            thread_id: main_thread_id,
            message: WM_APP_INVALIDATE_CACHE,
            wparam: source_of(change_type)->0.number(),
        }),
        final(flag).invalidated == (old(flag).invalidated || (main_thread_id != 0 && source_of(
            change_type,
        ) is Some)),
{
    if main_thread_id == 0 {
        return None;
    }
    if let Some(source) = change_source(change_type) {
        let was_invalidated = flag.invalidated;
        flag.invalidated = true;
        if !was_invalidated {
            return Some(
                PostedMessage {
                    thread_id: main_thread_id,
                    message: WM_APP_INVALIDATE_CACHE,
                    wparam: source.to_wparam(),
                },
            );
        }
    }
    None
}

/// Resets the flag after the main thread has handled the message.
pub fn reset_cache_invalidated_flag(flag: &mut CacheFlag)
    ensures
        !final(flag).invalidated,
{
    flag.invalidated = false;
}

/// The messages that a row of changes sends, one after the other without a reset.
pub open spec fn messages(invalidated: bool, changes: Seq<i32>) -> nat
    decreases changes.len(),
{
    if changes.len() == 0 {
        0
    } else {
        let first = source_of(changes[0]) is Some;
        messages(invalidated || first, changes.skip(1)) + if first && !invalidated {
            1nat
        } else {
            0
        }
    }
}

/// However many changes come in a row, they send one message at most until the reset, and none
/// where one was sent before.
pub proof fn law_one_message_until_reset(invalidated: bool, changes: Seq<i32>)
    ensures
        messages(invalidated, changes) <= 1,
        invalidated ==> messages(invalidated, changes) == 0,
    decreases changes.len(),
{
    if changes.len() > 0 {
        let first = source_of(changes[0]) is Some;
        law_one_message_until_reset(invalidated || first, changes.skip(1));
    }
}

/// The number in the message is the type of the change.
pub proof fn law_message_names_the_change(change_type: i32)
    requires
        source_of(change_type) is Some,
    ensures
        source_of(change_type)->0.number() == change_type,
{
}

/// The five types of change count from zero on, and each has a cause; no other number has one.
pub proof fn law_five_changes_have_a_cause(change_type: i32)
    ensures
        source_of(change_type) is Some <==> 0 <= change_type <= 4,
        source_of(0) == Some(InvalidateSource::ButtonAdded),
        source_of(1) == Some(InvalidateSource::ButtonRemoved),
        source_of(2) == Some(InvalidateSource::ButtonInvalidated),
        source_of(3) == Some(InvalidateSource::ButtonBulkAdded),
        source_of(4) == Some(InvalidateSource::ButtonBulkRemoved),
{
}

} // verus!
