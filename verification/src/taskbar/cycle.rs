//! Cycling: which taskbar button comes next to the left or to the right.

use vstd::prelude::*;

use super::button_window::ButtonWindowMap;
use crate::types::WindowInfo;

verus! {

/// Cycle direction: right (forward) or left (backward) on the taskbar.
#[derive(Debug, Clone, Copy, PartialEq, Eq, Structural)]
pub enum CycleDirection {
    Forward,
    Backward,
}

/// The other direction.
pub open spec fn reversed(direction: CycleDirection) -> CycleDirection {
    match direction {
        CycleDirection::Forward => CycleDirection::Backward,
        CycleDirection::Backward => CycleDirection::Forward,
    }
}

/// The position `k` steps from `i` on a ring of `n` positions, for `k` up to `n`.
pub open spec fn stepped(i: int, n: int, direction: CycleDirection, k: int) -> int {
    match direction {
        CycleDirection::Forward => if i + k < n {
            i + k
        } else {
            i + k - n
        },
        CycleDirection::Backward => if i - k >= 0 {
            i - k
        } else {
            i - k + n
        },
    }
}

/// The first button with windows among those `k` and more steps from `source`, one round at
/// most.
pub open spec fn next_valid_from(
    assigned: Seq<Seq<WindowInfo>>,
    source: int,
    direction: CycleDirection,
    k: int,
) -> Option<int>
    decreases assigned.len() - k + 1,
{
    let at = stepped(source, assigned.len() as int, direction, k);
    if k > assigned.len() {
        None
    } else if assigned[at].len() > 0 {
        Some(at)
    } else {
        next_valid_from(assigned, source, direction, k + 1)
    }
}

/// The nearest button with windows in the given direction; `source` itself comes last.
pub open spec fn next_valid(
    assigned: Seq<Seq<WindowInfo>>,
    source: int,
    direction: CycleDirection,
) -> Option<int> {
    next_valid_from(assigned, source, direction, 1)
}

proof fn lemma_next_valid_from(
    assigned: Seq<Seq<WindowInfo>>,
    source: int,
    direction: CycleDirection,
    k: int,
    found: int,
)
    requires
        1 <= k <= found <= assigned.len(),
        assigned[stepped(source, assigned.len() as int, direction, found)].len() > 0,
        forall|j: int|
            k <= j < found ==> assigned[#[trigger] stepped(
                source,
                assigned.len() as int,
                direction,
                j,
            )].len() == 0,
    ensures
        next_valid_from(assigned, source, direction, k) == Some(
            stepped(source, assigned.len() as int, direction, found),
        ),
    decreases found - k,
{
    if k < found {
        assert(assigned[stepped(source, assigned.len() as int, direction, k)].len() == 0);
        lemma_next_valid_from(assigned, source, direction, k + 1, found);
    }
}

/// Where there is a next button, the number of steps to it.
proof fn lemma_next_valid_distance(
    assigned: Seq<Seq<WindowInfo>>,
    source: int,
    direction: CycleDirection,
    k: int,
) -> (found: int)
    requires
        1 <= k,
        next_valid_from(assigned, source, direction, k) is Some,
    ensures
        k <= found <= assigned.len(),
        next_valid_from(assigned, source, direction, k) == Some(
            stepped(source, assigned.len() as int, direction, found),
        ),
        assigned[stepped(source, assigned.len() as int, direction, found)].len() > 0,
        forall|j: int|
            k <= j < found ==> assigned[#[trigger] stepped(
                source,
                assigned.len() as int,
                direction,
                j,
            )].len() == 0,
    decreases assigned.len() - k + 1,
{
    if assigned[stepped(source, assigned.len() as int, direction, k)].len() > 0 {
        k
    } else {
        lemma_next_valid_distance(assigned, source, direction, k + 1)
    }
}

/// There is a next button exactly where any button has windows, and it has some.
pub proof fn law_next_valid_exists(
    assigned: Seq<Seq<WindowInfo>>,
    source: int,
    direction: CycleDirection,
)
    requires
        0 <= source < assigned.len(),
    ensures
        next_valid(assigned, source, direction) is Some <==> exists|b: int|
            0 <= b < assigned.len() && (#[trigger] assigned[b]).len() > 0,
        next_valid(assigned, source, direction) matches Some(target) ==> {
            &&& 0 <= target < assigned.len()
            &&& assigned[target].len() > 0
        },
{
    if next_valid(assigned, source, direction) is Some {
        let k = lemma_next_valid_distance(assigned, source, direction, 1);
    }
    if exists|b: int| 0 <= b < assigned.len() && (#[trigger] assigned[b]).len() > 0 {
        let b = choose|b: int| 0 <= b < assigned.len() && (#[trigger] assigned[b]).len() > 0;
        let d = distance(source, b, assigned.len() as int, direction);
        lemma_valid_ahead(assigned, source, direction, 1, d);
    }
}

/// The number of steps from `i` to `t`, a full round where they are the same.
pub open spec fn distance(i: int, t: int, n: int, direction: CycleDirection) -> int {
    match direction {
        CycleDirection::Forward => if t > i {
            t - i
        } else {
            t - i + n
        },
        CycleDirection::Backward => if t < i {
            i - t
        } else {
            i - t + n
        },
    }
}

proof fn lemma_valid_ahead(
    assigned: Seq<Seq<WindowInfo>>,
    source: int,
    direction: CycleDirection,
    k: int,
    d: int,
)
    requires
        0 <= source < assigned.len(),
        1 <= k <= d <= assigned.len(),
        assigned[stepped(source, assigned.len() as int, direction, d)].len() > 0,
    ensures
        next_valid_from(assigned, source, direction, k) is Some,
    decreases d - k,
{
    if assigned[stepped(source, assigned.len() as int, direction, k)].len() == 0 {
        lemma_valid_ahead(assigned, source, direction, k + 1, d);
    }
}

/// Cycling one way and then the other leads back to a button with windows.
pub proof fn law_cycle_there_and_back(
    assigned: Seq<Seq<WindowInfo>>,
    source: int,
    direction: CycleDirection,
)
    requires
        0 <= source < assigned.len(),
        assigned[source].len() > 0,
    ensures
        next_valid(assigned, source, direction) matches Some(target) && next_valid(
            assigned,
            target,
            reversed(direction),
        ) == Some(source),
{
    let n = assigned.len() as int;
    law_next_valid_exists(assigned, source, direction);
    let k = lemma_next_valid_distance(assigned, source, direction, 1);
    let target = stepped(source, n, direction, k);
    let back = reversed(direction);
    assert forall|j: int| 1 <= j < k implies assigned[#[trigger] stepped(
        target,
        n,
        back,
        j,
    )].len() == 0 by {
        assert(stepped(target, n, back, j) == stepped(source, n, direction, k - j));
    }
    assert(stepped(target, n, back, k) == source);
    lemma_next_valid_from(assigned, target, back, 1, k);
}

/// The button reached by pressing the hotkey `presses` times.
pub open spec fn after_presses(
    assigned: Seq<Seq<WindowInfo>>,
    source: int,
    direction: CycleDirection,
    presses: nat,
) -> Option<int>
    decreases presses,
{
    if presses == 0 {
        Some(source)
    } else {
        match next_valid(assigned, source, direction) {
            Some(next) => after_presses(assigned, next, direction, (presses - 1) as nat),
            None => None,
        }
    }
}

/// From every button, pressing one hotkey often enough reaches every button with windows.
pub proof fn law_cycle_reaches_every_button(
    assigned: Seq<Seq<WindowInfo>>,
    source: int,
    direction: CycleDirection,
    target: int,
)
    requires
        0 <= source < assigned.len(),
        0 <= target < assigned.len(),
        assigned[target].len() > 0,
    ensures
        exists|presses: nat|
            presses >= 1 && #[trigger] after_presses(assigned, source, direction, presses) == Some(
                target,
            ),
    decreases distance(source, target, assigned.len() as int, direction),
{
    let n = assigned.len() as int;
    let d = distance(source, target, n, direction);
    assert(stepped(source, n, direction, d) == target);
    lemma_valid_ahead(assigned, source, direction, 1, d);
    let k = lemma_next_valid_distance(assigned, source, direction, 1);
    assert(k <= d) by {
        if d < k {
            assert(assigned[stepped(source, n, direction, d)].len() == 0);
        }
    }
    let next = stepped(source, n, direction, k);
    if next == target {
        assert(after_presses(assigned, next, direction, 0) == Some(target));
        assert(after_presses(assigned, source, direction, 1) == Some(target));
    } else {
        law_cycle_reaches_every_button(assigned, next, direction, target);
        let more = choose|presses: nat|
            presses >= 1 && #[trigger] after_presses(assigned, next, direction, presses) == Some(
                target,
            );
        assert(after_presses(assigned, source, direction, more + 1) == Some(target));
    }
}

/// Returns the index of the next button with windows, or `None` if no button has any.
pub fn get_next_valid_button_index(
    button_map: &ButtonWindowMap,
    source_index: usize,
    direction: CycleDirection,
) -> (index: Option<usize>)
    requires
        source_index < button_map.assigned().len(),
    ensures
        index matches Some(i) ==> next_valid(
            button_map.assigned(),
            source_index as int,
            direction,
        ) == Some(i as int),
        index is None ==> next_valid(
            button_map.assigned(),
            source_index as int,
            direction,
        ) is None,
{
    let count = button_map.len();
    let mut target: usize = source_index;
    let mut attempts: usize = 0;
    while attempts < count
        invariant
            count == button_map.assigned().len(),
            source_index < count,
            attempts <= count,
            target == stepped(source_index as int, count as int, direction, attempts as int),
            next_valid(button_map.assigned(), source_index as int, direction) == next_valid_from(
                button_map.assigned(),
                source_index as int,
                direction,
                attempts + 1,
            ),
        decreases count - attempts,
    {
        attempts = attempts + 1;
        target = match direction {
            CycleDirection::Forward => if target + 1 == count {
                0
            } else {
                target + 1
            },
            CycleDirection::Backward => if target == 0 {
                count - 1
            } else {
                target - 1
            },
        };
        if button_map.find_windows_by_button(target).len() > 0 {
            return Some(target);
        }
    }
    None
}

/// Forward is to the right: the next button is the nearest one with windows to the right of the
/// source, and where there is none, the leftmost one of all.
pub proof fn law_forward_is_the_nearest_to_the_right(
    assigned: Seq<Seq<WindowInfo>>,
    source: int,
    target: int,
)
    requires
        0 <= source < assigned.len(),
        next_valid(assigned, source, CycleDirection::Forward) == Some(target),
    ensures
        0 <= target < assigned.len(),
        assigned[target].len() > 0,
        target > source ==> forall|b: int|
            source < b < target ==> (#[trigger] assigned[b]).len() == 0,
        target <= source ==> forall|b: int|
            source < b < assigned.len() ==> (#[trigger] assigned[b]).len() == 0,
        target <= source ==> forall|b: int|
            0 <= b < target ==> (#[trigger] assigned[b]).len() == 0,
{
    let n = assigned.len() as int;
    let forward = CycleDirection::Forward;
    law_next_valid_exists(assigned, source, forward);
    let k = lemma_next_valid_distance(assigned, source, forward, 1);
    assert forall|b: int| source < b < n && (target <= source || b < target) implies (
    #[trigger] assigned[b]).len() == 0 by {
        assert(stepped(source, n, forward, b - source) == b);
    }
    assert forall|b: int| target <= source && 0 <= b < target implies (
    #[trigger] assigned[b]).len() == 0 by {
        assert(stepped(source, n, forward, b - source + n) == b);
    }
}

/// Backward is to the left: the next button is the nearest one with windows to the left of the
/// source, and where there is none, the rightmost one of all.
pub proof fn law_backward_is_the_nearest_to_the_left(
    assigned: Seq<Seq<WindowInfo>>,
    source: int,
    target: int,
)
    requires
        0 <= source < assigned.len(),
        next_valid(assigned, source, CycleDirection::Backward) == Some(target),
    ensures
        0 <= target < assigned.len(),
        assigned[target].len() > 0,
        target < source ==> forall|b: int|
            target < b < source ==> (#[trigger] assigned[b]).len() == 0,
        target >= source ==> forall|b: int|
            0 <= b < source ==> (#[trigger] assigned[b]).len() == 0,
        target >= source ==> forall|b: int|
            target < b < assigned.len() ==> (#[trigger] assigned[b]).len() == 0,
{
    let n = assigned.len() as int;
    let backward = CycleDirection::Backward;
    law_next_valid_exists(assigned, source, backward);
    let k = lemma_next_valid_distance(assigned, source, backward, 1);
    assert forall|b: int| 0 <= b < source && (target >= source || b > target) implies (
    #[trigger] assigned[b]).len() == 0 by {
        assert(stepped(source, n, backward, source - b) == b);
    }
    assert forall|b: int| target >= source && target < b < n implies (
    #[trigger] assigned[b]).len() == 0 by {
        assert(stepped(source, n, backward, source - b + n) == b);
    }
}

/// Where every button has windows, cycling goes from each button to the one right beside it.
pub proof fn law_full_taskbar_cycles_step_by_step(assigned: Seq<Seq<WindowInfo>>, source: int)
    requires
        0 <= source < assigned.len(),
        forall|b: int| 0 <= b < assigned.len() ==> (#[trigger] assigned[b]).len() > 0,
    ensures
        next_valid(assigned, source, CycleDirection::Forward) == Some(
            if source + 1 < assigned.len() {
                source + 1
            } else {
                0
            },
        ),
        next_valid(assigned, source, CycleDirection::Backward) == Some(
            if source > 0 {
                source - 1
            } else {
                assigned.len() - 1
            },
        ),
{
    let n = assigned.len() as int;
    law_next_valid_exists(assigned, source, CycleDirection::Forward);
    law_next_valid_exists(assigned, source, CycleDirection::Backward);
    assert(assigned[source].len() > 0);
    let right = next_valid(assigned, source, CycleDirection::Forward)->0;
    let left = next_valid(assigned, source, CycleDirection::Backward)->0;
    law_forward_is_the_nearest_to_the_right(assigned, source, right);
    law_backward_is_the_nearest_to_the_left(assigned, source, left);
    if source + 1 < n {
        assert(assigned[source + 1].len() > 0);
    }
    if source > 0 {
        assert(assigned[source - 1].len() > 0);
    }
    assert(assigned[0].len() > 0);
    assert(assigned[n - 1].len() > 0);
}

} // verus!
