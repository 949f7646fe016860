//! Bringing a window to the foreground: directly first, by attaching to the thread of the
//! foreground window where that is refused.

use vstd::prelude::*;

verus! {

/// What is to be done to a window, in order.
#[derive(Debug, Clone, Copy, PartialEq, Eq, Structural)]
pub enum ActivateAction {
    /// Restore the minimized target.
    Restore,
    /// Allow any process to set the foreground window.
    AllowSetForeground,
    /// Make the target the foreground window.
    SetForeground,
    /// Bring the target to the top.
    BringToTop,
    /// Detach the input of this thread from that of the foreground window.
    Detach,
}

/// How to go on with an activation.
#[derive(Debug, PartialEq, Eq)]
pub enum ActivateStep {
    /// The target is in the foreground already.
    Done,
    /// Perform the actions, then ask for the next step.
    Perform(Vec<ActivateAction>),
    /// Perform the actions; the target is in the foreground or the activation has failed.
    PerformLast(Vec<ActivateAction>),
    /// Attach the input of this thread to that of the given one, then ask for the next step.
    Attach(u32),
}

/// The first attempt: nothing if the target is in the foreground, a direct switch otherwise.
pub fn first_attempt(foreground: isize, target: isize, minimized: bool) -> (step: ActivateStep)
    ensures
        foreground == target ==> step is Done,
        foreground != target ==> (step matches ActivateStep::Perform(actions) && actions@ == if
            minimized {
            seq![
                ActivateAction::Restore,
                ActivateAction::AllowSetForeground,
                ActivateAction::SetForeground,
                ActivateAction::BringToTop,
            ]
        } else {
            seq![
                ActivateAction::AllowSetForeground,
                ActivateAction::SetForeground,
                ActivateAction::BringToTop,
            ]
        }),
{
    if foreground == target {
        return ActivateStep::Done;
    }
    let mut actions: Vec<ActivateAction> = Vec::new();
    if minimized {
        actions.push(ActivateAction::Restore);
    }
    actions.push(ActivateAction::AllowSetForeground);
    actions.push(ActivateAction::SetForeground);
    actions.push(ActivateAction::BringToTop);
    ActivateStep::Perform(actions)
}

/// The second attempt, with the window that is in the foreground now.
///
/// `foreground_thread` is the thread of the window that was in the foreground first, zero where
/// there was none. Without another thread to attach to, the direct switch is tried again.
pub fn second_attempt(
    now: isize,
    target: isize,
    foreground_thread: u32,
    current_thread: u32,
) -> (step: ActivateStep)
    ensures
        now == target ==> step is Done,
        now != target && (foreground_thread == 0 || foreground_thread == current_thread) ==> (
        step matches ActivateStep::PerformLast(actions) && actions@ == seq![
            ActivateAction::BringToTop,
            ActivateAction::SetForeground,
        ]),
        now != target && foreground_thread != 0 && foreground_thread != current_thread ==> step
            == ActivateStep::Attach(foreground_thread),
{
    if now == target {
        return ActivateStep::Done;
    }
    if foreground_thread == 0 || foreground_thread == current_thread {
        let mut actions: Vec<ActivateAction> = Vec::new();
        actions.push(ActivateAction::BringToTop);
        actions.push(ActivateAction::SetForeground);
        return ActivateStep::PerformLast(actions);
    }
    ActivateStep::Attach(foreground_thread)
}

/// The last attempt, after the threads were attached or that was refused. The input is detached
/// exactly where it was attached.
pub fn attached_attempt(attached: bool) -> (step: ActivateStep)
    ensures
        step matches ActivateStep::PerformLast(actions) && actions@ == if attached {
            seq![
                ActivateAction::SetForeground,
                ActivateAction::BringToTop,
                ActivateAction::Detach,
            ]
        } else {
            seq![ActivateAction::SetForeground, ActivateAction::BringToTop]
        },
{
    let mut actions: Vec<ActivateAction> = Vec::new();
    actions.push(ActivateAction::SetForeground);
    actions.push(ActivateAction::BringToTop);
    if attached {
        actions.push(ActivateAction::Detach);
    }
    ActivateStep::PerformLast(actions)
}

} // verus!
