//! Indicator window without interaction: the dots are drawn, and the mouse passes through.

use vstd::prelude::*;

use crate::virtual_desktop::indicator::{WM_APP_VD_EVENT, WM_DISPLAYCHANGE, WM_SETTINGCHANGE};

verus! {

pub const WM_NCHITTEST: u32 = 0x0084;

/// What a message to the indicator asks for.
#[derive(Debug, Clone, Copy, PartialEq, Eq, Structural)]
pub enum IndicatorStep {
    /// Draw the indicator.
    Render,
    /// Post a message to draw the indicator later.
    PostRender,
    /// The mouse passes through.
    Transparent,
    /// The default handling answers.
    Default,
}

impl IndicatorStep {
    /// The result of the message; nothing where the default handling answers.
    pub open spec fn answer(&self) -> Option<isize> {
        match self {
            IndicatorStep::Default => None,
            IndicatorStep::Transparent => Some(-1isize),
            _ => Some(0isize),
        }
    }

    /// The result of the message; nothing where the default handling answers.
    pub fn result(&self) -> (result: Option<isize>)
        ensures
            result == self.answer(),
    {
        match self {
            IndicatorStep::Default => None,
            IndicatorStep::Transparent => Some(-1),
            _ => Some(0),
        }
    }
}

/// Indicator window displaying the virtual desktops on the Taskbar.
#[derive(Debug, Clone, Copy, PartialEq, Eq, Structural)]
pub struct IndicatorWindow {
    pub hwnd: isize,
}

impl IndicatorWindow {
    /// Core Message Procedure for the Indicator window.
    pub fn window_proc(msg: u32) -> (step: IndicatorStep)
        ensures
            step == if msg == WM_APP_VD_EVENT {
                IndicatorStep::Render
            } else if msg == WM_DISPLAYCHANGE || msg == WM_SETTINGCHANGE {
                IndicatorStep::PostRender
            } else if msg == WM_NCHITTEST {
                IndicatorStep::Transparent
            } else {
                IndicatorStep::Default
            },
    {
        if msg == WM_APP_VD_EVENT {
            IndicatorStep::Render
        } else if msg == WM_DISPLAYCHANGE || msg == WM_SETTINGCHANGE {
            IndicatorStep::PostRender
        } else if msg == WM_NCHITTEST {
            IndicatorStep::Transparent
        } else {
            IndicatorStep::Default
        }
    }

    /// The opacity of the dots in percent: the current desktop is opaque, the others are half as much.
    pub fn dot_opacities(count: usize, current: usize) -> (opacities: Vec<u32>)
        ensures
            opacities@.len() == count,
            forall|i: int|
                0 <= i < count ==> #[trigger] opacities@[i] == if i == current {
                    100u32
                } else {
                    50
                },
    {
        let mut opacities: Vec<u32> = Vec::new();
        for i in 0..count
            invariant
                opacities@.len() == i,
                forall|k: int|
                    0 <= k < i ==> #[trigger] opacities@[k] == if k == current {
                        100u32
                    } else {
                        50
                    },
        {
            let opacity: u32 = if i == current {
                100
            } else {
                50
            };
            opacities.push(opacity);
        }
        opacities
    }
}

/// The mouse passes through exactly where the message asks what is under it; the default handling
/// answers what asks for no step.
pub proof fn law_answers_of_the_plain_indicator(step: IndicatorStep)
    ensures
        step.answer() is None <==> step == IndicatorStep::Default,
        step.answer() == Some(-1isize) <==> step == IndicatorStep::Transparent,
        step.answer() matches Some(v) ==> v == 0 || v == -1,
{
}

} // verus!
