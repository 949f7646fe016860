//! Reads the AppUserModelID of a window: the mechanism by which Windows groups taskbar buttons.
//!
//! The window's own property comes first. Where it has none, the process is asked. The lookup is a
//! sequence of steps: each function takes what the system answered and names the next step.

use vstd::prelude::*;
use vstd::slice::slice_subrange;

use crate::parsing;
use crate::parsing::from_utf16_lossy;

verus! {

/// What to do next in the lookup of an AUMID.
#[derive(Debug)]
pub enum AumidStep {
    /// Find out which process owns the window.
    FindProcess,
    /// Open this process for limited queries.
    OpenProcess(u32),
    /// Ask the process for the length of its AUMID.
    AskLength,
    /// Ask the process for its AUMID, into a buffer of this many units.
    ReadName(u32),
    /// Close the process; the lookup has ended with this result.
    Close(Option<String>),
    /// The lookup has ended with this result.
    Done(Option<String>),
}

/// The first step, from the property of the window; it is absent where it could not be read, is
/// not set, or is no text.
///
/// An empty property counts as none.
pub fn after_property(property: Option<String>) -> (step: AumidStep)
    ensures
        property matches Some(s) && s@.len() > 0 ==> step == AumidStep::Done(property),
        property is None || property->0@.len() == 0 ==> step == AumidStep::FindProcess,
{
    match property {
        Some(s) => if s.as_str().unicode_len() == 0 {
            AumidStep::FindProcess
        } else {
            AumidStep::Done(Some(s))
        },
        None => AumidStep::FindProcess,
    }
}

/// The step after the owner of the window was asked for; zero stands for none.
pub fn after_process_id(process_id: u32) -> (step: AumidStep)
    ensures
        step == if process_id == 0 {
            AumidStep::Done(None)
        } else {
            AumidStep::OpenProcess(process_id)
        },
{
    if process_id == 0 {
        AumidStep::Done(None)
    } else {
        AumidStep::OpenProcess(process_id)
    }
}

/// The step after the attempt to open the process.
pub fn after_open(opened: bool) -> (step: AumidStep)
    ensures
        step == if opened {
            AumidStep::AskLength
        } else {
            AumidStep::Done(None)
        },
{
    if opened {
        AumidStep::AskLength
    } else {
        AumidStep::Done(None)
    }
}

/// The step after the length was asked for; zero where the process has no AUMID.
pub fn after_length(length: u32) -> (step: AumidStep)
    ensures
        step == if length > 0 {
            AumidStep::ReadName(length)
        } else {
            AumidStep::Close(None)
        },
{
    if length > 0 {
        AumidStep::ReadName(length)
    } else {
        AumidStep::Close(None)
    }
}

/// The step after the name was asked for, with the buffer and the length that the system reported
/// for it, which counts the terminating zero.
pub fn after_name(read: bool, buffer: &[u16], length: u32) -> (step: AumidStep)
    requires
        read ==> 1 <= length <= buffer@.len() + 1,
    ensures
        !read ==> step == AumidStep::Close(None),
        read ==> (step matches AumidStep::Close(Some(s)) && s@ == parsing::utf16_lossy(
            buffer@.take(length - 1),
        )),
{
    if read {
        let units = slice_subrange(buffer, 0, (length - 1) as usize);
        assert(units@ == buffer@.take(length - 1));
        AumidStep::Close(Some(from_utf16_lossy(units)))
    } else {
        AumidStep::Close(None)
    }
}

/// What the system answers in the course of a lookup; the later answers count only where the lookup
/// gets that far.
#[derive(Debug)]
pub struct AumidAnswers {
    /// The property of the window.
    pub property: Option<String>,
    /// The process that owns the window; zero where there is none.
    pub process_id: u32,
    /// The process could be opened.
    pub opened: bool,
    /// The length of the name of the process; zero where it has none.
    pub length: u32,
    /// The name could be read.
    pub read: bool,
    pub buffer: Vec<u16>,
    /// The length of the name in the buffer, with the terminating zero.
    pub reported: u32,
}

/// The AUMID that a lookup ends with: the property of the window, without one the name of its
/// process.
pub open spec fn looked_up(answers: AumidAnswers) -> Option<Seq<char>> {
    if answers.property is Some && answers.property->0@.len() > 0 {
        Some(answers.property->0@)
    } else if answers.process_id != 0 && answers.opened && answers.length > 0 && answers.read {
        Some(parsing::utf16_lossy(answers.buffer@.take(answers.reported - 1)))
    } else {
        None
    }
}

/// Gets the AppUserModelID of a window from all that the system answers, step by step.
pub fn get_aumid(answers: AumidAnswers) -> (found: Option<String>)
    requires
        answers.read ==> 1 <= answers.reported <= answers.buffer@.len() + 1,
    ensures
        found is Some <==> looked_up(answers) is Some,
        found matches Some(aumid) ==> looked_up(answers) == Some(aumid@),
{
    if let AumidStep::Done(found) = after_property(answers.property) {
        return found;
    }
    if let AumidStep::Done(found) = after_process_id(answers.process_id) {
        return found;
    }
    if let AumidStep::Done(found) = after_open(answers.opened) {
        return found;
    }
    if let AumidStep::Close(found) = after_length(answers.length) {
        return found;
    }
    match after_name(answers.read, &answers.buffer, answers.reported) {
        AumidStep::Close(found) => found,
        _ => None,
    }
}

/// A window's own AUMID outweighs that of its process; an empty one does not count.
pub proof fn law_own_aumid_comes_first(a: AumidAnswers, b: AumidAnswers)
    requires
        a.property == b.property,
    ensures
        a.property matches Some(own) ==> own@.len() > 0 ==> looked_up(a) == Some(own@)
            && looked_up(b) == Some(own@),
{
}

/// Without an AUMID of its own, a window has that of its process. It has none exactly if the process
/// is unknown, cannot be opened, has none or does not tell it.
pub proof fn law_process_is_asked_second(a: AumidAnswers)
    requires
        a.property matches Some(own) ==> own@.len() == 0,
        a.read ==> 1 <= a.reported <= a.buffer@.len() + 1,
    ensures
        looked_up(a) is None <==> a.process_id == 0 || !a.opened || a.length == 0 || !a.read,
        looked_up(a) matches Some(name) ==> name == parsing::utf16_lossy(
            a.buffer@.subrange(0, a.reported - 1),
        ),
{
    if a.read {
        assert(a.buffer@.take(a.reported - 1) =~= a.buffer@.subrange(0, a.reported - 1));
    }
}

} // verus!
