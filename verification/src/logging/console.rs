//! Manages the Debug Console window. Used for real-time logging.
//!
//! A GUI application has no standard output. So the application starts itself once more as a
//! console worker, which owns a console window and prints what it reads from its standard input.
//! The records are written to that pipe.

use vstd::prelude::*;

verus! {

/// The console as the application sees it.
#[derive(Debug, Clone, Copy, PartialEq, Eq, Structural)]
pub struct Console {
    /// The console is meant to be visible.
    pub visible: bool,
    /// The application runs in CLI debug mode, and logs to standard output.
    pub cli_mode: bool,
    /// There is a pipe to the worker.
    pub has_pipe: bool,
    /// There is a worker.
    pub has_child: bool,
}

/// What is to be done to show or hide the console.
#[derive(Debug, Clone, Copy, PartialEq, Eq, Structural)]
pub enum ConsoleAction {
    Nothing,
    /// Close the console, then start a worker and report to [`Console::spawned`].
    Spawn,
    /// Close the console.
    Kill,
}

impl Console {
    /// No console.
    pub fn new(cli_mode: bool) -> (console: Self)
        ensures
            console == (Console { visible: false, cli_mode, has_pipe: false, has_child: false }),
    {
        Console { visible: false, cli_mode, has_pipe: false, has_child: false }
    }

    /// The console after the worker was closed.
    pub open spec fn closed(&self) -> Console {
        Console { has_pipe: false, has_child: false, ..*self }
    }

    /// Closes the console: drops the pipe first, so that the worker reads its end. Tells whether
    /// there is a worker to be killed and waited for.
    pub fn kill_console(&mut self) -> (kill_child: bool)
        ensures
            kill_child == old(self).has_child,
            *final(self) == old(self).closed(),
    {
        let kill_child = self.has_child;
        self.has_pipe = false;
        self.has_child = false;
        kill_child
    }

    /// Takes note of how the start of a worker went. A console that could not be started is not
    /// visible.
    pub fn spawned(&mut self, started: bool)
        ensures
            started ==> *final(self) == (Console { has_pipe: true, has_child: true, ..*old(self) }),
            !started ==> *final(self) == (Console { visible: false, ..*old(self) }),
    {
        if started {
            self.has_child = true;
            self.has_pipe = true;
        } else {
            self.visible = false;
        }
    }
}

/// Toggles the Debug Console window. In CLI debug mode there is none to toggle.
pub fn toggle(console: &mut Console) -> (action: ConsoleAction)
    ensures
        old(console).cli_mode ==> action == ConsoleAction::Nothing && *final(console) == *old(
            console,
        ),
        !old(console).cli_mode ==> {
            &&& *final(console) == (Console { visible: !old(console).visible, ..*old(console) })
            &&& action == if old(console).visible {
                ConsoleAction::Kill
            } else {
                ConsoleAction::Spawn
            }
        },
{
    if console.cli_mode {
        return ConsoleAction::Nothing;
    }
    let new_visible = !console.visible;
    console.visible = new_visible;
    if new_visible {
        ConsoleAction::Spawn
    } else {
        ConsoleAction::Kill
    }
}

/// Interprets escape sequences in what is printed.
pub const ENABLE_VIRTUAL_TERMINAL_PROCESSING: u32 = 0x0004;

/// Lets the user select text with the mouse.
pub const ENABLE_QUICK_EDIT_MODE: u32 = 0x0040;

/// Makes the input flags count.
pub const ENABLE_EXTENDED_FLAGS: u32 = 0x0080;

/// The output mode of the worker's console: with colours.
pub fn output_mode(mode: u32) -> (changed: u32)
    ensures
        changed == mode | ENABLE_VIRTUAL_TERMINAL_PROCESSING,
        changed & ENABLE_VIRTUAL_TERMINAL_PROCESSING == ENABLE_VIRTUAL_TERMINAL_PROCESSING,
{
    assert((mode | 0x0004u32) & 0x0004u32 == 0x0004u32) by (bit_vector);
    mode | ENABLE_VIRTUAL_TERMINAL_PROCESSING
}

/// The input mode of the worker's console: without selection by mouse.
pub fn input_mode(mode: u32) -> (changed: u32)
    ensures
        changed == (mode & !ENABLE_QUICK_EDIT_MODE) | ENABLE_EXTENDED_FLAGS,
        changed & ENABLE_QUICK_EDIT_MODE == 0,
{
    assert(((mode & !0x0040u32) | 0x0080u32) & 0x0040u32 == 0) by (bit_vector);
    (mode & !ENABLE_QUICK_EDIT_MODE) | ENABLE_EXTENDED_FLAGS
}

/// The number of bytes that the worker prints after a read, or nothing where it ends: the input has
/// come to its end, because the application has closed, or could not be read.
pub fn worker_prints(read: Option<usize>) -> (count: Option<usize>)
    ensures
        count == if read == Some(0usize) {
            None
        } else {
            read
        },
{
    match read {
        Some(n) => if n == 0 {
            None
        } else {
            Some(n)
        },
        None => None,
    }
}

/// Where a record goes.
#[derive(Debug, Clone, Copy, PartialEq, Eq, Structural)]
pub enum WriteTarget {
    /// To standard output; the result of a write is reported to [`PipeWriter::stdout_written`], that
    /// of a flush is ignored.
    Stdout,
    /// To the pipe; the result is reported to [`PipeWriter::written`] or [`PipeWriter::flushed`].
    Pipe,
    /// Nowhere.
    Discard,
}

/// Makes writers that log to the pipe of the console worker.
///
/// If the pipe does not exist (console not toggled or already closed), the data is silently
/// discarded.
#[derive(Debug, Clone, Copy, PartialEq, Eq, Structural)]
pub struct ConsoleWriter;

impl ConsoleWriter {
    /// A writer.
    pub fn make_writer(&self) -> (writer: PipeWriter)
        ensures
            writer == PipeWriter,
    {
        PipeWriter
    }
}

/// Writer that executes data writing to the pipe.
///
/// A write never fails: whoever logs would panic. When a broken pipe is detected, the pipe is dropped,
/// the console is no longer visible, and the data is swallowed. What standard output does not take is
/// swallowed, too.
#[derive(Debug, Clone, Copy, PartialEq, Eq, Structural)]
pub struct PipeWriter;

impl PipeWriter {
    /// Where the next record goes.
    pub fn target(&self, console: &Console) -> (target: WriteTarget)
        ensures
            target == if console.cli_mode {
                WriteTarget::Stdout
            } else if console.has_pipe {
                WriteTarget::Pipe
            } else {
                WriteTarget::Discard
            },
    {
        if console.cli_mode {
            return WriteTarget::Stdout;
        }
        if console.has_pipe {
            WriteTarget::Pipe
        } else {
            WriteTarget::Discard
        }
    }

    /// The number of bytes that count as written to standard output, out of `length`; `written` is
    /// what it took, nothing where the write failed.
    pub fn stdout_written(&self, written: Option<usize>, length: usize) -> (count: usize)
        ensures
            count == match written {
                Some(n) => n,
                None => length,
            },
    {
        match written {
            Some(n) => n,
            None => length,
        }
    }

    /// The console after its pipe turned out to be broken.
    pub open spec fn broken(console: Console) -> Console {
        Console { has_pipe: false, visible: false, ..console }
    }

    /// The number of bytes that count as written, out of `length`; `written` is what the pipe took,
    /// nothing where it is broken.
    pub fn written(&self, console: &mut Console, written: Option<usize>, length: usize) -> (count:
        usize)
        ensures
            count == match written {
                Some(n) => n,
                None => length,
            },
            *final(console) == match written {
                Some(_) => *old(console),
                None => Self::broken(*old(console)),
            },
    {
        match written {
            Some(n) => n,
            None => {
                console.has_pipe = false;
                console.visible = false;
                length
            },
        }
    }

    /// Takes note of how a flush of the pipe went.
    pub fn flushed(&self, console: &mut Console, ok: bool)
        ensures
            *final(console) == if ok {
                *old(console)
            } else {
                Self::broken(*old(console))
            },
    {
        if !ok {
            console.has_pipe = false;
            console.visible = false;
        }
    }
}

/// Closing the console drops the pipe and the worker, and a broken pipe drops itself and hides the
/// console; neither changes anything else.
pub proof fn law_closed_and_broken_console(console: Console)
    ensures
        !console.closed().has_pipe && !console.closed().has_child,
        console.closed().visible == console.visible,
        console.closed().cli_mode == console.cli_mode,
        !PipeWriter::broken(console).has_pipe && !PipeWriter::broken(console).visible,
        PipeWriter::broken(console).has_child == console.has_child,
        PipeWriter::broken(console).cli_mode == console.cli_mode,
{
}

} // verus!
