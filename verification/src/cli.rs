//! Command-line arguments.

use vstd::prelude::*;
use vstd::string::*;

use crate::text::text_eq;

verus! {

/// What the process is started as.
#[derive(Debug, Clone, Copy, PartialEq, Eq, Structural)]
pub enum RunMode {
    /// The process that owns a console window and prints log lines into it.
    ConsoleWorker,
    /// The settings window.
    SettingsUi,
    /// The application itself.
    BackgroundApp,
}

impl Default for RunMode {
    fn default() -> (mode: Self)
        ensures
            mode == RunMode::BackgroundApp,
    {
        RunMode::BackgroundApp
    }
}

/// The switches that the process was started with.
#[derive(Debug, Clone, Copy, PartialEq, Eq, Structural)]
pub struct Args {
    pub debug: bool,
    pub verbose: bool,
    pub combine_enabled: bool,
    pub reopen_ui: bool,
    pub mode: RunMode,
}

impl Default for Args {
    fn default() -> (args: Self)
        ensures
            args == (Args {
                debug: false,
                verbose: false,
                combine_enabled: false,
                reopen_ui: false,
                mode: RunMode::BackgroundApp,
            }),
    {
        Args {
            debug: false,
            verbose: false,
            combine_enabled: false,
            reopen_ui: false,
            mode: RunMode::BackgroundApp,
        }
    }
}

/// One of the arguments is `switch`.
pub open spec fn given(raw: Seq<String>, switch: Seq<char>) -> bool {
    exists|i: int| 0 <= i < raw.len() && (#[trigger] raw[i])@ == switch
}

/// Checks whether one of the arguments is `switch`.
pub fn is_given(raw: &[String], switch: &str) -> (r: bool)
    ensures
        r == given(raw@, switch@),
{
    for i in 0..raw.len()
        invariant
            forall|k: int| 0 <= k < i ==> (#[trigger] raw@[k])@ != switch@,
    {
        if text_eq(raw[i].as_str(), switch) {
            return true;
        }
    }
    false
}

/// Reads the switches out of the raw arguments, in any order; unknown arguments are ignored.
///
/// A console worker is never a settings window.
pub fn parse_args(raw: &[String]) -> (args: Args)
    ensures
        args.debug == given(raw@, "--debug"@),
        args.verbose == (given(raw@, "-v"@) || given(raw@, "--verbose"@)),
        args.combine_enabled == given(raw@, "--combine-mode"@),
        args.reopen_ui == given(raw@, "--reopen-ui"@),
        args.mode == if given(raw@, "--console-worker"@) {
            RunMode::ConsoleWorker
        } else if given(raw@, "--settings-ui"@) {
            RunMode::SettingsUi
        } else {
            RunMode::BackgroundApp
        },
{
    let mut args = Args::default();
    args.debug = is_given(raw, "--debug");
    args.verbose = is_given(raw, "-v") || is_given(raw, "--verbose");
    args.combine_enabled = is_given(raw, "--combine-mode");
    args.reopen_ui = is_given(raw, "--reopen-ui");
    if is_given(raw, "--console-worker") {
        args.mode = RunMode::ConsoleWorker;
    } else if is_given(raw, "--settings-ui") {
        args.mode = RunMode::SettingsUi;
    } else {
        args.mode = RunMode::BackgroundApp;
    }
    args
}

/// The note on a switch, where it is set.
pub open spec fn note(set: bool, line: Seq<char>) -> Seq<char> {
    if set {
        line
    } else {
        Seq::empty()
    }
}

/// The text printed at the start: the keys, the switches, and a line for each switch that is set.
pub fn help_text(args: &Args) -> (info: String)
    ensures
        info@
            == "\nWinGlide started:\n\tAlt+[  : cycle left\n\tAlt+]  : cycle right\n\tRight-click tray icon : menu\n\n\t-v/--verbose: enable debug logging\n\t--combine-mode: enable combine mode\n\t--debug: attach console for debugging"@
            + note(args.verbose, "\nVerbose logging enabled"@) + note(
            args.combine_enabled,
            "\nCombine mode enabled"@,
        ) + note(args.debug, "\nDebug console enabled"@),
{
    let mut info: String =
        "\nWinGlide started:\n\tAlt+[  : cycle left\n\tAlt+]  : cycle right\n\tRight-click tray icon : menu\n\n\t-v/--verbose: enable debug logging\n\t--combine-mode: enable combine mode\n\t--debug: attach console for debugging".to_owned();
    if args.verbose {
        info.append("\nVerbose logging enabled");
    }
    if args.combine_enabled {
        info.append("\nCombine mode enabled");
    }
    if args.debug {
        info.append("\nDebug console enabled");
    }
    info
}

/// A switch is given exactly if some argument is that text: whole, in the same case, at any place.
pub proof fn law_switch_is_a_whole_argument(before: Seq<String>, arg: String, after: Seq<String>)
    ensures
        given(before.push(arg) + after, arg@),
        !given(Seq::empty(), arg@),
        forall|switch: Seq<char>| #[trigger]
            given(before.push(arg) + after, switch) <==> given(before, switch) || arg@ == switch
                || given(after, switch),
{
    let all = before.push(arg) + after;
    assert(all[before.len() as int]@ == arg@);
    assert forall|switch: Seq<char>| #[trigger] given(all, switch) <==> given(before, switch)
        || arg@ == switch || given(after, switch) by {
        if given(all, switch) {
            let i = choose|i: int| 0 <= i < all.len() && (#[trigger] all[i])@ == switch;
            if i < before.len() {
                assert(before[i]@ == switch);
            } else if i > before.len() {
                assert(after[i - before.len() - 1]@ == switch);
            }
        }
        if given(before, switch) {
            let i = choose|i: int| 0 <= i < before.len() && (#[trigger] before[i])@ == switch;
            assert(all[i]@ == switch);
        }
        if given(after, switch) {
            let i = choose|i: int| 0 <= i < after.len() && (#[trigger] after[i])@ == switch;
            assert(all[before.len() + 1 + i]@ == switch);
        }
        if arg@ == switch {
            assert(all[before.len() as int]@ == switch);
        }
    }
}

/// A note is its line where the switch is set, and nothing otherwise.
pub proof fn law_note_needs_its_switch(line: Seq<char>)
    ensures
        note(true, line) == line,
        note(false, line).len() == 0,
{
}

} // verus!
