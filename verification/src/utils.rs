//! Small rules on names: shortening, cleaning button names, recognising system windows.

use vstd::prelude::*;
use vstd::string::*;

use crate::text;
use crate::text::{chars_of, find_last, text_eq};

verus! {

/// A text cut to `max_len` characters, with `...` behind it where something was cut.
pub open spec fn truncated(s: Seq<char>, max_len: nat) -> Seq<char> {
    if s.len() > max_len {
        s.take(max_len as int) + "..."@
    } else {
        s
    }
}

/// Truncates `s` to `max_len` characters, appending `...` if it is longer.
pub fn truncate(s: &str, max_len: usize) -> (short: String)
    ensures
        short@ == truncated(s@, max_len as nat),
{
    if s.unicode_len() > max_len {
        let mut short = s.substring_char(0, max_len).to_owned();
        short.append("...");
        short
    } else {
        s.to_owned()
    }
}

/// The part of a button name before the suffix that counts its windows.
///
/// Without ` running window` the name stands as it is. Otherwise everything from there on is
/// dropped, and with it everything from the last dash before it.
pub open spec fn cleaned_name(name: Seq<char>) -> Seq<char> {
    match text::last_occurrence(name, " running window"@) {
        Some(pos) => {
            let before = name.take(pos);
            match text::last_occurrence(before, " - "@) {
                Some(dash) => before.take(dash),
                None => match text::last_occurrence(before, " \u{2014} "@) {
                    Some(dash) => before.take(dash),
                    None => before,
                },
            }
        },
        None => name,
    }
}

/// Strips the suffix " - N running window(s)" from the taskbar button name.
///
/// - Single app: `"Notepad"` -> `"Notepad"`
/// - Multiple windows: `"Chrome - 3 running windows"` -> `"Chrome"`
/// - Pinned: `"Notepad - Pinned"` -> `"Notepad - Pinned"` (unchanged)
/// - VS Code: `"VS Code - main.rs - 1 running window"` -> `"VS Code - main.rs"`
pub fn clean_button_name(name: &str) -> (cleaned: String)
    ensures
        cleaned@ == cleaned_name(name@),
{
    let chars = chars_of(name);
    let suffix = chars_of(" running window");
    proof {
        text::lemma_last_occurrence(name@, " running window"@);
    }
    if let Some(pos) = find_last(&chars, &suffix) {
        let before_text = name.substring_char(0, pos);
        let before = chars_of(before_text);
        assert(before@ == name@.take(pos as int));
        let hyphen = chars_of(" - ");
        let dash = chars_of(" \u{2014} ");
        proof {
            text::lemma_last_occurrence(before@, " - "@);
            text::lemma_last_occurrence(before@, " \u{2014} "@);
        }
        if let Some(dash_pos) = find_last(&before, &hyphen) {
            return before_text.substring_char(0, dash_pos).to_owned();
        }
        if let Some(dash_pos) = find_last(&before, &dash) {
            return before_text.substring_char(0, dash_pos).to_owned();
        }
        return before_text.to_owned();
    }
    name.to_owned()
}

/// A name that does not count running windows is left unchanged.
pub proof fn law_clean_name_without_count(name: Seq<char>)
    requires
        !text::contains_text(name, " running window"@),
    ensures
        cleaned_name(name) == name,
{
    text::lemma_last_occurrence(name, " running window"@);
}

/// Cleaning only ever cuts characters off the end.
pub proof fn law_clean_name_is_prefix(name: Seq<char>)
    ensures
        cleaned_name(name).is_prefix_of(name),
{
    text::lemma_last_occurrence(name, " running window"@);
    if let Some(pos) = text::last_occurrence(name, " running window"@) {
        let before = name.take(pos);
        text::lemma_last_occurrence(before, " - "@);
        text::lemma_last_occurrence(before, " \u{2014} "@);
    }
}

/// The suffix that counts the windows of a button.
pub open spec fn count_suffix(n: nat) -> Seq<char> {
    " - "@ + text::decimal(n) + " running window"@ + if n == 1 {
        ""@
    } else {
        "s"@
    }
}

proof fn lemma_count_position(before: Seq<char>, tail: Seq<char>)
    requires
        tail.len() <= 1,
    ensures
        text::last_occurrence(before + " running window"@ + tail, " running window"@) == Some(
            before.len() as int,
        ),
{
    reveal_strlit(" running window");
    let words = " running window"@;
    let name = before + words + tail;
    let p = before.len() as int;
    assert(words.len() == 15);
    assert(name.subrange(p, p + 15) =~= words);
    assert forall|j: int| j > p implies !text::occurs_at(name, words, j) by {
        if text::occurs_at(name, words, j) {
            assert(name.subrange(j, j + 15)[0] == words[0]);
            assert(j == p + 1);
            assert(name[p + 1] == words[1]);
        }
    }
    text::lemma_is_last_occurrence(name, words, p);
}

proof fn lemma_dash_position(base: Seq<char>, n: nat)
    ensures
        text::last_occurrence(base + " - "@ + text::decimal(n), " - "@) == Some(base.len() as int),
{
    reveal_strlit(" - ");
    let dash = " - "@;
    let digits = text::decimal(n);
    let before = base + dash + digits;
    let q = base.len() as int;
    text::lemma_decimal_shape(n);
    assert(dash.len() == 3);
    assert(before.subrange(q, q + 3) =~= dash);
    assert forall|j: int| j > q implies !text::occurs_at(before, dash, j) by {
        if text::occurs_at(before, dash, j) {
            assert(before.subrange(j, j + 3)[0] == dash[0]);
            assert(before.subrange(j, j + 3)[1] == dash[1]);
            if j == q + 1 {
                assert(before[q + 1] == dash[1]);
            } else if j == q + 2 {
                assert(before[q + 3] == digits[0]);
            } else {
                assert(before[j] == digits[j - q - 3]);
            }
        }
    }
    text::lemma_is_last_occurrence(before, dash, q);
}

/// A name with a counting suffix is cleaned to the name without it, whatever dashes and counts
/// that name holds itself.
pub proof fn law_clean_name_with_count(base: Seq<char>, n: nat)
    ensures
        cleaned_name(base + count_suffix(n)) == base,
{
    let before = base + " - "@ + text::decimal(n);
    let tail = if n == 1 {
        ""@
    } else {
        "s"@
    };
    assert(tail.len() <= 1) by {
        reveal_strlit("");
        reveal_strlit("s");
    }
    let name = before + " running window"@ + tail;
    assert(base + count_suffix(n) =~= name);
    lemma_count_position(before, tail);
    lemma_dash_position(base, n);
    assert(name.take(before.len() as int) =~= before);
    assert(before.take(base.len() as int) =~= base);
}

/// The window classes that belong to the system: desktop, taskbar, content bridge, application
/// frame, input methods, tooltips, composition and animation.
pub open spec fn system_class(class_name: Seq<char>) -> bool {
    ||| class_name == "Progman"@
    ||| class_name == "WorkerW"@
    ||| class_name == "Shell_TrayWnd"@
    ||| class_name == "Shell_SecondaryTrayWnd"@
    ||| class_name == "Windows.UI.Composition.DesktopWindowContentBridge"@
    ||| class_name == "ApplicationFrame"@
    ||| class_name == "IME"@
    ||| class_name == "MSCTFIME UI"@
    ||| class_name == "IMEUI"@
    ||| class_name == "tooltips_class32"@
    ||| class_name == "DwmWindowComposition"@
    ||| class_name == "SysAnimate32"@
}

/// Checks whether a given class name is a system class.
pub fn is_system_class(class_name: &str) -> (is_system: bool)
    ensures
        is_system == system_class(class_name@),
{
    text_eq(class_name, "Progman") || text_eq(class_name, "WorkerW") || text_eq(
        class_name,
        "Shell_TrayWnd",
    ) || text_eq(class_name, "Shell_SecondaryTrayWnd") || text_eq(
        class_name,
        "Windows.UI.Composition.DesktopWindowContentBridge",
    ) || text_eq(class_name, "ApplicationFrame") || text_eq(class_name, "IME") || text_eq(
        class_name,
        "MSCTFIME UI",
    ) || text_eq(class_name, "IMEUI") || text_eq(class_name, "tooltips_class32") || text_eq(
        class_name,
        "DwmWindowComposition",
    ) || text_eq(class_name, "SysAnimate32")
}

/// Checks whether the system uses a light theme, from the value of `SystemUsesLightTheme`, which
/// is absent where it could not be read.
pub fn is_light_theme(value: Option<u32>) -> (light: bool)
    ensures
        light == (value matches Some(v) && v != 0),
{
    match value {
        Some(v) => v != 0,
        None => false,
    }
}

/// A text of at most `max_len` characters stays as it is. Of a longer one the first `max_len`
/// characters stay, and three dots follow.
pub proof fn law_truncated_text(s: Seq<char>, max_len: nat, i: int)
    ensures
        s.len() <= max_len ==> truncated(s, max_len) == s,
        s.len() > max_len ==> truncated(s, max_len).len() == max_len + 3,
        s.len() > max_len && 0 <= i < max_len ==> truncated(s, max_len)[i] == s[i],
        s.len() > max_len && max_len <= i < max_len + 3 ==> truncated(s, max_len)[i] == '.',
{
    reveal_strlit("...");
}

/// What stands before the last hyphen before the count is the name, whatever stands between them.
pub proof fn law_clean_name_cuts_at_the_hyphen(base: Seq<char>, between: Seq<char>, tail: Seq<char>)
    requires
        !text::contains_text((" - "@ + between).skip(1), " - "@),
        !text::contains_text((" running window"@ + tail).skip(1), " running window"@),
    ensures
        cleaned_name(base + " - "@ + between + " running window"@ + tail) == base,
{
    reveal_strlit(" - ");
    reveal_strlit(" running window");
    let before = base + " - "@ + between;
    let name = base + " - "@ + between + " running window"@ + tail;
    text::law_last_occurrence_of_parts(before, " running window"@, tail);
    text::law_last_occurrence_of_parts(base, " - "@, between);
    assert(name =~= before + " running window"@ + tail);
    assert(name.take(before.len() as int) =~= before);
    assert(before.take(base.len() as int) =~= base);
}

/// Without a hyphen before the count, what stands before the last long dash is the name.
pub proof fn law_clean_name_cuts_at_the_dash(base: Seq<char>, between: Seq<char>, tail: Seq<char>)
    requires
        !text::contains_text(base + " \u{2014} "@ + between, " - "@),
        !text::contains_text((" \u{2014} "@ + between).skip(1), " \u{2014} "@),
        !text::contains_text((" running window"@ + tail).skip(1), " running window"@),
    ensures
        cleaned_name(base + " \u{2014} "@ + between + " running window"@ + tail) == base,
{
    reveal_strlit(" \u{2014} ");
    reveal_strlit(" running window");
    let before = base + " \u{2014} "@ + between;
    let name = base + " \u{2014} "@ + between + " running window"@ + tail;
    text::law_last_occurrence_of_parts(before, " running window"@, tail);
    text::law_last_occurrence_of_parts(base, " \u{2014} "@, between);
    text::lemma_last_occurrence(before, " - "@);
    assert(name =~= before + " running window"@ + tail);
    assert(name.take(before.len() as int) =~= before);
    assert(before.take(base.len() as int) =~= base);
}

/// Without any dash before the count, what stands before the count is the name.
pub proof fn law_clean_name_cuts_at_the_count(base: Seq<char>, tail: Seq<char>)
    requires
        !text::contains_text(base, " - "@),
        !text::contains_text(base, " \u{2014} "@),
        !text::contains_text((" running window"@ + tail).skip(1), " running window"@),
    ensures
        cleaned_name(base + " running window"@ + tail) == base,
{
    reveal_strlit(" running window");
    let name = base + " running window"@ + tail;
    text::law_last_occurrence_of_parts(base, " running window"@, tail);
    text::lemma_last_occurrence(base, " - "@);
    text::lemma_last_occurrence(base, " \u{2014} "@);
    assert(name.take(base.len() as int) =~= base);
}

/// The system classes are these twelve and no others; a name in another case or with something before
/// or behind it is not one of them.
pub proof fn law_system_classes(class_name: Seq<char>)
    ensures
        system_class(class_name) <==> seq![
            "Progman"@,
            "WorkerW"@,
            "Shell_TrayWnd"@,
            "Shell_SecondaryTrayWnd"@,
            "Windows.UI.Composition.DesktopWindowContentBridge"@,
            "ApplicationFrame"@,
            "IME"@,
            "MSCTFIME UI"@,
            "IMEUI"@,
            "tooltips_class32"@,
            "DwmWindowComposition"@,
            "SysAnimate32"@,
        ].contains(class_name),
{
    let classes = seq![
        "Progman"@,
        "WorkerW"@,
        "Shell_TrayWnd"@,
        "Shell_SecondaryTrayWnd"@,
        "Windows.UI.Composition.DesktopWindowContentBridge"@,
        "ApplicationFrame"@,
        "IME"@,
        "MSCTFIME UI"@,
        "IMEUI"@,
        "tooltips_class32"@,
        "DwmWindowComposition"@,
        "SysAnimate32"@,
    ];
    assert(classes.len() == 12);
    if system_class(class_name) {
        assert(classes[0] == "Progman"@ && classes[1] == "WorkerW"@ && classes[2]
            == "Shell_TrayWnd"@ && classes[3] == "Shell_SecondaryTrayWnd"@);
        assert(classes[4] == "Windows.UI.Composition.DesktopWindowContentBridge"@ && classes[5]
            == "ApplicationFrame"@ && classes[6] == "IME"@ && classes[7] == "MSCTFIME UI"@);
        assert(classes[8] == "IMEUI"@ && classes[9] == "tooltips_class32"@ && classes[10]
            == "DwmWindowComposition"@ && classes[11] == "SysAnimate32"@);
    }
}

} // verus!
