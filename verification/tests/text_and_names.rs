use winglide::parsing::{lines_of, parse_number, second_field, trim, trim_char};
use winglide::text::{
    chars_eq, chars_of, contains_chars, decimal_chars, encode_wide, find_last, signed_decimal_text,
    str_contains, str_ends_with, str_starts_with, text_eq, text_of,
};
use winglide::utils::{clean_button_name, is_light_theme, is_system_class, truncate};

fn chars(s: &str) -> Vec<char> {
    s.chars().collect()
}

#[test]
fn chars_and_text_are_inverse() {
    assert_eq!(chars_of("a\u{e9}\u{1F600}"), vec!['a', '\u{e9}', '\u{1F600}']);
    assert_eq!(text_of(&['a', '\u{e9}', '\u{1F600}']), "a\u{e9}\u{1F600}");
    assert_eq!(text_of(&chars_of("")), "");
}

#[test]
fn searching_finds_the_last_occurrence() {
    assert_eq!(find_last(&chars("abcabc"), &chars("bc")), Some(4));
    assert_eq!(find_last(&chars("aaa"), &chars("aa")), Some(1));
    assert_eq!(find_last(&chars("abc"), &chars("x")), None);
    assert_eq!(find_last(&chars("abc"), &chars("")), Some(3));
    assert!(contains_chars(&chars("abc"), &chars("b")));
    assert!(!contains_chars(&chars("abc"), &chars("cb")));
}

#[test]
fn comparing_texts() {
    assert!(chars_eq(&chars("ab"), &chars("ab")));
    assert!(!chars_eq(&chars("ab"), &chars("abc")));
    assert!(text_eq("x", "x"));
    assert!(!text_eq("x", "X"));
    assert!(str_contains("taskbar", "sk"));
    assert!(str_contains("taskbar", ""));
    assert!(str_starts_with("taskbar", "task"));
    assert!(!str_starts_with("taskbar", "bar"));
    assert!(str_ends_with("setup.msi", ".msi"));
    assert!(!str_ends_with("msi", ".msi"));
}

#[test]
fn numbers_in_digits() {
    assert_eq!(decimal_chars(0), vec!['0']);
    assert_eq!(decimal_chars(9075), vec!['9', '0', '7', '5']);
    assert_eq!(signed_decimal_text(-12), "-12");
    assert_eq!(signed_decimal_text(12), "12");
    assert_eq!(signed_decimal_text(isize::MIN), format!("{}", isize::MIN));
}

#[test]
fn texts_in_utf16() {
    assert_eq!(encode_wide("Az"), vec![65u16, 122]);
    let mixed = "a\u{2014}\u{1F600}";
    let expected: Vec<u16> = mixed.encode_utf16().collect();
    assert_eq!(encode_wide(mixed), expected);
    assert_eq!(encode_wide("").len(), 0);
}

#[test]
fn truncate_appends_dots_only_when_cutting() {
    assert_eq!(truncate("hello", 5), "hello");
    assert_eq!(truncate("hello!", 5), "hello...");
    assert_eq!(truncate("", 0), "");
    assert_eq!(truncate("\u{e9}\u{e9}\u{e9}", 2), "\u{e9}\u{e9}...");
}

#[test]
fn clean_button_name_examples() {
    assert_eq!(clean_button_name("Notepad"), "Notepad");
    assert_eq!(clean_button_name("Chrome - 3 running windows"), "Chrome");
    assert_eq!(clean_button_name("Notepad - Pinned"), "Notepad - Pinned");
    assert_eq!(clean_button_name("VS Code - main.rs - 1 running window"), "VS Code - main.rs");
}

#[test]
fn clean_button_name_with_other_dashes() {
    assert_eq!(clean_button_name("Chrome \u{2014} 3 running windows"), "Chrome");
    assert_eq!(clean_button_name("3 running windows"), "3");
    assert_eq!(clean_button_name("A \u{2014} B - 2 running windows"), "A \u{2014} B");
    assert_eq!(clean_button_name(""), "");
}

#[test]
fn a_counted_name_is_cleaned_to_its_base() {
    for base in ["Chrome", "a - b", "1 running window", "x \u{2014} y"] {
        for n in [0u32, 1, 7, 12, 345] {
            let tail = if n == 1 { "" } else { "s" };
            let name = format!("{base} - {n} running window{tail}");
            assert_eq!(clean_button_name(&name), base);
        }
    }
}

#[test]
fn cleaning_cuts_only_the_end() {
    for name in ["Edge - 2 running windows", "Edge", " - ", "x running window y"] {
        assert!(name.starts_with(&clean_button_name(name)));
    }
}

#[test]
fn system_classes() {
    for class in [
        "Progman",
        "WorkerW",
        "Shell_TrayWnd",
        "Shell_SecondaryTrayWnd",
        "Windows.UI.Composition.DesktopWindowContentBridge",
        "ApplicationFrame",
        "IME",
        "MSCTFIME UI",
        "IMEUI",
        "tooltips_class32",
        "DwmWindowComposition",
        "SysAnimate32",
    ] {
        assert!(is_system_class(class));
    }
    assert!(!is_system_class("Notepad"));
    assert!(!is_system_class("progman"));
    assert!(!is_system_class(""));
}

#[test]
fn light_theme_needs_a_set_value() {
    assert!(is_light_theme(Some(1)));
    assert!(!is_light_theme(Some(0)));
    assert!(!is_light_theme(None));
}

#[test]
fn lines_end_at_line_feeds() {
    let list = lines_of("a\r\nb\n\nc");
    assert_eq!(list, vec![chars("a"), chars("b"), chars(""), chars("c")]);
    assert_eq!(lines_of("").len(), 0);
    assert_eq!(lines_of("x\n").len(), 1);
}

#[test]
fn fields_and_trimming() {
    let line = chars("a,b,c");
    assert_eq!(second_field(&line, ','), Some(&['b'][..]));
    assert_eq!(second_field(&chars("a"), ','), None);
    assert_eq!(trim_char(&chars("\"x\"y\""), '"'), &chars("x\"y")[..]);
    assert_eq!(trim(&chars(" \t x y\u{a0}")), &chars("x y")[..]);
    assert_eq!(trim(&chars("  ")), &chars("")[..]);
}

#[test]
fn numbers_are_read_back() {
    for n in [0u32, 1, 10, 4294967295] {
        assert_eq!(parse_number(&decimal_chars(n as u128)), Some(n));
    }
    assert_eq!(parse_number(&chars("+7")), Some(7));
    assert_eq!(parse_number(&chars("007")), Some(7));
    assert_eq!(parse_number(&chars("4294967296")), None);
    assert_eq!(parse_number(&chars("")), None);
    assert_eq!(parse_number(&chars("+")), None);
    assert_eq!(parse_number(&chars("-1")), None);
    assert_eq!(parse_number(&chars("1 ")), None);
}
