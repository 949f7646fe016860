use winglide::config::AppConfig;
use winglide::indicator::{IndicatorStep as Step, IndicatorWindow as Passive};
use winglide::logging::console::{
    input_mode, output_mode, toggle, worker_prints, Console, ConsoleAction, ConsoleWriter,
    WriteTarget,
};
use winglide::logging::formatter::{
    CleanFormatter, Indent, LogEvent, LogField, LogLevel, LogSpan, LogTree,
};
use winglide::logging::setup::{max_level, module_tag};
use winglide::setting::hotkey_button::{
    button_label, format_hotkey, held_modifiers, key_name, modifier_flag, KeyCapture, KeyOutcome,
    KeyStates, WM_KEYDOWN, WM_KEYUP, WM_SYSKEYDOWN, WM_SYSKEYUP,
};
use winglide::setting::setting_item::{
    after_click, initially_expanded, render_inner_layout, setting_item, HotkeyEdit, SettingAction,
    SettingItemProps, SwitchEdit,
};
use winglide::setting::ui::{
    apply_hotkey, apply_switch, taskbar_settings, virtual_desktop_settings,
};
use winglide::types::Rect;
use winglide::virtual_desktop::canvas::{pack, Block, Canvas, Paint, Pixel};
use winglide::virtual_desktop::indicator::{
    button_color, clicked_desktop, current_index, dot_style, get_hovered_index, hitbox_color,
    mouse_x, place_on, plan_dots, Dot, DotShape, IndicatorStep, IndicatorWindow,
};

#[test]
fn toggling_the_console() {
    let mut console = Console::new(false);
    assert_eq!(toggle(&mut console), ConsoleAction::Spawn);
    assert!(console.visible);
    console.spawned(true);
    assert!(console.has_pipe && console.has_child);
    assert_eq!(toggle(&mut console), ConsoleAction::Kill);
    assert!(console.kill_console());
    assert_eq!(console, Console::new(false));
    assert!(!console.kill_console());
    let mut cli = Console::new(true);
    assert_eq!(toggle(&mut cli), ConsoleAction::Nothing);
    assert!(!cli.visible);
}

#[test]
fn a_console_that_does_not_start_is_not_visible() {
    let mut console = Console::new(false);
    toggle(&mut console);
    console.spawned(false);
    assert_eq!(console, Console::new(false));
}

#[test]
fn console_modes() {
    assert_eq!(output_mode(0x3), 0x7);
    assert_eq!(input_mode(0x1F7), 0x1B7);
    assert_eq!(input_mode(0), 0x80);
    assert_eq!(worker_prints(Some(0)), None);
    assert_eq!(worker_prints(Some(5)), Some(5));
    assert_eq!(worker_prints(None), None);
}

#[test]
fn writing_a_record_never_fails() {
    let writer = ConsoleWriter.make_writer();
    let mut console = Console::new(false);
    assert_eq!(writer.target(&console), WriteTarget::Discard);
    toggle(&mut console);
    console.spawned(true);
    assert_eq!(writer.target(&console), WriteTarget::Pipe);
    assert_eq!(writer.written(&mut console, Some(3), 10), 3);
    assert_eq!(writer.written(&mut console, None, 10), 10);
    assert_eq!(writer.target(&console), WriteTarget::Discard);
    assert!(!console.visible);
    console.spawned(true);
    writer.flushed(&mut console, true);
    assert!(console.has_pipe);
    writer.flushed(&mut console, false);
    assert!(!console.has_pipe);
    assert_eq!(writer.target(&Console::new(true)), WriteTarget::Stdout);
    assert_eq!(writer.stdout_written(Some(3), 10), 3);
    assert_eq!(writer.stdout_written(None, 10), 10);
}

#[test]
fn levels_and_tags() {
    assert_eq!(max_level(true), LogLevel::Debug);
    assert_eq!(max_level(false), LogLevel::Warn);
    assert_eq!(module_tag("winglide::taskbar::enumerator"), "enumerator");
    assert_eq!(module_tag("winglide"), "winglide");
    assert_eq!(module_tag("a:::b"), "b");
    assert_eq!(module_tag("a::"), "");
}

fn event(level: LogLevel, prefix: Option<&str>, message: Option<&str>) -> LogTree {
    LogTree::Event(LogEvent {
        level,
        prefix: prefix.map(|s| s.to_string()),
        message: message.map(|s| s.to_string()),
        fields: vec![],
    })
}

fn span(name: &str, inner_nanos: u128, nodes: Vec<LogTree>) -> LogTree {
    LogTree::Span(LogSpan {
        level: LogLevel::Debug,
        name: name.to_string(),
        total: "1.50ms".to_string(),
        inner_nanos,
        base_share: "40.00".to_string(),
        total_share: "100.00".to_string(),
        fields: vec![LogField { key: "k".to_string(), value: "v".to_string() }],
        nodes,
    })
}

#[test]
fn a_record_is_one_coloured_line() {
    let line = CleanFormatter.fmt(&event(LogLevel::Info, Some("app"), Some("hello")));
    assert_eq!(
        line,
        "\u{1b}[1;32mINFO  \u{1b}[0m \u{1b}[2;37mapp:\u{1b}[0m hello\n"
    );
    let bare = CleanFormatter.fmt(&event(LogLevel::Warn, None, None));
    assert_eq!(bare, "\u{1b}[1;38;2;252;234;160mWARN  \u{1b}[0m \n");
}

#[test]
fn levels_have_their_colours() {
    for (level, start) in [
        (LogLevel::Trace, "\u{1b}[1;35mTRACE "),
        (LogLevel::Debug, "\u{1b}[1;34mDEBUG "),
        (LogLevel::Error, "\u{1b}[1;31mERROR "),
    ] {
        assert!(CleanFormatter.fmt(&event(level, None, None)).starts_with(start));
    }
}

#[test]
fn spans_are_drawn_as_trees() {
    let tree = span(
        "outer",
        5,
        vec![
            span("inner", 0, vec![event(LogLevel::Info, None, Some("deep"))]),
            event(LogLevel::Info, None, Some("last")),
        ],
    );
    let debug = "\u{1b}[1;34mDEBUG \u{1b}[0m ";
    let info = "\u{1b}[1;32mINFO  \u{1b}[0m ";
    let line = |s: &str| format!("\t\u{1b}[2;36m{s}\u{1b}[0m");
    let head = |name: &str, share: &str| {
        format!(
            "\u{1b}[36m{name}\u{1b}[0m \u{1b}[33m[ 1.50ms | {share}100.00% ]\u{1b}[0m | k: v\n"
        )
    };
    let expected = format!(
        "{debug}{}{debug}{}{}{info}{}{}deep\n{info}{}last\n",
        head("outer", "40.00% / "),
        line("\u{251c}\u{2500} "),
        head("inner", ""),
        line("\u{2502}  "),
        line("\u{2514}\u{2500} "),
        line("\u{2514}\u{2500} "),
    );
    assert_eq!(CleanFormatter.fmt(&tree), expected);
}

#[test]
fn indent_pieces() {
    assert_eq!(Indent::Null.repr(), "   ");
    assert_eq!(Indent::Line.repr(), "\u{2502}  ");
    assert_eq!(Indent::Fork.repr(), "\u{251c}\u{2500} ");
    assert_eq!(Indent::Turn.repr(), "\u{2514}\u{2500} ");
    let mut w = String::from("x");
    CleanFormatter::format_indent(&[], &mut w);
    assert_eq!(w, "x");
}

#[test]
fn hotkeys_in_words() {
    assert_eq!(format_hotkey(1, 219), "Alt + [");
    assert_eq!(format_hotkey(1, 0x31), "Alt + 1");
    assert_eq!(format_hotkey(15, 0x41), "Win + Ctrl + Alt + Shift + A");
    assert_eq!(format_hotkey(0, 112), "VK_112");
    for (vk, name) in [
        (221, "]"),
        (188, ","),
        (190, "."),
        (191, "/"),
        (186, ";"),
        (222, "'"),
        (192, "`"),
        (0x5A, "Z"),
        (0x5B, "VK_91"),
        (0x30, "0"),
        (0x31, "1"),
        (0x39, "9"),
    ] {
        assert_eq!(key_name(vk), name);
    }
    assert_eq!(button_label((1, 221), false), "Alt + ]");
    assert_eq!(button_label((1, 221), true), "Listening... (Press Esc to cancel)");
}

#[test]
fn modifier_keys() {
    for (vk, flag) in
        [(16, 4), (160, 4), (161, 4), (17, 2), (163, 2), (18, 1), (164, 1), (91, 8), (92, 8), (65, 0)]
    {
        assert_eq!(modifier_flag(vk), flag);
    }
    let none = KeyStates { control: 0, alt: 1, shift: 0, left_win: 0, right_win: 0 };
    assert_eq!(held_modifiers(&none), 0);
    let all = KeyStates { control: -1, alt: i16::MIN, shift: -2, left_win: 0, right_win: -1 };
    assert_eq!(held_modifiers(&all), 15);
}

#[test]
fn capturing_a_hotkey() {
    let idle = KeyStates { control: 0, alt: 0, shift: 0, left_win: 0, right_win: 0 };
    let mut capture = KeyCapture::start(&idle);
    assert_eq!(capture.hook_proc(0, WM_KEYDOWN, 65), KeyOutcome::Swallow);
    assert_eq!(capture.hook_proc(0, WM_SYSKEYDOWN, 164), KeyOutcome::Swallow);
    assert_eq!(capture.hook_proc(0, WM_KEYDOWN, 162), KeyOutcome::Swallow);
    assert_eq!(capture.hook_proc(0, WM_KEYUP, 162), KeyOutcome::Swallow);
    assert_eq!(capture.modifiers, 1);
    assert_eq!(capture.hook_proc(0, WM_SYSKEYUP, 65), KeyOutcome::Swallow);
    assert_eq!(capture.hook_proc(0, 0x0200, 65), KeyOutcome::Pass);
    assert_eq!(capture.hook_proc(-1, WM_KEYDOWN, 65), KeyOutcome::Pass);
    assert_eq!(capture.hook_proc(0, WM_KEYDOWN, 65), KeyOutcome::Finish(Some((1, 65))));
    assert_eq!(capture.hook_proc(0, WM_KEYDOWN, 27), KeyOutcome::Finish(None));
    assert_eq!(capture.hook_proc(0, WM_KEYUP, 27), KeyOutcome::Swallow);
}

fn leaf(icon: Option<char>, enabled: bool) -> SettingItemProps {
    SettingItemProps {
        icon,
        title: None,
        description: None,
        action: None,
        children: None,
        always_expand: false,
        enabled,
    }
}

#[test]
fn rows_of_setting_items() {
    let row = render_inner_layout(&leaf(Some('x'), true), true, false);
    assert_eq!((row.icon_width, row.content_left, row.action_right), (54, 0, 16));
    assert_eq!((row.min_height, row.opacity), (64, 100));
    let row = render_inner_layout(&leaf(None, true), false, true);
    assert_eq!((row.icon_width, row.content_left, row.action_right), (0, 16, 4));
    assert_eq!((row.min_height, row.opacity), (54, 50));
}

#[test]
fn cards_drop_down() {
    let mut props = leaf(Some('x'), true);
    props.children = Some(vec![leaf(None, true), leaf(None, false)]);
    assert!(!initially_expanded(&props));
    let card = setting_item(&props, false);
    assert_eq!((card.chevron, card.clickable, card.is_expanded), (Some('\u{E70D}'), true, false));
    assert_eq!(card.header.action_right, 4);
    let rows = card.children.as_ref().unwrap();
    assert_eq!((rows[0].separator_above, rows[1].separator_above), (false, true));
    assert_eq!((rows[0].row.opacity, rows[1].row.opacity), (100, 50));
    let open = setting_item(&props, after_click(&card));
    assert_eq!(open.chevron, Some('\u{E70E}'));
    assert!(!after_click(&open));
}

#[test]
fn disabled_and_fixed_cards_do_not_react() {
    let mut props = leaf(None, false);
    props.children = Some(vec![leaf(None, true)]);
    let card = setting_item(&props, false);
    assert!(!card.clickable && !after_click(&card));
    assert_eq!(card.children.unwrap()[0].row.opacity, 50);
    props.enabled = true;
    props.always_expand = true;
    assert!(initially_expanded(&props));
    let fixed = setting_item(&props, true);
    assert_eq!((fixed.chevron, fixed.clickable), (None, false));
    assert!(after_click(&fixed));
    let single = setting_item(&leaf(None, true), false);
    assert!(single.children.is_none() && single.chevron.is_none());
}

#[test]
fn settings_pages() {
    let config = AppConfig { uncombine_mode: false, ..AppConfig::default() };
    let items = taskbar_settings(&config);
    assert_eq!(items[0].title.as_deref(), Some("Uncombine Mode"));
    assert_eq!(
        items[0].action,
        Some(SettingAction::Switch { on: false, edit: Some(SwitchEdit::UncombineMode) })
    );
    let children = items[1].children.as_ref().unwrap();
    assert_eq!(children[1].title.as_deref(), Some("Cycle right"));
    assert_eq!(
        children[0].action,
        Some(SettingAction::Hotkey { hotkey: (1, 219), direction: HotkeyEdit::Left })
    );
    let desktops = virtual_desktop_settings();
    assert_eq!(desktops[1].description.as_deref(), Some("Quickly jump to the desktop by index"));
    assert!(desktops[1].action.is_none());
}

#[test]
fn switches_change_the_configuration() {
    let config = AppConfig::default();
    let changed = apply_switch(&config, SwitchEdit::UncombineMode, false);
    assert_eq!(changed, AppConfig { uncombine_mode: false, ..config });
    let changed = apply_switch(&config, SwitchEdit::CycleTaskbarBased, false);
    assert_eq!(changed, AppConfig { cycle_taskbar_based: false, ..config });
}

#[test]
fn a_taken_hotkey_is_swapped() {
    let config = AppConfig::default();
    let free = apply_hotkey(&config, HotkeyEdit::Left, 2, 65);
    assert_eq!((free.hotkey_left_modifiers, free.hotkey_left_vk), (2, 65));
    assert_eq!(free.hotkey_right_vk, 221);
    let swapped = apply_hotkey(&config, HotkeyEdit::Left, 1, 221);
    assert_eq!((swapped.hotkey_left_vk, swapped.hotkey_right_vk), (221, 219));
    let swapped = apply_hotkey(&config, HotkeyEdit::Right, 1, 219);
    assert_eq!((swapped.hotkey_left_vk, swapped.hotkey_right_vk), (221, 219));
    let same = apply_hotkey(&config, HotkeyEdit::Right, 1, 221);
    assert_eq!(same, config);
}

#[test]
fn pixels_are_packed() {
    assert_eq!(pack(Pixel { a: 0x12, r: 0x34, g: 0x56, b: 0x78 }), 0x12345678);
    assert_eq!(pack(Pixel { a: 255, r: 0, g: 0, b: 1 }), 0xFF000001);
}

fn block(left: usize, top: usize, rows: Vec<Vec<Option<Pixel>>>) -> Block {
    Block { left, top, rows }
}

#[test]
fn drawing_on_a_canvas() {
    let p = Pixel { a: 1, r: 2, g: 3, b: 4 };
    let mut canvas = Canvas::new(3, 2);
    assert_eq!(canvas.pixels, vec![0; 6]);
    canvas.draw(&block(1, 0, vec![vec![Some(p), None], vec![None, Some(p)]]), Paint::Shape);
    assert_eq!(canvas.pixels, vec![0, 0x01020304, 0, 0, 0, 0x01020304]);
    canvas.draw(&block(0, 0, vec![vec![None, None], vec![]]), Paint::Hitbox);
    assert_eq!(canvas.pixels, vec![0x01000000, 0x01020304, 0, 0, 0, 0x01020304]);
    let before = canvas.pixels.clone();
    canvas.draw(&block(0, 0, vec![vec![None, None], vec![]]), Paint::Hitbox);
    assert_eq!(canvas.pixels, before);
}

#[test]
fn rendering_draws_boxes_below_circles() {
    let p = Pixel { a: 9, r: 0, g: 0, b: 0 };
    let q = Pixel { a: 8, r: 0, g: 0, b: 0 };
    let shapes = vec![
        DotShape {
            background: block(0, 0, vec![vec![None, Some(q)]]),
            circle: block(0, 0, vec![vec![Some(p), None]]),
        },
        DotShape {
            background: block(1, 0, vec![vec![None, None]]),
            circle: block(2, 0, vec![vec![Some(q)]]),
        },
    ];
    let picture = IndicatorWindow::render(4, 1, &shapes);
    assert_eq!(picture.pixels, vec![0x09000000, 0x08000000, 0x08000000, 0]);
    assert_eq!((picture.width, picture.height), (4, 1));
    assert_eq!(IndicatorWindow::render(2, 1, &[]).pixels, vec![0, 0]);
}

#[test]
fn the_indicator_stands_on_the_taskbar() {
    let place = place_on(&Rect { left: 5, top: 1032, right: 1920, bottom: 1080 });
    assert_eq!((place.x, place.y, place.width, place.height), (15, 1032, 128, 48));
    assert_eq!(button_color(true), (20, 20, 20));
    assert_eq!(button_color(false), (255, 255, 255));
    assert_eq!(hitbox_color(true), (255, 255, 255));
    assert_eq!(hitbox_color(false), (100, 100, 100));
}

#[test]
fn dots_show_the_current_and_the_hovered_desktop() {
    assert_eq!(current_index(&[7, 8, 8], Some(8)), 1);
    assert_eq!(current_index(&[7, 8], Some(9)), 0);
    assert_eq!(current_index(&[7, 8], None), 0);
    let dots = plan_dots(3, 1, 2);
    assert_eq!(dots[0], Dot { is_hovered: false, enlarged: false, opacity: 50 });
    assert_eq!(dots[1], Dot { is_hovered: false, enlarged: true, opacity: 100 });
    assert_eq!(dots[2], Dot { is_hovered: true, enlarged: true, opacity: 80 });
    assert_eq!(dot_style(true, true).opacity, 100);
    assert!(plan_dots(2, 0, -1).iter().all(|d| !d.is_hovered));
}

#[test]
fn indicator_messages() {
    assert_eq!(IndicatorWindow::window_proc(0x500, 0), IndicatorStep::Render);
    assert_eq!(IndicatorWindow::window_proc(0x7E, 0), IndicatorStep::PostRender);
    assert_eq!(IndicatorWindow::window_proc(0x1A, 0), IndicatorStep::PostRender);
    assert_eq!(IndicatorWindow::window_proc(0x200, 0x0005_0011), IndicatorStep::MouseMove(17));
    assert_eq!(IndicatorWindow::window_proc(0x202, 0x0005_FFFE), IndicatorStep::Click(-2));
    assert_eq!(IndicatorWindow::window_proc(0x2A3, 0), IndicatorStep::MouseLeave);
    assert_eq!(IndicatorWindow::window_proc(0x20, 0), IndicatorStep::HandCursor);
    assert_eq!(IndicatorWindow::window_proc(0x84, 0), IndicatorStep::Default);
    for v in [0isize, 1, 0x7FFF, 0x8000, 0xFFFF, -1, 0x12348765] {
        assert_eq!(mouse_x(v), ((v as i32) << 16) >> 16);
    }
}

#[test]
fn passive_indicator_messages() {
    assert_eq!(Passive::window_proc(0x500), Step::Render);
    assert_eq!(Passive::window_proc(0x1A), Step::PostRender);
    assert_eq!(Passive::window_proc(0x84), Step::Transparent);
    assert_eq!(Passive::window_proc(0x200), Step::Default);
    assert_eq!(Passive::dot_opacities(3, 2), vec![50, 50, 100]);
}

#[test]
fn hovering_and_clicking() {
    assert_eq!(get_hovered_index(48, &[false, true, true]), Some(1));
    assert_eq!(get_hovered_index(48, &[false]), None);
    assert_eq!(get_hovered_index(0, &[true]), None);
    let mut window = IndicatorWindow::new(5);
    assert_eq!(window.hover_index, -1);
    let moved = window.mouse_move(Some(2));
    assert!(moved.render && moved.track_leave);
    let moved = window.mouse_move(Some(2));
    assert!(!moved.render && !moved.track_leave);
    let moved = window.mouse_move(None);
    assert!(moved.render && !moved.track_leave);
    window.mouse_move(Some(1));
    window.mouse_leave();
    assert_eq!(window, IndicatorWindow::new(5));
    assert_eq!(clicked_desktop(Some(1), Some(2)), Some(1));
    assert_eq!(clicked_desktop(Some(2), Some(2)), None);
    assert_eq!(clicked_desktop(Some(1), None), None);
    assert_eq!(clicked_desktop(None, Some(2)), None);
}

#[test]
fn two_hotkeys_never_become_the_same() {
    let config = AppConfig::default();
    for (mods, vk) in [(1, 219), (1, 221), (2, 65), (1, 65)] {
        for edit in [HotkeyEdit::Left, HotkeyEdit::Right] {
            let c = apply_hotkey(&config, edit, mods, vk);
            assert_ne!(
                (c.hotkey_left_modifiers, c.hotkey_left_vk),
                (c.hotkey_right_modifiers, c.hotkey_right_vk)
            );
        }
    }
}

#[test]
fn packed_pixels_are_read_back() {
    let value = pack(Pixel { a: 200, r: 1, g: 255, b: 77 });
    assert_eq!(
        (value >> 24, (value >> 16) & 0xFF, (value >> 8) & 0xFF, value & 0xFF),
        (200, 1, 255, 77)
    );
}

#[test]
fn indicator_messages_have_results() {
    assert_eq!(IndicatorStep::Render.result(), Some(0));
    assert_eq!(IndicatorStep::Click(3).result(), Some(0));
    assert_eq!(IndicatorStep::HandCursor.result(), Some(1));
    assert_eq!(IndicatorStep::Default.result(), None);
    assert_eq!(Step::PostRender.result(), Some(0));
    assert_eq!(Step::Transparent.result(), Some(-1));
    assert_eq!(Step::Default.result(), None);
}
