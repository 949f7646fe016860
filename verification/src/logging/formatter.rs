//! The format of log lines: coloured, with spans drawn as trees.

use vstd::prelude::*;
use vstd::string::*;

use crate::text;

verus! {

/// The colours of log lines.
#[derive(Debug, Clone, Copy, PartialEq, Eq, Structural)]
pub enum AnsiColor {
    Red,
    Green,
    Yellow,
    Blue,
    Purple,
    Cyan,
    White,
    Rgb(u8, u8, u8),
}

/// How a piece of text is shown.
#[derive(Debug, Clone, Copy, PartialEq, Eq, Structural)]
pub struct AnsiStyle {
    pub color: AnsiColor,
    pub bold: bool,
    pub dimmed: bool,
}

/// The code of a text colour.
pub open spec fn color_code(color: AnsiColor) -> Seq<char> {
    match color {
        AnsiColor::Red => "31"@,
        AnsiColor::Green => "32"@,
        AnsiColor::Yellow => "33"@,
        AnsiColor::Blue => "34"@,
        AnsiColor::Purple => "35"@,
        AnsiColor::Cyan => "36"@,
        AnsiColor::White => "37"@,
        AnsiColor::Rgb(r, g, b) => "38;2;"@ + text::decimal(r as nat) + ";"@ + text::decimal(
            g as nat,
        ) + ";"@ + text::decimal(b as nat),
    }
}

/// The escape sequence in front of a piece of text in a style.
pub open spec fn style_start(style: AnsiStyle) -> Seq<char> {
    "\x1b["@ + (if style.bold {
        "1;"@
    } else {
        Seq::empty()
    }) + (if style.dimmed {
        "2;"@
    } else {
        Seq::empty()
    }) + color_code(style.color) + "m"@
}

/// The escape sequence behind a piece of text in any style.
pub open spec fn style_end() -> Seq<char> {
    "\x1b[0m"@
}

/// `nu_ansi_term::Style::prefix`, written out, for a style with a text colour that may be bold or
/// dimmed: the escape sequence with the codes in that order, the colour last.
#[verifier::external_body]
fn style_prefix(style: AnsiStyle) -> (prefix: String)
    ensures
        prefix@ == style_start(style),
{
    let color = match style.color {
        AnsiColor::Red => nu_ansi_term::Color::Red,
        AnsiColor::Green => nu_ansi_term::Color::Green,
        AnsiColor::Yellow => nu_ansi_term::Color::Yellow,
        AnsiColor::Blue => nu_ansi_term::Color::Blue,
        AnsiColor::Purple => nu_ansi_term::Color::Purple,
        AnsiColor::Cyan => nu_ansi_term::Color::Cyan,
        AnsiColor::White => nu_ansi_term::Color::White,
        AnsiColor::Rgb(r, g, b) => nu_ansi_term::Color::Rgb(r, g, b),
    };
    let (is_bold, is_dimmed) = (style.bold, style.dimmed);
    nu_ansi_term::Style { is_bold, is_dimmed, ..color.normal() }.prefix().to_string()
}

/// `nu_ansi_term::Style::suffix`, written out, for a style with a text colour: the escape sequence
/// that resets the style, which is the same for every such style.
#[verifier::external_body]
fn style_suffix(style: AnsiStyle) -> (suffix: String)
    ensures
        suffix@ == style_end(),
{
    let color = match style.color {
        AnsiColor::Red => nu_ansi_term::Color::Red,
        AnsiColor::Green => nu_ansi_term::Color::Green,
        AnsiColor::Yellow => nu_ansi_term::Color::Yellow,
        AnsiColor::Blue => nu_ansi_term::Color::Blue,
        AnsiColor::Purple => nu_ansi_term::Color::Purple,
        AnsiColor::Cyan => nu_ansi_term::Color::Cyan,
        AnsiColor::White => nu_ansi_term::Color::White,
        AnsiColor::Rgb(r, g, b) => nu_ansi_term::Color::Rgb(r, g, b),
    };
    let (is_bold, is_dimmed) = (style.bold, style.dimmed);
    nu_ansi_term::Style { is_bold, is_dimmed, ..color.normal() }.suffix().to_string()
}

/// A colour without further style.
pub open spec fn plain(color: AnsiColor) -> AnsiStyle {
    AnsiStyle { color, bold: false, dimmed: false }
}

/// A dimmed colour.
pub open spec fn dim(color: AnsiColor) -> AnsiStyle {
    AnsiStyle { color, bold: false, dimmed: true }
}

/// A bold colour.
pub open spec fn bold(color: AnsiColor) -> AnsiStyle {
    AnsiStyle { color, bold: true, dimmed: false }
}

/// How severe a record is.
#[derive(Debug, Clone, Copy, PartialEq, Eq, Structural)]
pub enum LogLevel {
    Trace,
    Debug,
    Info,
    Warn,
    Error,
}

/// The colour of a level.
pub open spec fn level_color(level: LogLevel) -> AnsiColor {
    match level {
        LogLevel::Trace => AnsiColor::Purple,
        LogLevel::Debug => AnsiColor::Blue,
        LogLevel::Info => AnsiColor::Green,
        LogLevel::Warn => AnsiColor::Rgb(252, 234, 160),
        LogLevel::Error => AnsiColor::Red,
    }
}

/// The name of a level, filled up to six characters.
pub open spec fn level_name(level: LogLevel) -> Seq<char> {
    match level {
        LogLevel::Trace => "TRACE "@,
        LogLevel::Debug => "DEBUG "@,
        LogLevel::Info => "INFO  "@,
        LogLevel::Warn => "WARN  "@,
        LogLevel::Error => "ERROR "@,
    }
}

/// A level at the start of a line.
pub open spec fn level_text(level: LogLevel) -> Seq<char> {
    style_start(bold(level_color(level))) + level_name(level) + style_end()
}

/// A named value of a record.
#[derive(Debug)]
pub struct LogField {
    pub key: String,
    pub value: String,
}

/// A single record.
#[derive(Debug)]
pub struct LogEvent {
    pub level: LogLevel,
    /// The module that the record comes from.
    pub prefix: Option<String>,
    pub message: Option<String>,
    pub fields: Vec<LogField>,
}

/// A span of time with the records inside it.
#[derive(Debug)]
pub struct LogSpan {
    pub level: LogLevel,
    pub name: String,
    /// The duration in words.
    pub total: String,
    /// The time spent in inner spans, in nanoseconds.
    pub inner_nanos: u128,
    /// The share of the outermost span that is spent in this span alone, in percent.
    pub base_share: String,
    /// The share of the outermost span that is spent in this span, in percent.
    pub total_share: String,
    pub fields: Vec<LogField>,
    pub nodes: Vec<LogTree>,
}

/// A record, or a span with what is inside it.
#[derive(Debug)]
pub enum LogTree {
    Event(LogEvent),
    Span(LogSpan),
}

/// A piece of the lines that connect a record with the span around it.
#[derive(Debug, Clone, Copy, PartialEq, Eq, Structural)]
pub enum Indent {
    /// Nothing: the last record above this one has been drawn.
    Null,
    /// A line that goes on.
    Line,
    /// A branch to a record, with more to come.
    Fork,
    /// A branch to the last record.
    Turn,
}

impl Indent {
    /// The characters of the piece.
    pub open spec fn drawn(&self) -> Seq<char> {
        match self {
            Indent::Null => "   "@,
            Indent::Line => "\u{2502}  "@,
            Indent::Fork => "\u{251c}\u{2500} "@,
            Indent::Turn => "\u{2514}\u{2500} "@,
        }
    }

    /// The characters of the piece.
    pub fn repr(&self) -> (s: &'static str)
        ensures
            s@ == self.drawn(),
    {
        match self {
            Indent::Null => "   ",
            Indent::Line => "\u{2502}  ",
            Indent::Fork => "\u{251c}\u{2500} ",
            Indent::Turn => "\u{2514}\u{2500} ",
        }
    }

    /// The piece in the lines below: a branch with more to come goes on as a line.
    pub open spec fn below(&self) -> Indent {
        match self {
            Indent::Fork => Indent::Line,
            _ => Indent::Null,
        }
    }
}

/// The lines in front of a record.
pub open spec fn indent_text(indent: Seq<Indent>) -> Seq<char>
    decreases indent.len(),
{
    if indent.len() == 0 {
        Seq::empty()
    } else {
        indent_text(indent.drop_last()) + "\t"@ + style_start(dim(AnsiColor::Cyan))
            + indent.last().drawn() + style_end()
    }
}

/// The lines above the records inside a span.
pub open spec fn inside(indent: Seq<Indent>) -> Seq<Indent> {
    if indent.len() == 0 {
        indent
    } else {
        indent.update(indent.len() - 1, indent.last().below())
    }
}

/// The named values behind a record.
pub open spec fn fields_text(fields: Seq<LogField>) -> Seq<char>
    decreases fields.len(),
{
    if fields.len() == 0 {
        Seq::empty()
    } else {
        fields_text(fields.drop_last()) + " | "@ + fields.last().key@ + ": "@ + fields.last().value@
    }
}

/// The line of a single record.
pub open spec fn event_text(event: LogEvent, indent: Seq<Indent>) -> Seq<char> {
    level_text(event.level) + " "@ + indent_text(indent) + (match event.prefix {
        Some(prefix) => style_start(dim(AnsiColor::White)) + prefix@ + ":"@ + style_end() + " "@,
        None => Seq::empty(),
    }) + (match event.message {
        Some(message) => message@,
        None => Seq::empty(),
    }) + fields_text(event.fields@) + "\n"@
}

/// The line of a span itself.
pub open spec fn span_text(span: LogSpan, indent: Seq<Indent>) -> Seq<char> {
    level_text(span.level) + " "@ + indent_text(indent) + style_start(plain(AnsiColor::Cyan))
        + span.name@ + style_end() + " "@ + style_start(plain(AnsiColor::Yellow)) + "[ "@
        + span.total@ + " | "@ + (if span.inner_nanos > 0 {
        span.base_share@ + "% / "@
    } else {
        Seq::empty()
    }) + span.total_share@ + "% ]"@ + style_end() + fields_text(span.fields@) + "\n"@
}

/// The lines of a record or a span, with the records inside it below: each after a branch, the last
/// one after the last branch.
pub open spec fn tree_text(tree: LogTree, indent: Seq<Indent>) -> Seq<char>
    decreases tree, 1int, 0int,
{
    match tree {
        LogTree::Event(event) => event_text(event, indent),
        LogTree::Span(span) => span_text(span, indent) + nodes_text(
            tree,
            span.nodes@.len() as int,
            inside(indent),
        ),
    }
}

/// The lines of the first `n` records inside a span.
pub open spec fn nodes_text(tree: LogTree, n: int, indent: Seq<Indent>) -> Seq<char>
    decreases tree, 0int, n,
{
    match tree {
        LogTree::Event(_) => Seq::empty(),
        LogTree::Span(span) => if n <= 0 || n > span.nodes@.len() {
            Seq::empty()
        } else {
            nodes_text(tree, n - 1, indent) + tree_text(
                span.nodes[n - 1],
                indent.push(
                    if n == span.nodes@.len() {
                        Indent::Turn
                    } else {
                        Indent::Fork
                    },
                ),
            )
        },
    }
}

proof fn lemma_append(a: Seq<char>, b: Seq<char>, c: Seq<char>)
    ensures
        (a + b) + c == a + (b + c),
{
    assert((a + b) + c =~= a + (b + c));
}

proof fn lemma_set_last(indent: Seq<Indent>, branch: Indent)
    requires
        indent.len() > 0,
    ensures
        indent.update(indent.len() - 1, branch) == indent.drop_last().push(branch),
{
    assert(indent.update(indent.len() - 1, branch) =~= indent.drop_last().push(branch));
}

fn write_styled(style: AnsiStyle, piece: &str, w: &mut String)
    ensures
        final(w)@ == old(w)@ + style_start(style) + piece@ + style_end(),
{
    w.append(style_prefix(style).as_str());
    w.append(piece);
    w.append(style_suffix(style).as_str());
}

/// Writes the level at the start of a line.
pub fn format_level(level: LogLevel, w: &mut String)
    ensures
        final(w)@ == old(w)@ + level_text(level),
{
    let (color, name) = match level {
        LogLevel::Trace => (AnsiColor::Purple, "TRACE "),
        LogLevel::Debug => (AnsiColor::Blue, "DEBUG "),
        LogLevel::Info => (AnsiColor::Green, "INFO  "),
        LogLevel::Warn => (AnsiColor::Rgb(252, 234, 160), "WARN  "),
        LogLevel::Error => (AnsiColor::Red, "ERROR "),
    };
    write_styled(AnsiStyle { color, bold: true, dimmed: false }, name, w);
    assert(w@ =~= old(w)@ + level_text(level));
}

fn format_fields(fields: &[LogField], w: &mut String)
    ensures
        final(w)@ == old(w)@ + fields_text(fields@),
{
    let ghost before = w@;
    assert(w@ =~= before + fields_text(fields@.take(0)));
    for i in 0..fields.len()
        invariant
            w@ == before + fields_text(fields@.take(i as int)),
    {
        assert(fields@.take(i + 1).drop_last() =~= fields@.take(i as int));
        w.append(" | ");
        w.append(fields[i].key.as_str());
        w.append(": ");
        w.append(fields[i].value.as_str());
        assert(w@ =~= before + fields_text(fields@.take(i + 1)));
    }
    assert(fields@.take(fields@.len() as int) =~= fields@);
}

/// Formats records as coloured trees.
#[derive(Debug, Clone, Copy, PartialEq, Eq, Structural)]
pub struct CleanFormatter;

impl CleanFormatter {
    /// The lines of a tree.
    pub fn fmt(&self, tree: &LogTree) -> (lines: String)
        ensures
            lines@ == tree_text(*tree, Seq::empty()),
    {
        let mut w: String = String::new();
        let mut indent: Vec<Indent> = Vec::new();
        Self::format_tree(tree, &mut indent, &mut w);
        assert(w@ =~= tree_text(*tree, Seq::empty()));
        w
    }

    /// Writes the lines of a tree below the given lines. Only the last one of these may change.
    pub fn format_tree(tree: &LogTree, indent: &mut Vec<Indent>, w: &mut String)
        ensures
            final(w)@ == old(w)@ + tree_text(*tree, old(indent)@),
            final(indent)@.len() == old(indent)@.len(),
            old(indent)@.len() > 0 ==> final(indent)@.drop_last() == old(indent)@.drop_last(),
        decreases tree,
    {
        let ghost start = w@;
        let ghost lines = indent@;
        match tree {
            LogTree::Event(event) => {
                Self::format_event(event, indent, w);
            },
            LogTree::Span(span) => {
                Self::format_span(span, indent, w);
                let count: usize = span.nodes.len();
                let depth: usize = indent.len();
                let ghost above = inside(lines);
                let ghost head = start + span_text(*span, lines);
                if count > 0 {
                    if depth > 0 {
                        let edge = match indent[depth - 1] {
                            Indent::Fork => Indent::Line,
                            _ => Indent::Null,
                        };
                        indent.set(depth - 1, edge);
                    }
                    assert(indent@ =~= above);
                    indent.push(Indent::Fork);
                    assert(indent@.drop_last() =~= above);
                    assert(w@ =~= head + nodes_text(*tree, 0, above));
                    for i in 0..count
                        invariant
                            *tree == LogTree::Span(*span),
                            count == span.nodes@.len(),
                            indent@.len() == above.len() + 1,
                            depth == above.len(),
                            indent@.drop_last() == above,
                            w@ == head + nodes_text(*tree, i as int, above),
                    {
                        let branch = if i + 1 == count {
                            Indent::Turn
                        } else {
                            Indent::Fork
                        };
                        proof {
                            lemma_set_last(indent@, branch);
                            lemma_append(
                                head,
                                nodes_text(*tree, i as int, above),
                                tree_text(span.nodes@[i as int], above.push(branch)),
                            );
                        }
                        indent.set(depth, branch);
                        Self::format_tree(&span.nodes[i], indent, w);
                        assert(above.push(branch).drop_last() =~= above);
                    }
                    let _ = indent.pop();
                    assert(indent@ =~= above);
                    assert(depth > 0 ==> above.drop_last() =~= lines.drop_last());
                }
                proof {
                    lemma_append(
                        start,
                        span_text(*span, lines),
                        nodes_text(*tree, count as int, above),
                    );
                }
                assert(count == 0 ==> w@ =~= head + nodes_text(*tree, 0, above));
            },
        }
    }

    fn format_event(event: &LogEvent, indent: &[Indent], w: &mut String)
        ensures
            final(w)@ == old(w)@ + event_text(*event, indent@),
    {
        let ghost start = w@;
        format_level(event.level, w);
        w.append(" ");
        Self::format_indent(indent, w);
        if let Some(prefix) = &event.prefix {
            let dim_white = AnsiStyle { color: AnsiColor::White, bold: false, dimmed: true };
            w.append(style_prefix(dim_white).as_str());
            w.append(prefix.as_str());
            w.append(":");
            w.append(style_suffix(dim_white).as_str());
            w.append(" ");
        }
        if let Some(message) = &event.message {
            w.append(message.as_str());
        }
        format_fields(&event.fields, w);
        w.append("\n");
        assert(w@ =~= start + event_text(*event, indent@));
    }

    fn format_span(span: &LogSpan, indent: &[Indent], w: &mut String)
        ensures
            final(w)@ == old(w)@ + span_text(*span, indent@),
    {
        let ghost start = w@;
        format_level(span.level, w);
        w.append(" ");
        Self::format_indent(indent, w);
        let cyan = AnsiStyle { color: AnsiColor::Cyan, bold: false, dimmed: false };
        let yellow = AnsiStyle { color: AnsiColor::Yellow, bold: false, dimmed: false };
        write_styled(cyan, span.name.as_str(), w);
        w.append(" ");
        w.append(style_prefix(yellow).as_str());
        w.append("[ ");
        w.append(span.total.as_str());
        w.append(" | ");
        if span.inner_nanos > 0 {
            w.append(span.base_share.as_str());
            w.append("% / ");
        }
        w.append(span.total_share.as_str());
        w.append("% ]");
        w.append(style_suffix(yellow).as_str());
        format_fields(&span.fields, w);
        w.append("\n");
        assert(w@ =~= start + span_text(*span, indent@));
    }

    /// Writes the lines in front of a record.
    pub fn format_indent(indent: &[Indent], w: &mut String)
        ensures
            final(w)@ == old(w)@ + indent_text(indent@),
    {
        let ghost before = w@;
        let cyan = AnsiStyle { color: AnsiColor::Cyan, bold: false, dimmed: true };
        assert(w@ =~= before + indent_text(indent@.take(0)));
        for i in 0..indent.len()
            invariant
                cyan == dim(AnsiColor::Cyan),
                w@ == before + indent_text(indent@.take(i as int)),
        {
            assert(indent@.take(i + 1).drop_last() =~= indent@.take(i as int));
            w.append("\t");
            write_styled(cyan, indent[i].repr(), w);
            assert(w@ =~= before + indent_text(indent@.take(i + 1)));
        }
        assert(indent@.take(indent@.len() as int) =~= indent@);
    }
}

/// Each level has its name and its colour: the names are six characters long and differ, and so do the
/// colours.
pub proof fn law_levels_differ(a: LogLevel, b: LogLevel)
    ensures
        level_name(a).len() == 6,
        a != b ==> level_name(a) != level_name(b),
        a != b ==> level_color(a) != level_color(b),
        level_name(a)[0] == 'T' <==> a == LogLevel::Trace,
        level_name(a)[0] == 'D' <==> a == LogLevel::Debug,
        level_name(a)[0] == 'I' <==> a == LogLevel::Info,
        level_name(a)[0] == 'W' <==> a == LogLevel::Warn,
        level_name(a)[0] == 'E' <==> a == LogLevel::Error,
        level_color(a) == AnsiColor::Purple <==> a == LogLevel::Trace,
        level_color(a) == AnsiColor::Blue <==> a == LogLevel::Debug,
        level_color(a) == AnsiColor::Green <==> a == LogLevel::Info,
        level_color(a) == AnsiColor::Rgb(252, 234, 160) <==> a == LogLevel::Warn,
        level_color(a) == AnsiColor::Red <==> a == LogLevel::Error,
        level_text(a) == style_start(bold(level_color(a))) + level_name(a) + style_end(),
{
    reveal_strlit("TRACE ");
    reveal_strlit("DEBUG ");
    reveal_strlit("INFO  ");
    reveal_strlit("WARN  ");
    reveal_strlit("ERROR ");
    assert(level_name(a)[0] == level_name(b)[0] ==> a == b);
}

/// The named values of two records in a row are shown in a row. A single one is shown as its name and
/// its value, with a bar in front.
pub proof fn law_fields_in_a_row(a: Seq<LogField>, b: Seq<LogField>, field: LogField)
    ensures
        fields_text(a + b) == fields_text(a) + fields_text(b),
        fields_text(seq![field]) == " | "@ + field.key@ + ": "@ + field.value@,
        fields_text(Seq::empty()) == Seq::<char>::empty(),
    decreases b.len(),
{
    reveal_with_fuel(fields_text, 2);
    assert(seq![field].drop_last() =~= Seq::<LogField>::empty());
    assert(fields_text(seq![field]) =~= " | "@ + field.key@ + ": "@ + field.value@);
    if b.len() == 0 {
        assert(a + b =~= a);
        assert(fields_text(a) + fields_text(b) =~= fields_text(a));
    } else {
        law_fields_in_a_row(a, b.drop_last(), field);
        assert((a + b).drop_last() =~= a + b.drop_last());
        assert(fields_text(a + b) =~= fields_text(a) + fields_text(b));
    }
}

/// The pieces of an indentation are drawn in a row, each behind a tab and dimmed.
pub proof fn law_indent_in_a_row(a: Seq<Indent>, b: Seq<Indent>, piece: Indent)
    ensures
        indent_text(a + b) == indent_text(a) + indent_text(b),
        indent_text(seq![piece]) == "\t"@ + style_start(dim(AnsiColor::Cyan)) + piece.drawn()
            + style_end(),
        indent_text(Seq::empty()) == Seq::<char>::empty(),
    decreases b.len(),
{
    reveal_with_fuel(indent_text, 2);
    assert(seq![piece].drop_last() =~= Seq::<Indent>::empty());
    assert(indent_text(seq![piece]) =~= "\t"@ + style_start(dim(AnsiColor::Cyan)) + piece.drawn()
        + style_end());
    if b.len() == 0 {
        assert(a + b =~= a);
        assert(indent_text(a) + indent_text(b) =~= indent_text(a));
    } else {
        law_indent_in_a_row(a, b.drop_last(), piece);
        assert((a + b).drop_last() =~= a + b.drop_last());
        assert(indent_text(a + b) =~= indent_text(a) + indent_text(b));
    }
}

/// Below a branch with more to come the line goes on, below any other piece nothing does. The other
/// pieces stay.
pub proof fn law_lines_go_on_below_a_fork(above: Seq<Indent>, piece: Indent)
    ensures
        inside(above.push(piece)) == above.push(
            if piece == Indent::Fork {
                Indent::Line
            } else {
                Indent::Null
            },
        ),
        inside(Seq::empty()) == Seq::<Indent>::empty(),
{
    assert(inside(above.push(piece)) =~= above.push(piece.below()));
}

/// The pieces of an indentation are equally wide and look different.
pub proof fn law_pieces_look_different(a: Indent, b: Indent)
    ensures
        a.drawn().len() == 3,
        a != b ==> a.drawn() != b.drawn(),
        a.drawn()[0] == ' ' <==> a == Indent::Null,
        a.drawn()[0] == '\u{2502}' <==> a == Indent::Line,
        a.drawn()[0] == '\u{251c}' <==> a == Indent::Fork,
        a.drawn()[0] == '\u{2514}' <==> a == Indent::Turn,
        a.drawn()[1] == '\u{2500}' <==> a == Indent::Fork || a == Indent::Turn,
        a.drawn()[2] == ' ',
{
    reveal_strlit("   ");
    reveal_strlit("\u{2502}  ");
    reveal_strlit("\u{251c}\u{2500} ");
    reveal_strlit("\u{2514}\u{2500} ");
    assert(a.drawn()[0] == b.drawn()[0] ==> a == b);
}

/// A record without a module, a message and values is its level and its indentation. Each of the three
/// is put behind what stands before it: the module dimmed with a colon, the message, the values.
pub proof fn law_record_line(level: LogLevel, event: LogEvent, indent: Seq<Indent>)
    requires
        event.level == level,
    ensures
        ({
            let head = level_text(level) + " "@ + indent_text(indent);
            let body = (match event.message {
                Some(message) => message@,
                None => Seq::empty(),
            }) + fields_text(event.fields@) + "\n"@;
            &&& event.prefix is None ==> event_text(event, indent) == head + body
            &&& event.prefix matches Some(prefix) ==> event_text(event, indent) == head
                + style_start(dim(AnsiColor::White)) + prefix@ + ":"@ + style_end() + " "@ + body
        }),
{
    let head = level_text(level) + " "@ + indent_text(indent);
    let body = (match event.message {
        Some(message) => message@,
        None => Seq::empty(),
    }) + fields_text(event.fields@) + "\n"@;
    if let Some(prefix) = event.prefix {
        assert(event_text(event, indent) =~= head + style_start(dim(AnsiColor::White)) + prefix@
            + ":"@ + style_end() + " "@ + body);
    } else {
        assert(event_text(event, indent) =~= head + body);
    }
}

/// The share that a span has for itself is shown only where inner spans took time, before the share
/// that it has with them; nothing else depends on that time.
pub proof fn law_base_share_is_shown_with_inner_spans(a: LogSpan, b: LogSpan, indent: Seq<Indent>)
    requires
        a.level == b.level,
        a.name == b.name,
        a.total == b.total,
        a.fields == b.fields,
        a.inner_nanos == 0,
        b.inner_nanos > 0,
        a.total_share@ == b.base_share@ + "% / "@ + b.total_share@,
    ensures
        span_text(a, indent) == span_text(b, indent),
{
    let head = level_text(a.level) + " "@ + indent_text(indent) + style_start(
        plain(AnsiColor::Cyan),
    ) + a.name@ + style_end() + " "@ + style_start(plain(AnsiColor::Yellow)) + "[ "@ + a.total@
        + " | "@;
    let tail = "% ]"@ + style_end() + fields_text(a.fields@) + "\n"@;
    assert(span_text(a, indent) =~= head + a.total_share@ + tail);
    assert(span_text(b, indent) =~= head + (b.base_share@ + "% / "@ + b.total_share@) + tail);
}

/// The line of a span, where no inner span took time.
pub proof fn law_span_line(span: LogSpan, indent: Seq<Indent>)
    requires
        span.inner_nanos == 0,
    ensures
        span_text(span, indent) == level_text(span.level) + " "@ + indent_text(indent)
            + style_start(plain(AnsiColor::Cyan)) + span.name@ + style_end() + " "@ + style_start(
            plain(AnsiColor::Yellow),
        ) + "[ "@ + span.total@ + " | "@ + span.total_share@ + "% ]"@ + style_end() + fields_text(
            span.fields@,
        ) + "\n"@,
{
    assert(span_text(span, indent) =~= level_text(span.level) + " "@ + indent_text(indent)
        + style_start(plain(AnsiColor::Cyan)) + span.name@ + style_end() + " "@ + style_start(
        plain(AnsiColor::Yellow),
    ) + "[ "@ + span.total@ + " | "@ + span.total_share@ + "% ]"@ + style_end() + fields_text(
        span.fields@,
    ) + "\n"@);
}

/// The records inside a span follow its line in order. Each stands behind a fork, the last one behind a
/// turn, below what the span's own indentation goes on as.
pub proof fn law_inner_records_follow_in_order(tree: LogTree, span: LogSpan, indent: Seq<Indent>, i: int)
    requires
        tree == LogTree::Span(span),
        0 <= i < span.nodes@.len(),
    ensures
        ({
            let below = inside(indent);
            let n = span.nodes@.len() as int;
            &&& tree_text(tree, indent) == span_text(span, indent) + nodes_text(tree, n, below)
            &&& nodes_text(tree, 0, below) == Seq::<char>::empty()
            &&& i < n - 1 ==> nodes_text(tree, i + 1, below) == nodes_text(tree, i, below)
                + tree_text(span.nodes[i], below.push(Indent::Fork))
            &&& i == n - 1 ==> nodes_text(tree, n, below) == nodes_text(tree, n - 1, below)
                + tree_text(span.nodes[n - 1], below.push(Indent::Turn))
        }),
{
}

/// A record stands for itself, and so does a span without records inside.
pub proof fn law_tree_without_inner_records(event: LogEvent, span: LogSpan, indent: Seq<Indent>)
    requires
        span.nodes@.len() == 0,
    ensures
        tree_text(LogTree::Event(event), indent) == event_text(event, indent),
        tree_text(LogTree::Span(span), indent) == span_text(span, indent),
{
    reveal_with_fuel(tree_text, 2);
    reveal_with_fuel(nodes_text, 2);
    assert(span_text(span, indent) + Seq::<char>::empty() =~= span_text(span, indent));
}

} // verus!
