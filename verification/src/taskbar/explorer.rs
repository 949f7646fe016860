//! The PID of explorer.exe, used to distinguish explorer buttons from actual app buttons.

use vstd::prelude::*;

use crate::parsing;
use crate::parsing::{
    from_utf8_lossy, lines_of, parse_number, second_field, trim, trim_char,
};
use crate::text;
use crate::text::{chars_of, contains_chars};

verus! {

/// The PID in a line of the process list: its second field, without quotes and white space.
pub open spec fn pid_of_line(line: Seq<char>) -> Option<u32> {
    match parsing::field(line, ',', 1) {
        Some(f) => parsing::number(parsing::trimmed(parsing::trimmed_of(f, '"'))),
        None => None,
    }
}

/// Reads the PID in a line of the process list.
pub fn parse_pid(line: &[char]) -> (pid: Option<u32>)
    ensures
        pid == pid_of_line(line@),
{
    match second_field(line, ',') {
        Some(f) => parse_number(trim(trim_char(f, '"'))),
        None => None,
    }
}

/// The PID in the first line that names the explorer, zero where there is none.
pub open spec fn explorer_pid(lines: Seq<Seq<char>>) -> u32
    decreases lines.len(),
{
    if lines.len() == 0 {
        0
    } else if text::contains_text(lines[0], "explorer.exe"@) {
        match pid_of_line(lines[0]) {
            Some(pid) => pid,
            None => 0,
        }
    } else {
        explorer_pid(lines.skip(1))
    }
}

/// Reads the PID of explorer.exe out of a process list in CSV form.
///
/// A line reads like `"explorer.exe","1234","Console","1","45,678 K"`.
pub fn pid_in_process_list(list: &str) -> (pid: u32)
    ensures
        pid == explorer_pid(parsing::lines(list@)),
{
    let lines = lines_of(list);
    let name = chars_of("explorer.exe");
    let ghost all = parsing::line_views(lines@);
    assert(all.skip(0) == all);
    for i in 0..lines.len()
        invariant
            all == parsing::line_views(lines@),
            name@ == "explorer.exe"@,
            explorer_pid(all) == explorer_pid(all.skip(i as int)),
            all == parsing::lines(list@),
    {
        assert(all.skip(i as int)[0] == lines@[i as int]@);
        assert(all.skip(i as int).skip(1) == all.skip(i as int + 1));
        if contains_chars(&lines[i], &name) {
            return match parse_pid(&lines[i]) {
                Some(pid) => pid,
                None => 0,
            };
        }
    }
    0
}

/// The PID of explorer.exe with the flag that tells whether it is still valid.
#[derive(Debug, Clone, Copy)]
pub struct ExplorerPidCache {
    pub valid: bool,
    pub pid: u32,
}

impl ExplorerPidCache {
    /// A cache that holds nothing yet.
    pub fn new() -> (cache: Self)
        ensures
            !cache.valid,
            cache.pid == 0,
    {
        ExplorerPidCache { valid: false, pid: 0 }
    }

    /// The cached PID, while it is valid.
    pub fn cached(&self) -> (pid: Option<u32>)
        ensures
            pid == if self.valid {
                Some(self.pid)
            } else {
                None
            },
    {
        if self.valid {
            Some(self.pid)
        } else {
            None
        }
    }

    /// Reads the PID out of what the process list printed and keeps it; zero where the list could
    /// not be had.
    pub fn get_explorer_pid(&mut self, output: Option<&[u8]>) -> (pid: u32)
        ensures
            pid == match output {
                Some(bytes) => explorer_pid(parsing::lines(parsing::utf8_lossy(bytes@))),
                None => 0,
            },
            final(self).valid,
            final(self).pid == pid,
    {
        let pid: u32 = match output {
            Some(bytes) => {
                let list = from_utf8_lossy(bytes);
                pid_in_process_list(list.as_str())
            },
            None => 0,
        };
        self.valid = true;
        self.pid = pid;
        pid
    }
}

/// Invalidates the explorer PID cache: called when explorer restarts.
pub fn invalidate_explorer_pid_cache(cache: &mut ExplorerPidCache)
    ensures
        !final(cache).valid,
        final(cache).pid == old(cache).pid,
{
    cache.valid = false;
}

/// The PID is read back from a line that holds it as its second field in quotes, whatever stands
/// behind it. A line without a comma holds none.
pub proof fn law_pid_is_read_back(name: Seq<char>, n: u32, rest: Seq<char>)
    requires
        !name.contains(','),
    ensures
        pid_of_line(name + seq![',', '"'] + text::decimal(n as nat) + seq!['"', ','] + rest)
            == Some(n),
        pid_of_line(name + seq![','] + text::decimal(n as nat)) == Some(n),
        pid_of_line(name) is None,
{
    let digits = text::decimal(n as nat);
    text::law_digits_read_back(n as nat);
    assert(!digits.contains(',')) by {
        if digits.contains(',') {
            let k = choose|k: int| 0 <= k < digits.len() && digits[k] == ',';
            assert('0' <= digits[k] <= '9');
        }
    }
    let quoted = seq!['"'] + digits + seq!['"'];
    assert(!quoted.contains(',')) by {
        if quoted.contains(',') {
            let k = choose|k: int| 0 <= k < quoted.len() && quoted[k] == ',';
            if 0 < k < quoted.len() - 1 {
                assert(digits[k - 1] == ',');
                assert(digits.contains(','));
            }
        }
    }
    assert(name + seq![',', '"'] + digits + seq!['"', ','] + rest =~= name + seq![','] + quoted
        + seq![','] + rest);
    parsing::law_second_field(name, quoted, rest, ',');
    parsing::law_second_field(name, digits, rest, ',');
    let nothing = Seq::<char>::empty();
    assert('0' <= digits[0] <= '9' && '0' <= digits[digits.len() - 1] <= '9');
    parsing::law_trimmed_of_keeps_the_middle(seq!['"'], digits, seq!['"'], '"');
    parsing::law_trimmed_of_keeps_the_middle(nothing, digits, nothing, '"');
    parsing::law_trimmed_keeps_the_middle(nothing, digits, nothing);
    assert(nothing + digits + nothing =~= digits);
    parsing::law_decimal_is_read_back(n);
}

/// The first line that names the explorer decides, whatever stands in the other lines. Without such
/// a line the PID is zero, as it is where that line holds none.
pub proof fn law_first_explorer_line_decides(lines: Seq<Seq<char>>, i: int)
    requires
        0 <= i <= lines.len(),
        forall|k: int| 0 <= k < i ==> !text::contains_text(#[trigger] lines[k], "explorer.exe"@),
        i < lines.len() ==> text::contains_text(lines[i], "explorer.exe"@),
    ensures
        i == lines.len() ==> explorer_pid(lines) == 0,
        i < lines.len() && pid_of_line(lines[i]) is None ==> explorer_pid(lines) == 0,
        i < lines.len() && pid_of_line(lines[i]) is Some ==> explorer_pid(lines) == pid_of_line(
            lines[i],
        )->0,
    decreases lines.len(),
{
    if i > 0 {
        let rest = lines.skip(1);
        assert(!text::contains_text(lines[0], "explorer.exe"@));
        assert forall|k: int| 0 <= k < i - 1 implies !text::contains_text(
            #[trigger] rest[k],
            "explorer.exe"@,
        ) by {
            assert(rest[k] == lines[k + 1]);
        }
        law_first_explorer_line_decides(rest, i - 1);
    }
}

/// The PID is the number that is left of the second field without quotes at its ends and white space
/// inside them. Where no number is left, there is none.
pub proof fn law_pid_stands_between_quotes_and_blanks(
    name: Seq<char>,
    quotes: Seq<char>,
    blanks: Seq<char>,
    m: Seq<char>,
    more_blanks: Seq<char>,
    more_quotes: Seq<char>,
    rest: Seq<char>,
)
    requires
        !name.contains(','),
        !m.contains(','),
        forall|i: int| 0 <= i < quotes.len() ==> #[trigger] quotes[i] == '"',
        forall|i: int| 0 <= i < more_quotes.len() ==> #[trigger] more_quotes[i] == '"',
        forall|i: int| 0 <= i < blanks.len() ==> parsing::white_space(#[trigger] blanks[i]),
        forall|i: int| 0 <= i < more_blanks.len() ==> parsing::white_space(#[trigger] more_blanks[i]),
        m.len() > 0,
        !parsing::white_space(m[0]) && m[0] != '"',
        !parsing::white_space(m.last()) && m.last() != '"',
    ensures
        pid_of_line(
            name + seq![','] + (quotes + (blanks + m + more_blanks) + more_quotes) + seq![',']
                + rest,
        ) == parsing::number(m),
{
    let inner = blanks + m + more_blanks;
    let f = quotes + inner + more_quotes;
    assert(!f.contains(',')) by {
        if f.contains(',') {
            let k = choose|k: int| 0 <= k < f.len() && f[k] == ',';
            let (a, b, c, d) = (
                quotes.len(),
                quotes.len() + blanks.len(),
                quotes.len() + blanks.len() + m.len(),
                quotes.len() + blanks.len() + m.len() + more_blanks.len(),
            );
            if k < a {
                assert(quotes[k] == ',');
            } else if k < b {
                assert(parsing::white_space(blanks[k - a]));
            } else if k < c {
                assert(m[k - b] == ',');
            } else if k < d {
                assert(parsing::white_space(more_blanks[k - c]));
            } else {
                assert(more_quotes[k - d] == ',');
            }
        }
    }
    assert(inner[0] != '"') by {
        if blanks.len() > 0 {
            assert(parsing::white_space(blanks[0]));
        }
    }
    assert(inner.last() != '"') by {
        if more_blanks.len() > 0 {
            assert(parsing::white_space(more_blanks[more_blanks.len() - 1]));
            assert(inner.last() == more_blanks[more_blanks.len() - 1]);
        } else {
            assert(inner.last() == m[m.len() - 1]);
        }
    }
    parsing::law_second_field(name, f, rest, ',');
    parsing::law_trimmed_of_keeps_the_middle(quotes, inner, more_quotes, '"');
    parsing::law_trimmed_keeps_the_middle(blanks, m, more_blanks);
}

/// A second field with nothing but quotes and white space between them holds no PID.
pub proof fn law_empty_field_holds_no_pid(
    name: Seq<char>,
    quotes: Seq<char>,
    blanks: Seq<char>,
    more_quotes: Seq<char>,
    rest: Seq<char>,
)
    requires
        !name.contains(','),
        forall|i: int| 0 <= i < quotes.len() ==> #[trigger] quotes[i] == '"',
        forall|i: int| 0 <= i < more_quotes.len() ==> #[trigger] more_quotes[i] == '"',
        forall|i: int| 0 <= i < blanks.len() ==> parsing::white_space(#[trigger] blanks[i]),
    ensures
        pid_of_line(name + seq![','] + (quotes + blanks + more_quotes) + seq![','] + rest) is None,
{
    let f = quotes + blanks + more_quotes;
    assert(!f.contains(',')) by {
        if f.contains(',') {
            let k = choose|k: int| 0 <= k < f.len() && f[k] == ',';
            let (a, b) = (quotes.len(), quotes.len() + blanks.len());
            if k < a {
                assert(quotes[k] == ',');
            } else if k < b {
                assert(parsing::white_space(blanks[k - a]));
            } else {
                assert(more_quotes[k - b] == ',');
            }
        }
    }
    if blanks.len() > 0 {
        assert(parsing::white_space(blanks[0]));
        assert(parsing::white_space(blanks[blanks.len() - 1]));
    }
    let nothing = Seq::<char>::empty();
    parsing::law_second_field(name, f, rest, ',');
    parsing::law_trimmed_of_keeps_the_middle(quotes, blanks, more_quotes, '"');
    parsing::law_trimmed_keeps_the_middle(blanks, nothing, nothing);
    assert(blanks + nothing + nothing =~= blanks);
}

} // verus!
