//! Reading plain text: lines, comma-separated fields, trimming, numbers, and text in the
//! encodings that the system hands over.

use vstd::prelude::*;
use vstd::slice::slice_subrange;

use crate::text;
use crate::text::chars_of;

verus! {

/// What `String::from_utf16_lossy` makes of a sequence of UTF-16 units.
pub uninterp spec fn utf16_lossy(units: Seq<u16>) -> Seq<char>;

/// The unit is one half of a character outside the basic plane.
pub open spec fn is_surrogate(unit: u16) -> bool {
    0xD800 <= unit <= 0xDFFF
}

/// `String::from_utf16_lossy`: the text depends on the units alone, and a unit that is no
/// surrogate stands for the character of that number.
#[verifier::external_body]
pub(crate) fn from_utf16_lossy(units: &[u16]) -> (s: String)
    ensures
        s@ == utf16_lossy(units@),
        (forall|i: int| 0 <= i < units@.len() ==> !is_surrogate(#[trigger] units@[i])) ==> s@
            == units@.map_values(|u: u16| u as char),
{
    String::from_utf16_lossy(units)
}

/// What `String::from_utf8_lossy` makes of a sequence of bytes.
pub uninterp spec fn utf8_lossy(bytes: Seq<u8>) -> Seq<char>;

/// `String::from_utf8_lossy`: the text depends on the bytes alone, and valid UTF-8 is decoded.
#[verifier::external_body]
pub(crate) fn from_utf8_lossy(bytes: &[u8]) -> (s: String)
    ensures
        s@ == utf8_lossy(bytes@),
        vstd::utf8::valid_utf8(bytes@) ==> s@ == vstd::utf8::decode_utf8(bytes@),
{
    String::from_utf8_lossy(bytes).into_owned()
}

/// The first position from `i` on that holds `c`, the length of `s` where there is none.
pub open spec fn first_index_from(s: Seq<char>, c: char, i: int) -> int
    decreases s.len() - i,
{
    if i >= s.len() {
        s.len() as int
    } else if s[i] == c {
        i
    } else {
        first_index_from(s, c, i + 1)
    }
}

/// The first position that holds `c`, the length of `s` where there is none.
pub open spec fn first_index(s: Seq<char>, c: char) -> int {
    first_index_from(s, c, 0)
}

/// The first position that holds `c`, the length of `s` where there is none.
pub fn find_first(s: &[char], c: char) -> (index: usize)
    ensures
        index == first_index(s@, c),
        index <= s@.len(),
{
    let mut i: usize = 0;
    while i < s.len()
        invariant
            i <= s@.len(),
            first_index(s@, c) == first_index_from(s@, c, i as int),
        decreases s@.len() - i,
    {
        if s[i] == c {
            return i;
        }
        i = i + 1;
    }
    i
}

/// A line without the carriage return before its line feed.
pub open spec fn without_cr(line: Seq<char>) -> Seq<char> {
    if line.len() > 0 && line.last() == '\r' {
        line.drop_last()
    } else {
        line
    }
}

/// The lines of a text. A line ends at a line feed or at a carriage return and a line feed; the
/// last line may end with the text.
pub open spec fn lines(s: Seq<char>) -> Seq<Seq<char>>
    decreases s.len(),
{
    let end = first_index(s, '\n');
    if s.len() == 0 {
        Seq::empty()
    } else if end >= s.len() || end < 0 {
        seq![s]
    } else {
        seq![without_cr(s.take(end))] + lines(s.skip(end + 1))
    }
}

/// The contents of a list of lines.
pub open spec fn line_views(list: Seq<Vec<char>>) -> Seq<Seq<char>> {
    list.map_values(|v: Vec<char>| v@)
}

/// Splits a text into lines.
pub fn lines_of(s: &str) -> (list: Vec<Vec<char>>)
    ensures
        line_views(list@) == lines(s@),
{
    let chars = chars_of(s);
    let mut list: Vec<Vec<char>> = Vec::new();
    let mut rest: &[char] = chars.as_slice();
    assert(line_views(list@) + lines(rest@) =~= lines(s@));
    while rest.len() > 0
        invariant
            line_views(list@) + lines(rest@) == lines(s@),
        decreases rest@.len(),
    {
        let end = find_first(rest, '\n');
        let ghost done = line_views(list@);
        let ghost tail = rest@;
        if end == rest.len() {
            list.push(copy_chars(rest));
            rest = slice_subrange(rest, end, end);
            proof {
                assert(lines(tail) == seq![tail]);
                assert(line_views(list@) =~= done.push(tail));
                assert(line_views(list@) + lines(rest@) =~= done + lines(tail));
            }
        } else {
            let line = if end > 0 && rest[end - 1] == '\r' {
                slice_subrange(rest, 0, end - 1)
            } else {
                slice_subrange(rest, 0, end)
            };
            assert(line@ =~= without_cr(tail.take(end as int)));
            list.push(copy_chars(line));
            rest = slice_subrange(rest, end + 1, rest.len());
            proof {
                assert(rest@ =~= tail.skip(end + 1));
                assert(line_views(list@) =~= done.push(line@));
                assert(line_views(list@) + lines(rest@) =~= done + lines(tail));
            }
        }
    }
    assert(lines(rest@) =~= Seq::<Seq<char>>::empty());
    assert(line_views(list@) + lines(rest@) =~= line_views(list@));
    list
}

/// A copy of a character sequence.
pub fn copy_chars(s: &[char]) -> (copy: Vec<char>)
    ensures
        copy@ == s@,
{
    let mut copy: Vec<char> = Vec::new();
    for i in 0..s.len()
        invariant
            copy@ == s@.take(i as int),
    {
        copy.push(s[i]);
        assert(s@.take(i as int).push(s@[i as int]) == s@.take(i as int + 1));
    }
    assert(s@.take(s@.len() as int) == s@);
    copy
}

/// The field number `n` of a line whose fields are separated by `separator`.
pub open spec fn field(line: Seq<char>, separator: char, n: nat) -> Option<Seq<char>>
    decreases n,
{
    let end = first_index(line, separator);
    if n == 0 {
        Some(line.take(end))
    } else if end >= line.len() {
        None
    } else {
        field(line.skip(end + 1), separator, (n - 1) as nat)
    }
}

/// The second field of a line whose fields are separated by `separator`.
pub fn second_field(line: &[char], separator: char) -> (found: Option<&[char]>)
    ensures
        found matches Some(f) ==> field(line@, separator, 1) == Some(f@),
        found is None ==> field(line@, separator, 1) is None,
{
    let end = find_first(line, separator);
    if end == line.len() {
        return None;
    }
    let rest = slice_subrange(line, end + 1, line.len());
    assert(rest@ =~= line@.skip(end + 1));
    let stop = find_first(rest, separator);
    let found = slice_subrange(rest, 0, stop);
    assert(field(rest@, separator, 0) == Some(rest@.take(stop as int)));
    Some(found)
}

/// `s` without the characters at its start that are in `set`.
pub open spec fn trim_start(s: Seq<char>, set: spec_fn(char) -> bool) -> Seq<char>
    decreases s.len(),
{
    if s.len() > 0 && set(s[0]) {
        trim_start(s.skip(1), set)
    } else {
        s
    }
}

/// `s` without the characters at its end that are in `set`.
pub open spec fn trim_end(s: Seq<char>, set: spec_fn(char) -> bool) -> Seq<char>
    decreases s.len(),
{
    if s.len() > 0 && set(s.last()) {
        trim_end(s.drop_last(), set)
    } else {
        s
    }
}

/// The set that holds `c` alone.
pub open spec fn only(c: char) -> spec_fn(char) -> bool {
    |x: char| x == c
}

/// `s` without the characters at its start and its end that are `c`.
pub open spec fn trimmed_of(s: Seq<char>, c: char) -> Seq<char> {
    trim_end(trim_start(s, only(c)), only(c))
}

/// `s` without white space at its start and its end.
pub open spec fn trimmed(s: Seq<char>) -> Seq<char> {
    trim_end(trim_start(s, |x: char| white_space(x)), |x: char| white_space(x))
}

/// The characters with the Unicode property White_Space.
pub open spec fn white_space(c: char) -> bool {
    ||| '\u{9}' <= c <= '\u{D}'
    ||| c == '\u{20}'
    ||| c == '\u{85}'
    ||| c == '\u{A0}'
    ||| c == '\u{1680}'
    ||| '\u{2000}' <= c <= '\u{200A}'
    ||| c == '\u{2028}'
    ||| c == '\u{2029}'
    ||| c == '\u{202F}'
    ||| c == '\u{205F}'
    ||| c == '\u{3000}'
}

/// Whether a character is white space.
pub fn is_white_space(c: char) -> (r: bool)
    ensures
        r == white_space(c),
{
    ('\u{9}' <= c && c <= '\u{D}') || c == '\u{20}' || c == '\u{85}' || c == '\u{A0}' || c
        == '\u{1680}' || ('\u{2000}' <= c && c <= '\u{200A}') || c == '\u{2028}' || c == '\u{2029}'
        || c == '\u{202F}' || c == '\u{205F}' || c == '\u{3000}'
}

/// Cuts the characters `c` off the start and the end.
pub fn trim_char(s: &[char], c: char) -> (r: &[char])
    ensures
        r@ == trimmed_of(s@, c),
{
    let ghost set = only(c);
    let mut r: &[char] = s;
    while r.len() > 0 && r[0] == c
        invariant
            set == only(c),
            trim_start(r@, set) == trim_start(s@, set),
        decreases r@.len(),
    {
        assert(r@.subrange(1, r@.len() as int) =~= r@.skip(1));
        r = slice_subrange(r, 1, r.len());
    }
    let ghost start = r@;
    while r.len() > 0 && r[r.len() - 1] == c
        invariant
            set == only(c),
            trim_end(r@, set) == trim_end(start, set),
        decreases r@.len(),
    {
        assert(r@.subrange(0, r@.len() - 1) =~= r@.drop_last());
        r = slice_subrange(r, 0, r.len() - 1);
    }
    r
}

/// Cuts white space off the start and the end.
pub fn trim(s: &[char]) -> (r: &[char])
    ensures
        r@ == trimmed(s@),
{
    let ghost set = |x: char| white_space(x);
    let mut r: &[char] = s;
    while r.len() > 0 && is_white_space(r[0])
        invariant
            set == (|x: char| white_space(x)),
            trim_start(r@, set) == trim_start(s@, set),
        decreases r@.len(),
    {
        assert(r@.subrange(1, r@.len() as int) =~= r@.skip(1));
        r = slice_subrange(r, 1, r.len());
    }
    let ghost start = r@;
    while r.len() > 0 && is_white_space(r[r.len() - 1])
        invariant
            set == (|x: char| white_space(x)),
            trim_end(r@, set) == trim_end(start, set),
        decreases r@.len(),
    {
        assert(r@.subrange(0, r@.len() - 1) =~= r@.drop_last());
        r = slice_subrange(r, 0, r.len() - 1);
    }
    r
}

/// The number that a sequence of digits stands for.
pub open spec fn digits_value(s: Seq<char>) -> nat
    decreases s.len(),
{
    if s.len() == 0 {
        0
    } else {
        10 * digits_value(s.drop_last()) + (s.last() as int - 48) as nat
    }
}

/// At least one character, and digits alone.
pub open spec fn is_digits(s: Seq<char>) -> bool {
    s.len() > 0 && forall|i: int| 0 <= i < s.len() ==> '0' <= #[trigger] s[i] <= '9'
}

/// The 32-bit number that a text stands for: digits alone, after at most one plus sign.
pub open spec fn number(s: Seq<char>) -> Option<u32> {
    let digits = if s.len() > 0 && s[0] == '+' {
        s.skip(1)
    } else {
        s
    };
    if is_digits(digits) && digits_value(digits) <= u32::MAX {
        Some(digits_value(digits) as u32)
    } else {
        None
    }
}

proof fn lemma_digits_value_grows(s: Seq<char>, i: int)
    requires
        0 <= i <= s.len(),
    ensures
        digits_value(s.take(i)) <= digits_value(s),
    decreases s.len() - i,
{
    if i < s.len() {
        lemma_digits_value_grows(s, i + 1);
        assert(s.take(i + 1).drop_last() == s.take(i));
    } else {
        assert(s.take(i) == s);
    }
}

/// Reads a 32-bit number.
pub fn parse_number(s: &[char]) -> (n: Option<u32>)
    ensures
        n == number(s@),
{
    let digits = if s.len() > 0 && s[0] == '+' {
        slice_subrange(s, 1, s.len())
    } else {
        s
    };
    let ghost d = digits@;
    assert(d =~= if s@.len() > 0 && s@[0] == '+' {
        s@.skip(1)
    } else {
        s@
    });
    if digits.len() == 0 {
        return None;
    }
    let mut value: u64 = 0;
    for i in 0..digits.len()
        invariant
            d == digits@,
            d == if s@.len() > 0 && s@[0] == '+' {
                s@.skip(1)
            } else {
                s@
            },
            value == digits_value(d.take(i as int)),
            value <= u32::MAX,
            forall|j: int| 0 <= j < i ==> '0' <= #[trigger] d[j] <= '9',
    {
        let c = digits[i];
        if c < '0' || '9' < c {
            assert(!is_digits(d));
            return None;
        }
        proof {
            assert(d.take(i as int + 1).drop_last() == d.take(i as int));
            assert(d.take(i as int + 1).last() == c);
            lemma_digits_value_grows(d, i as int + 1);
        }
        value = 10 * value + (c as u64 - 48);
        if value > u32::MAX as u64 {
            return None;
        }
    }
    assert(d.take(d.len() as int) == d);
    Some(value as u32)
}

/// A number is read back from its decimal digits.
pub proof fn law_decimal_is_read_back(n: u32)
    ensures
        number(text::decimal(n as nat)) == Some(n),
{
    text::lemma_decimal_shape(n as nat);
    lemma_digits_value_of_decimal(n as nat);
    assert(text::decimal(n as nat)[0] != '+');
}

proof fn lemma_digits_value_of_decimal(n: nat)
    ensures
        digits_value(text::decimal(n)) == n,
    decreases n,
{
    let s = text::decimal(n);
    text::lemma_decimal_shape(n);
    if n >= 10 {
        lemma_digits_value_of_decimal(n / 10);
        assert(s.drop_last() == text::decimal(n / 10));
    } else {
        assert(s.drop_last() == Seq::<char>::empty());
        assert(digits_value(s.drop_last()) == 0);
    }
}

/// The first position of a character holds it, and no position before it does.
pub proof fn law_first_index(s: Seq<char>, c: char, i: int)
    ensures
        0 <= first_index(s, c) <= s.len(),
        first_index(s, c) < s.len() ==> s[first_index(s, c)] == c,
        0 <= i < first_index(s, c) ==> s[i] != c,
        first_index(s, c) == s.len() <==> !s.contains(c),
{
    lemma_first_index_from(s, c, 0);
    if s.contains(c) {
        let k = choose|k: int| 0 <= k < s.len() && s[k] == c;
        assert(s[k] == c);
    }
}

proof fn lemma_first_index_from(s: Seq<char>, c: char, from: int)
    requires
        0 <= from <= s.len(),
    ensures
        from <= first_index_from(s, c, from) <= s.len(),
        first_index_from(s, c, from) < s.len() ==> s[first_index_from(s, c, from)] == c,
        forall|i: int| from <= i < first_index_from(s, c, from) ==> #[trigger] s[i] != c,
    decreases s.len() - from,
{
    if from < s.len() && s[from] != c {
        lemma_first_index_from(s, c, from + 1);
    }
}

proof fn lemma_first_index_of_parts(a: Seq<char>, c: char, b: Seq<char>)
    requires
        !a.contains(c),
    ensures
        first_index(a + seq![c] + b, c) == a.len(),
        first_index(a, c) == a.len(),
{
    let s = a + seq![c] + b;
    let i = first_index(s, c);
    lemma_first_index_from(s, c, 0);
    law_first_index(a, c, 0);
    assert(s[a.len() as int] == c);
    if i < a.len() {
        assert(a[i] == c);
    }
}

/// A text without a line feed is one line, unless it is empty. What stands before a line feed is a
/// line, and the others are the lines of what stands behind it.
pub proof fn law_lines_end_at_line_feeds(line: Seq<char>, rest: Seq<char>)
    requires
        !line.contains('\n'),
    ensures
        line.len() == 0 ==> lines(line) == Seq::<Seq<char>>::empty(),
        line.len() > 0 ==> lines(line) == seq![line],
        lines(line + seq!['\n'] + rest) == seq![without_cr(line)] + lines(rest),
{
    let s = line + seq!['\n'] + rest;
    lemma_first_index_of_parts(line, '\n', rest);
    assert(s.take(line.len() as int) =~= line);
    assert(s.skip(line.len() as int + 1) =~= rest);
}

/// One carriage return is cut off the end of a line, and nothing else.
pub proof fn law_line_ends_without_carriage_return(line: Seq<char>)
    ensures
        without_cr(line + seq!['\r']) == line,
        line.len() == 0 || line.last() != '\r' ==> without_cr(line) == line,
{
    assert((line + seq!['\r']).drop_last() =~= line);
}

/// The second field is what stands between the first separator and the next one, or the end; a line
/// without a separator has none.
pub proof fn law_second_field(a: Seq<char>, b: Seq<char>, c: Seq<char>, separator: char)
    requires
        !a.contains(separator),
        !b.contains(separator),
    ensures
        field(a + seq![separator] + b, separator, 1) == Some(b),
        field(a + seq![separator] + b + seq![separator] + c, separator, 1) == Some(b),
        field(a, separator, 1) is None,
{
    reveal_with_fuel(field, 2);
    let short = a + seq![separator] + b;
    let long = a + seq![separator] + b + seq![separator] + c;
    lemma_first_index_of_parts(a, separator, b);
    lemma_first_index_of_parts(a, separator, b + seq![separator] + c);
    lemma_first_index_of_parts(b, separator, c);
    assert(long =~= a + seq![separator] + (b + seq![separator] + c));
    assert(short.skip(a.len() as int + 1) =~= b);
    assert(long.skip(a.len() as int + 1) =~= b + seq![separator] + c);
    assert(b.take(b.len() as int) =~= b);
    assert((b + seq![separator] + c).take(b.len() as int) =~= b);
}

proof fn lemma_trim_start_of_parts(pre: Seq<char>, m: Seq<char>, set: spec_fn(char) -> bool)
    requires
        forall|i: int| 0 <= i < pre.len() ==> set(#[trigger] pre[i]),
        m.len() == 0 || !set(m[0]),
    ensures
        trim_start(pre + m, set) == m,
    decreases pre.len(),
{
    if pre.len() > 0 {
        assert(set(pre[0]));
        let rest = pre.skip(1);
        assert((pre + m).skip(1) =~= rest + m);
        assert forall|i: int| 0 <= i < rest.len() implies set(#[trigger] rest[i]) by {
            assert(rest[i] == pre[i + 1]);
        }
        lemma_trim_start_of_parts(rest, m, set);
    } else {
        assert(pre + m =~= m);
    }
}

proof fn lemma_trim_end_of_parts(m: Seq<char>, post: Seq<char>, set: spec_fn(char) -> bool)
    requires
        forall|i: int| 0 <= i < post.len() ==> set(#[trigger] post[i]),
        m.len() == 0 || !set(m.last()),
    ensures
        trim_end(m + post, set) == m,
    decreases post.len(),
{
    if post.len() > 0 {
        assert(set(post[post.len() - 1]));
        let rest = post.drop_last();
        assert((m + post).drop_last() =~= m + rest);
        assert forall|i: int| 0 <= i < rest.len() implies set(#[trigger] rest[i]) by {
            assert(rest[i] == post[i]);
        }
        lemma_trim_end_of_parts(m, rest, set);
    } else {
        assert(m + post =~= m);
    }
}

proof fn lemma_trim_of_parts(
    pre: Seq<char>,
    m: Seq<char>,
    post: Seq<char>,
    set: spec_fn(char) -> bool,
)
    requires
        forall|i: int| 0 <= i < pre.len() ==> set(#[trigger] pre[i]),
        forall|i: int| 0 <= i < post.len() ==> set(#[trigger] post[i]),
        m.len() == 0 || !set(m[0]) && !set(m.last()),
    ensures
        trim_end(trim_start(pre + m + post, set), set) == m,
{
    if m.len() == 0 {
        let all = pre + post;
        assert(pre + m + post =~= all + Seq::<char>::empty());
        assert forall|i: int| 0 <= i < all.len() implies set(#[trigger] all[i]) by {
            if i < pre.len() {
                assert(set(pre[i]));
            } else {
                assert(set(post[i - pre.len()]));
            }
        }
        lemma_trim_start_of_parts(all, Seq::empty(), set);
        assert(m =~= Seq::<char>::empty());
    } else {
        assert(pre + m + post =~= pre + (m + post));
        lemma_trim_start_of_parts(pre, m + post, set);
        lemma_trim_end_of_parts(m, post, set);
    }
}

/// Trimming cuts the character off both ends, as often as it stands there, and keeps what stands
/// between, whatever that holds inside.
pub proof fn law_trimmed_of_keeps_the_middle(pre: Seq<char>, m: Seq<char>, post: Seq<char>, c: char)
    requires
        forall|i: int| 0 <= i < pre.len() ==> #[trigger] pre[i] == c,
        forall|i: int| 0 <= i < post.len() ==> #[trigger] post[i] == c,
        m.len() == 0 || m[0] != c && m.last() != c,
    ensures
        trimmed_of(pre + m + post, c) == m,
{
    lemma_trim_of_parts(pre, m, post, only(c));
}

/// Trimming cuts white space off both ends and keeps what stands between, whatever that holds inside.
pub proof fn law_trimmed_keeps_the_middle(pre: Seq<char>, m: Seq<char>, post: Seq<char>)
    requires
        forall|i: int| 0 <= i < pre.len() ==> white_space(#[trigger] pre[i]),
        forall|i: int| 0 <= i < post.len() ==> white_space(#[trigger] post[i]),
        m.len() == 0 || !white_space(m[0]) && !white_space(m.last()),
    ensures
        trimmed(pre + m + post) == m,
{
    lemma_trim_of_parts(pre, m, post, |x: char| white_space(x));
}

/// Below the Latin letters with accents, white space is the blank, the five controls from the tab to
/// the carriage return, the next line and the fixed blank. No letter, digit or ASCII sign is one.
pub proof fn law_ascii_white_space(c: char)
    requires
        c as u32 <= 0xFF,
    ensures
        white_space(c) <==> c as u32 == 9 || c as u32 == 10 || c as u32 == 11 || c as u32 == 12
            || c as u32 == 13 || c as u32 == 32 || c as u32 == 133 || c as u32 == 160,
{
}

/// Beyond that, white space are the seventeen blanks and separators that Unicode names.
pub proof fn law_other_white_space(c: char)
    requires
        c as u32 > 0xFF,
    ensures
        white_space(c) <==> {
            ||| 0x2000 <= c as u32 <= 0x200A
            ||| c as u32 == 0x1680 || c as u32 == 0x2028 || c as u32 == 0x2029
            ||| c as u32 == 0x202F || c as u32 == 0x205F || c as u32 == 0x3000
        },
{
}

proof fn lemma_digits_value_is_read(s: Seq<char>)
    requires
        forall|i: int| 0 <= i < s.len() ==> '0' <= #[trigger] s[i] <= '9',
    ensures
        digits_value(s) == text::number_read(s),
    decreases s.len(),
{
    if s.len() > 0 {
        let rest = s.drop_last();
        assert forall|i: int| 0 <= i < rest.len() implies '0' <= #[trigger] rest[i] <= '9' by {
            assert(rest[i] == s[i]);
        }
        lemma_digits_value_is_read(rest);
        assert('0' <= s[s.len() - 1] <= '9');
    }
}

/// A text is read as a number exactly if it is made of decimal digits, at least one, and the number
/// fits into 32 bits; one plus sign may stand before them.
pub proof fn law_number_is_made_of_digits(s: Seq<char>, n: u32)
    requires
        s.len() == 0 || s[0] != '+',
    ensures
        number(s) == Some(n) <==> {
            &&& s.len() > 0
            &&& forall|i: int| 0 <= i < s.len() ==> '0' <= #[trigger] s[i] <= '9'
            &&& text::number_read(s) == n
        },
        number(seq!['+'] + s) == number(s),
        number(seq!['+', '+'] + s) is None,
        number(seq!['-'] + s) is None,
{
    if forall|i: int| 0 <= i < s.len() ==> '0' <= #[trigger] s[i] <= '9' {
        lemma_digits_value_is_read(s);
    }
    let plus = seq!['+'] + s;
    assert(plus.skip(1) =~= s);
    let plus2 = seq!['+', '+'] + s;
    assert(plus2.skip(1)[0] == '+');
    let minus = seq!['-'] + s;
    assert(minus[0] == '-');
    assert(!is_digits(minus));
}

/// A list of lines is as long as its contents, which stand in the same order.
pub proof fn law_line_views(list: Seq<Vec<char>>, i: int)
    ensures
        line_views(list).len() == list.len(),
        0 <= i < list.len() ==> line_views(list)[i] == list[i]@,
{
}

} // verus!
