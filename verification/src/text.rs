//! Text helpers: searching, cutting and number formatting, stated over sequences of characters.

use vstd::prelude::*;
use vstd::string::*;

verus! {

/// The text `needle` stands in `hay` at position `i`.
pub open spec fn occurs_at(hay: Seq<char>, needle: Seq<char>, i: int) -> bool {
    &&& 0 <= i
    &&& i + needle.len() <= hay.len()
    &&& hay.subrange(i, i + needle.len()) == needle
}

/// The text `needle` stands somewhere in `hay`.
pub open spec fn contains_text(hay: Seq<char>, needle: Seq<char>) -> bool {
    exists|i: int| occurs_at(hay, needle, i)
}

/// The text `hay` begins with `needle`.
pub open spec fn starts_with_text(hay: Seq<char>, needle: Seq<char>) -> bool {
    occurs_at(hay, needle, 0)
}

/// The text `hay` ends with `needle`.
pub open spec fn ends_with_text(hay: Seq<char>, needle: Seq<char>) -> bool {
    occurs_at(hay, needle, hay.len() - needle.len())
}

/// The greatest position not after `i` at which `needle` stands in `hay`.
pub open spec fn last_occurrence_upto(hay: Seq<char>, needle: Seq<char>, i: int) -> Option<int>
    decreases i + 1,
{
    if i < 0 {
        None
    } else if occurs_at(hay, needle, i) {
        Some(i)
    } else {
        last_occurrence_upto(hay, needle, i - 1)
    }
}

/// The greatest position at which `needle` stands in `hay`.
pub open spec fn last_occurrence(hay: Seq<char>, needle: Seq<char>) -> Option<int> {
    last_occurrence_upto(hay, needle, hay.len() as int)
}

/// A last occurrence is an occurrence with none after it, and there is one whenever the text
/// occurs at all.
pub proof fn lemma_last_occurrence(hay: Seq<char>, needle: Seq<char>)
    ensures
        last_occurrence(hay, needle) is Some <==> contains_text(hay, needle),
        last_occurrence(hay, needle) matches Some(i) ==> {
            &&& occurs_at(hay, needle, i)
            &&& forall|j: int| j > i ==> !occurs_at(hay, needle, j)
        },
{
    lemma_last_occurrence_upto(hay, needle, hay.len() as int);
}

/// An occurrence with none after it is the last one.
pub proof fn lemma_is_last_occurrence(hay: Seq<char>, needle: Seq<char>, i: int)
    requires
        occurs_at(hay, needle, i),
        forall|j: int| j > i ==> !occurs_at(hay, needle, j),
    ensures
        last_occurrence(hay, needle) == Some(i),
{
    lemma_last_occurrence(hay, needle);
}

proof fn lemma_last_occurrence_upto(hay: Seq<char>, needle: Seq<char>, i: int)
    ensures
        last_occurrence_upto(hay, needle, i) is Some <==> (exists|j: int|
            j <= i && occurs_at(hay, needle, j)),
        last_occurrence_upto(hay, needle, i) matches Some(k) ==> {
            &&& k <= i
            &&& occurs_at(hay, needle, k)
            &&& forall|j: int| k < j <= i ==> !occurs_at(hay, needle, j)
        },
    decreases i + 1,
{
    if i >= 0 && !occurs_at(hay, needle, i) {
        lemma_last_occurrence_upto(hay, needle, i - 1);
    }
}

/// The characters of a text.
pub fn chars_of(s: &str) -> (chars: Vec<char>)
    ensures
        chars@ == s@,
{
    let mut chars: Vec<char> = Vec::new();
    for c in it: s.chars()
        invariant
            it.seq() == s@,
            chars@ == s@.take(it.index() as int),
    {
        chars.push(c);
    }
    assert(s@.take(s@.len() as int) == s@);
    chars
}

/// The text made of the given characters.
pub fn text_of(chars: &[char]) -> (s: String)
    ensures
        s@ == chars@,
{
    let mut s: String = String::new();
    for i in 0..chars.len()
        invariant
            s@ == chars@.take(i as int),
    {
        s.push(chars[i]);
        assert(chars@.take(i as int).push(chars@[i as int]) == chars@.take(i as int + 1));
    }
    assert(chars@.take(chars@.len() as int) == chars@);
    s
}

/// `String::push` appends one character.
pub assume_specification[ String::push ](s: &mut String, c: char)
    ensures
        final(s)@ == old(s)@.push(c),
;

/// Whether `needle` stands in `hay` at position `i`.
pub fn matches_at(hay: &[char], needle: &[char], i: usize) -> (found: bool)
    ensures
        found == occurs_at(hay@, needle@, i as int),
{
    if needle.len() > hay.len() || i > hay.len() - needle.len() {
        return false;
    }
    let hay_len = hay.len();
    for k in 0..needle.len()
        invariant
            hay_len == hay@.len(),
            i + needle@.len() <= hay_len,
            forall|j: int| 0 <= j < k ==> hay@[i + j] == needle@[j],
    {
        if hay[i + k] != needle[k] {
            assert(hay@.subrange(i as int, i + needle@.len())[k as int] == hay@[i + k]);
            return false;
        }
    }
    assert(hay@.subrange(i as int, i + needle@.len()) == needle@);
    true
}

/// The last position at which `needle` stands in `hay`.
pub fn find_last(hay: &[char], needle: &[char]) -> (position: Option<usize>)
    ensures
        position matches Some(i) ==> last_occurrence(hay@, needle@) == Some(i as int),
        position is None ==> last_occurrence(hay@, needle@) is None,
{
    let mut i: usize = hay.len();
    loop
        invariant
            i <= hay@.len(),
            last_occurrence(hay@, needle@) == last_occurrence_upto(hay@, needle@, i as int),
        decreases i,
    {
        if matches_at(hay, needle, i) {
            return Some(i);
        }
        if i == 0 {
            assert(last_occurrence_upto(hay@, needle@, -1) is None);
            return None;
        }
        i = i - 1;
    }
}

/// Whether `needle` stands somewhere in `hay`.
pub fn contains_chars(hay: &[char], needle: &[char]) -> (found: bool)
    ensures
        found == contains_text(hay@, needle@),
{
    proof {
        lemma_last_occurrence(hay@, needle@);
    }
    find_last(hay, needle).is_some()
}

/// Whether two character sequences are the same.
pub fn chars_eq(a: &[char], b: &[char]) -> (same: bool)
    ensures
        same == (a@ == b@),
{
    if a.len() != b.len() {
        return false;
    }
    let same = matches_at(a, b, 0);
    assert(a@.subrange(0, b@.len() as int) == a@);
    same
}

/// Whether two texts are the same.
pub fn text_eq(a: &str, b: &str) -> (same: bool)
    ensures
        same == (a@ == b@),
{
    chars_eq(&chars_of(a), &chars_of(b))
}

/// Whether `needle` stands somewhere in `hay`.
pub fn str_contains(hay: &str, needle: &str) -> (found: bool)
    ensures
        found == contains_text(hay@, needle@),
{
    contains_chars(&chars_of(hay), &chars_of(needle))
}

/// Whether `hay` begins with `needle`.
pub fn str_starts_with(hay: &str, needle: &str) -> (found: bool)
    ensures
        found == starts_with_text(hay@, needle@),
{
    matches_at(&chars_of(hay), &chars_of(needle), 0)
}

/// Whether `hay` ends with `needle`.
pub fn str_ends_with(hay: &str, needle: &str) -> (found: bool)
    ensures
        found == ends_with_text(hay@, needle@),
{
    let h = chars_of(hay);
    let n = chars_of(needle);
    if n.len() > h.len() {
        return false;
    }
    matches_at(&h, &n, h.len() - n.len())
}

/// What `str::to_lowercase` makes of a text.
pub uninterp spec fn lowercase(s: Seq<char>) -> Seq<char>;

/// `str::to_lowercase`: the lower-case form of a text depends on the text alone.
#[verifier::external_body]
pub(crate) fn to_lowercase(s: &str) -> (lower: String)
    ensures
        lower@ == lowercase(s@),
{
    s.to_lowercase()
}

/// The character of a decimal digit.
pub open spec fn digit(d: int) -> char {
    (48 + d) as char
}

/// The decimal digits of a number, without leading zeros.
pub open spec fn decimal(n: nat) -> Seq<char>
    decreases n,
{
    if n < 10 {
        seq![digit(n as int)]
    } else {
        decimal(n / 10).push(digit((n % 10) as int))
    }
}

/// The decimal digits of a number, after a minus sign where it is negative.
pub open spec fn signed_decimal(v: int) -> Seq<char> {
    if v < 0 {
        seq!['-'] + decimal((-v) as nat)
    } else {
        decimal(v as nat)
    }
}

/// Different numbers have different digits.
pub proof fn lemma_decimal_injective(a: nat, b: nat)
    ensures
        decimal(a) == decimal(b) ==> a == b,
    decreases a + b,
{
    if decimal(a) == decimal(b) {
        lemma_decimal_shape(a);
        lemma_decimal_shape(b);
        assert(decimal(a).last() == digit((a % 10) as int));
        assert(decimal(b).last() == digit((b % 10) as int));
        assert(a % 10 == b % 10);
        if a >= 10 && b >= 10 {
            assert(decimal(a).drop_last() == decimal(a / 10));
            assert(decimal(b).drop_last() == decimal(b / 10));
            lemma_decimal_injective(a / 10, b / 10);
        }
    }
}

/// A number has at least one digit, at least two from ten on, and no other characters than
/// digits.
pub proof fn lemma_decimal_shape(n: nat)
    ensures
        decimal(n).len() >= 1,
        n >= 10 <==> decimal(n).len() >= 2,
        forall|i: int| 0 <= i < decimal(n).len() ==> '0' <= #[trigger] decimal(n)[i] <= '9',
    decreases n,
{
    if n >= 10 {
        lemma_decimal_shape(n / 10);
    }
}

/// Different signed numbers have different digits.
pub proof fn lemma_signed_decimal_injective(a: int, b: int)
    ensures
        signed_decimal(a) == signed_decimal(b) ==> a == b,
{
    if signed_decimal(a) == signed_decimal(b) {
        let x = if a < 0 { (-a) as nat } else { a as nat };
        let y = if b < 0 { (-b) as nat } else { b as nat };
        lemma_decimal_shape(x);
        lemma_decimal_shape(y);
        assert(signed_decimal(a)[0] == signed_decimal(b)[0]);
        assert((a < 0) == (b < 0));
        if a < 0 {
            assert(signed_decimal(a).skip(1) == decimal(x));
            assert(signed_decimal(b).skip(1) == decimal(y));
        }
        lemma_decimal_injective(x, y);
    }
}

/// The decimal digits of `n`.
pub fn decimal_chars(n: u128) -> (chars: Vec<char>)
    ensures
        chars@ == decimal(n as nat),
    decreases n,
{
    let last: char = (48u8 + (n % 10) as u8) as char;
    let mut chars: Vec<char> = if n < 10 {
        Vec::new()
    } else {
        decimal_chars(n / 10)
    };
    chars.push(last);
    assert(chars@ == decimal(n as nat));
    chars
}

/// The decimal digits of `v`, after a minus sign where it is negative.
pub fn signed_decimal_text(v: isize) -> (s: String)
    ensures
        s@ == signed_decimal(v as int),
{
    let mut s: String = String::new();
    let magnitude: u128 = if v < 0 {
        s.push('-');
        (-(v as i128)) as u128
    } else {
        v as u128
    };
    let digits = text_of(&decimal_chars(magnitude));
    s.append(digits.as_str());
    assert(s@ == signed_decimal(v as int));
    s
}

/// The UTF-16 units of a character: one, or a pair of surrogates.
pub open spec fn units_of_char(c: char) -> Seq<u16> {
    if c as u32 <= 0xFFFF {
        seq![c as u16]
    } else {
        let above = (c as u32) - 0x10000;
        seq![(0xD800 + above / 0x400) as u16, (0xDC00 + above % 0x400) as u16]
    }
}

/// The UTF-16 units of a text.
pub open spec fn units_of(s: Seq<char>) -> Seq<u16>
    decreases s.len(),
{
    if s.len() == 0 {
        Seq::empty()
    } else {
        units_of(s.drop_last()) + units_of_char(s.last())
    }
}

fn push_units(c: char, units: &mut Vec<u16>)
    ensures
        final(units)@ == old(units)@ + units_of_char(c),
{
    let code: u32 = c as u32;
    if code <= 0xFFFF {
        units.push(code as u16);
    } else {
        let above: u32 = code - 0x10000;
        units.push((0xD800 + above / 0x400) as u16);
        units.push((0xDC00 + above % 0x400) as u16);
    }
    assert(units@ =~= old(units)@ + units_of_char(c));
}

/// The UTF-16 units of a text.
pub fn encode_wide(s: &str) -> (units: Vec<u16>)
    ensures
        units@ == units_of(s@),
{
    let mut units: Vec<u16> = Vec::new();
    let chars = chars_of(s);
    for i in 0..chars.len()
        invariant
            units@ == units_of(chars@.take(i as int)),
    {
        assert(chars@.take(i + 1).drop_last() =~= chars@.take(i as int));
        push_units(chars[i], &mut units);
    }
    assert(chars@.take(chars@.len() as int) =~= chars@);
    units
}

/// A text contains itself, and begins and ends with itself.
pub proof fn law_text_contains_itself(s: Seq<char>)
    ensures
        contains_text(s, s),
        starts_with_text(s, s),
        ends_with_text(s, s),
{
    assert(s.subrange(0, s.len() as int) =~= s);
    assert(occurs_at(s, s, 0));
}

/// A text stands at a place exactly if each of its characters stands there in turn.
pub proof fn law_occurrence_by_characters(hay: Seq<char>, needle: Seq<char>, i: int)
    ensures
        occurs_at(hay, needle, i) <==> {
            &&& 0 <= i <= hay.len() - needle.len()
            &&& forall|k: int| 0 <= k < needle.len() ==> hay[i + k] == #[trigger] needle[k]
        },
{
    if 0 <= i <= hay.len() - needle.len() {
        let part = hay.subrange(i, i + needle.len());
        if part == needle {
            assert forall|k: int| 0 <= k < needle.len() implies hay[i + k]
                == #[trigger] needle[k] by {
                assert(part[k] == needle[k]);
            }
        } else if forall|k: int| 0 <= k < needle.len() ==> hay[i + k] == #[trigger] needle[k] {
            assert(part =~= needle);
        }
    }
}

/// A text contains another exactly if it is made of it and something before and behind it, which may
/// be empty.
pub proof fn law_contained_text_is_a_part(hay: Seq<char>, needle: Seq<char>)
    ensures
        contains_text(hay, needle) <==> exists|a: Seq<char>, c: Seq<char>|
            hay == #[trigger] (a + needle + c),
        starts_with_text(hay, needle) <==> exists|c: Seq<char>| hay == #[trigger] (needle + c),
        ends_with_text(hay, needle) <==> exists|a: Seq<char>| hay == #[trigger] (a + needle),
{
    if contains_text(hay, needle) {
        let i = choose|i: int| occurs_at(hay, needle, i);
        let (a, c) = (hay.take(i), hay.skip(i + needle.len()));
        law_occurrence_by_characters(hay, needle, i);
        assert(hay =~= a + needle + c);
    }
    if exists|a: Seq<char>, c: Seq<char>| hay == #[trigger] (a + needle + c) {
        let (a, c) = choose|a: Seq<char>, c: Seq<char>| hay == #[trigger] (a + needle + c);
        assert(hay.subrange(a.len() as int, a.len() as int + needle.len()) =~= needle);
        assert(occurs_at(hay, needle, a.len() as int));
    }
    if starts_with_text(hay, needle) {
        law_occurrence_by_characters(hay, needle, 0);
        assert(hay =~= needle + hay.skip(needle.len() as int));
    }
    if exists|c: Seq<char>| hay == #[trigger] (needle + c) {
        let c = choose|c: Seq<char>| hay == #[trigger] (needle + c);
        assert(hay.subrange(0, needle.len() as int) =~= needle);
    }
    if ends_with_text(hay, needle) {
        law_occurrence_by_characters(hay, needle, hay.len() - needle.len());
        assert(hay =~= hay.take(hay.len() - needle.len()) + needle);
    }
    if exists|a: Seq<char>| hay == #[trigger] (a + needle) {
        let a = choose|a: Seq<char>| hay == #[trigger] (a + needle);
        assert(hay.subrange(hay.len() - needle.len(), hay.len() as int) =~= needle);
    }
}

/// A last occurrence splits a text so that the part from the next character on does not contain it.
pub proof fn law_nothing_after_the_last_occurrence(hay: Seq<char>, needle: Seq<char>)
    ensures
        last_occurrence(hay, needle) is None <==> !contains_text(hay, needle),
        last_occurrence(hay, needle) matches Some(i) ==> {
            &&& 0 <= i <= hay.len() - needle.len()
            &&& hay == hay.take(i) + needle + hay.skip(i + needle.len())
            &&& i < hay.len() ==> !contains_text(hay.skip(i + 1), needle)
        },
{
    lemma_last_occurrence(hay, needle);
    if let Some(i) = last_occurrence(hay, needle) {
        law_occurrence_by_characters(hay, needle, i);
        assert(hay =~= hay.take(i) + needle + hay.skip(i + needle.len()));
        if i < hay.len() {
            let rest = hay.skip(i + 1);
            if contains_text(rest, needle) {
                let j = choose|j: int| occurs_at(rest, needle, j);
                assert(hay.subrange(i + 1 + j, i + 1 + j + needle.len()) =~= rest.subrange(
                    j,
                    j + needle.len(),
                ));
                assert(occurs_at(hay, needle, i + 1 + j));
            }
        }
    }
}

/// The number that decimal digits are read as.
pub open spec fn number_read(digits: Seq<char>) -> int
    decreases digits.len(),
{
    if digits.len() == 0 {
        0
    } else {
        10 * number_read(digits.drop_last()) + (digits.last() as int - '0' as int)
    }
}

/// The digits of a number are read as the number, and begin with a zero for zero alone.
pub proof fn law_digits_read_back(n: nat)
    ensures
        number_read(decimal(n)) == n,
        forall|i: int| 0 <= i < decimal(n).len() ==> '0' <= #[trigger] decimal(n)[i] <= '9',
        decimal(n).len() > 0,
        decimal(n)[0] == '0' ==> n == 0 && decimal(n).len() == 1,
    decreases n,
{
    lemma_decimal_shape(n);
    reveal_with_fuel(number_read, 2);
    if n >= 10 {
        law_digits_read_back(n / 10);
        assert(decimal(n).drop_last() =~= decimal(n / 10));
        assert(decimal(n)[0] == decimal(n / 10)[0]);
        assert(n / 10 > 0);
    } else {
        assert(decimal(n).drop_last() =~= Seq::<char>::empty());
    }
}

/// A signed number is read back from its digits; a minus sign stands before a negative one alone.
pub proof fn law_signed_digits_read_back(v: int)
    ensures
        v < 0 ==> signed_decimal(v) == seq!['-'] + signed_decimal(-v),
        v >= 0 ==> signed_decimal(v) == decimal(v as nat),
        v < 0 ==> signed_decimal(v)[0] == '-' && number_read(signed_decimal(v).skip(1)) == -v,
        v >= 0 ==> signed_decimal(v)[0] != '-' && number_read(signed_decimal(v)) == v,
        forall|i: int|
            0 < i < signed_decimal(v).len() ==> '0' <= #[trigger] signed_decimal(v)[i] <= '9',
{
    if v < 0 {
        law_digits_read_back((-v) as nat);
        assert(signed_decimal(v).skip(1) =~= decimal((-v) as nat));
    } else {
        law_digits_read_back(v as nat);
        assert('0' <= decimal(v as nat)[0]);
    }
}

/// A character up to U+FFFF is one unit. Any other is a high and a low surrogate, from which its
/// number is read back.
pub proof fn law_units_read_back(c: char)
    ensures
        ({
            let units = units_of_char(c);
            &&& c as int <= 0xFFFF ==> units.len() == 1 && units[0] as int == c as int
            &&& c as int > 0xFFFF ==> {
                &&& units.len() == 2
                &&& 0xD800 <= units[0] <= 0xDBFF
                &&& 0xDC00 <= units[1] <= 0xDFFF
                &&& c as int == 0x10000 + (units[0] - 0xD800) * 0x400 + (units[1] - 0xDC00)
            }
        }),
{
}

/// The units of a text are those of its parts, in order.
pub proof fn law_units_of_parts(a: Seq<char>, b: Seq<char>, c: char)
    ensures
        units_of(a + b) == units_of(a) + units_of(b),
        units_of(seq![c]) == units_of_char(c),
        units_of(Seq::empty()) == Seq::<u16>::empty(),
    decreases b.len(),
{
    reveal_with_fuel(units_of, 2);
    assert(seq![c].drop_last() =~= Seq::<char>::empty());
    assert(units_of(seq![c]) =~= units_of_char(c));
    if b.len() == 0 {
        assert(a + b =~= a);
        assert(units_of(a) + units_of(b) =~= units_of(a));
    } else {
        law_units_of_parts(a, b.drop_last(), c);
        assert((a + b).drop_last() =~= a + b.drop_last());
        assert(units_of(a + b) =~= units_of(a) + units_of(b));
    }
}

/// In a text made of three parts, the middle one is the last occurrence where it does not begin again
/// behind its own start.
pub proof fn law_last_occurrence_of_parts(a: Seq<char>, needle: Seq<char>, b: Seq<char>)
    requires
        needle.len() > 0,
        !contains_text((needle + b).skip(1), needle),
    ensures
        last_occurrence(a + needle + b, needle) == Some(a.len() as int),
{
    let hay = a + needle + b;
    let p = a.len() as int;
    let rest = (needle + b).skip(1);
    assert(hay.subrange(p, p + needle.len()) =~= needle);
    assert forall|j: int| j > p implies !occurs_at(hay, needle, j) by {
        if occurs_at(hay, needle, j) {
            assert(rest.subrange(j - p - 1, j - p - 1 + needle.len()) =~= hay.subrange(
                j,
                j + needle.len(),
            ));
            assert(occurs_at(rest, needle, j - p - 1));
        }
    }
    lemma_is_last_occurrence(hay, needle, p);
}

} // verus!
