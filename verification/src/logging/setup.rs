//! Which records are logged, and under which name.

use vstd::prelude::*;
use vstd::string::*;

use crate::logging::formatter::LogLevel;
use crate::text;
use crate::text::{chars_of, find_last};

verus! {

/// The least severe level that is logged.
pub fn max_level(verbose: bool) -> (level: LogLevel)
    ensures
        level == if verbose {
            LogLevel::Debug
        } else {
            LogLevel::Warn
        },
{
    if verbose {
        LogLevel::Debug
    } else {
        LogLevel::Warn
    }
}

/// The last part of a module path.
pub open spec fn last_part(target: Seq<char>) -> Seq<char> {
    match text::last_occurrence(target, "::"@) {
        Some(i) => target.skip(i + 2),
        None => target,
    }
}

/// The module name of a record, from its target.
pub fn module_tag(target: &str) -> (short: String)
    ensures
        short@ == last_part(target@),
{
    let chars = chars_of(target);
    let separator = chars_of("::");
    proof {
        reveal_strlit("::");
        text::lemma_last_occurrence(target@, "::"@);
    }
    match find_last(&chars, &separator) {
        Some(i) => {
            let end: usize = target.unicode_len();
            let short = target.substring_char(i + 2, end);
            assert(short@ =~= target@.skip(i + 2));
            short.to_owned()
        },
        None => target.to_owned(),
    }
}

/// The tag of a module is what stands behind the last pair of colons; a path without one is its own.
pub proof fn law_tag_is_the_last_part(path: Seq<char>, name: Seq<char>)
    requires
        !text::contains_text(("::"@ + name).skip(1), "::"@),
    ensures
        last_part(path + "::"@ + name) == name,
        last_part(name) == name,
{
    reveal_strlit("::");
    let whole = path + "::"@ + name;
    text::law_last_occurrence_of_parts(path, "::"@, name);
    assert(whole.skip(path.len() as int + 2) =~= name);
    text::lemma_last_occurrence(name, "::"@);
    if let Some(i) = text::last_occurrence(name, "::"@) {
        let rest = ("::"@ + name).skip(1);
        assert(rest.subrange(i + 1, i + 3) =~= name.subrange(i, i + 2));
        assert(text::occurs_at(rest, "::"@, i + 1));
    }
}

} // verus!
