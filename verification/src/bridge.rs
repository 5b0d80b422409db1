//! The calls this library makes into other crates, and into the parts of the
//! standard library that come without a specification.
//!
//! Nothing in this file is proved. Each function says in its comment which
//! call it makes and what its contract takes on trust about that call; the
//! rest of the library is proved from these contracts.

use vstd::prelude::*;
use crate::text::{is_ascii, is_white_space, split, texts};

verus! {

/// What `str::to_lowercase` makes of `s`.
pub uninterp spec fn lowercase_of(s: Seq<char>) -> Seq<char>;

/// What `str::to_uppercase` makes of `s`.
pub uninterp spec fn uppercase_of(s: Seq<char>) -> Seq<char>;

/// What the `regex` crate finds: `None` where it cannot compile `pattern`,
/// otherwise whether `pattern` matches anywhere in `haystack`.
pub uninterp spec fn regex_search(pattern: Seq<char>, haystack: Seq<char>) -> Option<bool>;

/// Whether `tracing_subscriber`'s `EnvFilter` takes `directives` as a filter.
pub uninterp spec fn env_filter_accepts(directives: Seq<char>) -> bool;

/// The language tags that the `accept_language` crate reads out of an
/// `Accept-Language` header, most wanted first.
pub uninterp spec fn accept_language_order(header: Seq<char>) -> Seq<Seq<char>>;

/// Whether `c` is one of the marks at which `EnvFilter` cuts a directive.
pub open spec fn is_cut_mark(c: char) -> bool {
    c == '=' || c == '[' || c == ']' || c == '{' || c == '}'
}

/// Whether a directive can be cut at the offsets `EnvFilter` computes for it.
/// `EnvFilter` measures offsets in the directive without the white space it
/// opens with, and cuts the directive as it was handed in. The two agree where
/// the directive opens with no white space; where every character is ASCII,
/// any offset is a place to cut; and a directive without a mark is cut
/// nowhere but at its start.
pub open spec fn cuts_cleanly(directive: Seq<char>) -> bool {
    ||| directive.len() == 0
    ||| !is_white_space(directive[0])
    ||| is_ascii(directive)
    ||| forall|i: int| 0 <= i < directive.len() ==> !is_cut_mark(#[trigger] directive[i])
}

/// Whether a directive names no value to match a field against: no closing
/// brace stands after an equals sign. Such a value would be compiled as a
/// regular expression, at a cost that has no bound.
pub open spec fn names_no_value(directive: Seq<char>) -> bool {
    forall|i: int, j: int|
        0 <= i < j < directive.len() ==> !(#[trigger] directive[i] == '=' && #[trigger] directive[j]
            == '}')
}

/// Whether every directive of a comma-separated filter can be handed to
/// `EnvFilter`.
pub open spec fn filter_parses_safely(directives: Seq<char>) -> bool {
    forall|k: int|
        0 <= k < split(directives, ',').len() ==> {
            &&& cuts_cleanly(#[trigger] split(directives, ',')[k])
            &&& names_no_value(split(directives, ',')[k])
        }
}

/// `s` without its spaces.
pub open spec fn spaceless(s: Seq<char>) -> Seq<char> {
    s.filter(|c: char| c != ' ')
}

/// Whether `s` writes the number that is not a number, as `f32::from_str`
/// reads it: `nan` in any mix of cases, a sign before it or not.
pub open spec fn writes_nan(s: Seq<char>) -> bool {
    let letters = if s.len() > 0 && (s[0] == '+' || s[0] == '-') {
        s.drop_first()
    } else {
        s
    };
    &&& letters.len() == 3
    &&& (letters[0] == 'n' || letters[0] == 'N')
    &&& (letters[1] == 'a' || letters[1] == 'A')
    &&& (letters[2] == 'n' || letters[2] == 'N')
}

/// Whether the quality of a tag is not a number, as `accept_language` reads
/// the tag. It cuts the tag at its semicolons and looks for the quality in
/// the second part alone, and there only if the part falls into exactly two
/// pieces at its equals signs: the second piece is the quality.
pub open spec fn has_nan_quality(tag: Seq<char>) -> bool {
    let parts = split(tag, ';');
    parts.len() >= 2 && {
        let pieces = split(parts[1], '=');
        pieces.len() == 2 && writes_nan(pieces[1])
    }
}

/// Whether some tag of `header` has a quality that is not a number. The tags
/// are what stands between the commas of the header without its spaces.
pub open spec fn names_nan_quality(header: Seq<char>) -> bool {
    exists|k: int|
        0 <= k < split(spaceless(header), ',').len() && has_nan_quality(
            #[trigger] split(spaceless(header), ',')[k],
        )
}

/// `str::to_lowercase`. The contract only names the result: the same string
/// always lowers to the same string.
#[verifier::external_body]
pub(crate) fn to_lowercase(s: &str) -> (lowered: String)
    ensures
        lowered@ == lowercase_of(s@),
{
    s.to_lowercase()
}

/// `str::to_uppercase`. The contract only names the result: the same string
/// always raises to the same string.
#[verifier::external_body]
pub(crate) fn to_uppercase(s: &str) -> (raised: String)
    ensures
        raised@ == uppercase_of(s@),
{
    s.to_uppercase()
}

/// `regex::Regex::new` on `pattern`, then `Regex::is_match` on `haystack`.
/// Compiling and matching depend on the two strings alone, so the contract
/// names the result. Nothing is claimed about which patterns compile or what
/// they match.
#[verifier::external_body]
pub(crate) fn regex_is_match(pattern: &str, haystack: &str) -> (found: Option<bool>)
    ensures
        found == regex_search(pattern@, haystack@),
{
    match regex::Regex::new(pattern) {
        Ok(compiled) => Some(compiled.is_match(haystack)),
        Err(_) => None,
    }
}

/// `tracing_subscriber::EnvFilter::try_new`, asked only whether it succeeds.
/// Whether it does depends on the string alone, so the contract names the
/// answer. `EnvFilter` cuts each directive by byte offsets and would panic on
/// an offset inside a character, and it compiles the values of fields as
/// regular expressions: the precondition keeps to filters in which neither
/// can happen.
#[verifier::external_body]
pub(crate) fn env_filter_parses(directives: &str) -> (accepted: bool)
    requires
        filter_parses_safely(directives@),
    ensures
        accepted == env_filter_accepts(directives@),
{
    tracing_subscriber::EnvFilter::try_new(directives).is_ok()
}

/// `accept_language::parse`. It drops the spaces, reads each comma-separated
/// tag with its quality, and sorts the tags by quality; the contract names
/// the resulting order. A quality that is not a number compares equal to
/// every other, which the sort may answer with a panic: the precondition
/// keeps to headers in which no tag has one.
#[verifier::external_body]
pub(crate) fn accept_language_parse(header: &str) -> (tags: Vec<String>)
    requires
        !names_nan_quality(header@),
    ensures
        texts(tags@) == accept_language_order(header@),
{
    accept_language::parse(header)
}

} // verus!
