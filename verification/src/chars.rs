//! Character classes used by the slug transformations, and conversion between
//! character vectors and strings.

use vstd::prelude::*;

verus! {

/// Whether a character has the Unicode `White_Space` property, the notion of
/// whitespace used both by `char::is_whitespace` and by the `\s` character
/// class that the slug filter keeps.
pub open spec fn is_space(c: char) -> bool {
    let u = c as u32;
    ||| u == 0x09
    ||| u == 0x0A
    ||| u == 0x0B
    ||| u == 0x0C
    ||| u == 0x0D
    ||| u == 0x20
    ||| u == 0x85
    ||| u == 0xA0
    ||| u == 0x1680
    ||| (0x2000 <= u && u <= 0x200A)
    ||| u == 0x2028
    ||| u == 0x2029
    ||| u == 0x202F
    ||| u == 0x205F
    ||| u == 0x3000
}

/// Whether every character of `s` is whitespace; true of the empty sequence.
pub open spec fn all_space(s: Seq<char>) -> bool {
    forall|i: int| 0 <= i < s.len() ==> is_space(#[trigger] s[i])
}

/// Whether a character is a "word character": a letter, digit, underscore or
/// other member of the Unicode-aware `\w` class of the regex crate. The class
/// is far too large to write out, so it stands as a name; the slug filter is
/// the one operation that decides it.
pub uninterp spec fn is_word(c: char) -> bool;

/// The characters that survive the slug filter: word characters, whitespace
/// and hyphens. Everything else is removed before tokenization.
pub open spec fn is_slug_keep(c: char) -> bool {
    is_word(c) || is_space(c) || c == '-'
}

/// Runtime test for [`is_space`].
pub fn is_space_char(c: char) -> (b: bool)
    ensures
        b == is_space(c),
{
    let u = c as u32;
    u == 0x09 || u == 0x0A || u == 0x0B || u == 0x0C || u == 0x0D || u == 0x20 || u == 0x85
        || u == 0xA0 || u == 0x1680 || (0x2000 <= u && u <= 0x200A) || u == 0x2028 || u == 0x2029
        || u == 0x202F || u == 0x205F || u == 0x3000
}

/// Relies on `core::iter::Iterator::collect` (through `FromIterator` for
/// `String`): collecting a sequence of characters yields the string of exactly
/// those characters in order.
#[verifier::external_body]
pub(crate) fn string_from_chars(v: &[char]) -> (s: String)
    ensures
        s@ == v@,
{
    v.iter().collect()
}

} // verus!
