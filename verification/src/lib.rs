//! Slug transformations for command-line text: turn free-form text into a
//! URL/branch-safe slug, turn a slug back into spaced text, and reshape the
//! casing of the result.

pub mod chars;
pub mod input;
pub mod shape;
pub mod slug;
pub mod tokens;

use vstd::prelude::*;
use crate::shape::Shaping;
use crate::shape::shape_case;
use crate::shape::shaped_of;
use crate::slug::slug_of;
use crate::slug::slugify;
use crate::slug::unslug_of;
use crate::slug::unslugify;

verus! {

/// The transformation selection: text to slug (the default) or slug back to
/// spaced text. The two are mutually exclusive.
#[derive(Clone, Copy, Debug, PartialEq, Eq, Structural)]
pub enum Mode {
    Slugify,
    Unslugify,
}

/// The transformed form of `s` under the given mode.
pub open spec fn transformed_of(s: Seq<char>, mode: Mode) -> Seq<char> {
    match mode {
        Mode::Slugify => slug_of(s),
        Mode::Unslugify => unslug_of(s),
    }
}

/// Applies the selected transformation to the text.
pub fn transform(input: &str, mode: Mode) -> (r: String)
    ensures
        r@ == transformed_of(input@, mode),
{
    match mode {
        Mode::Slugify => slugify(input),
        Mode::Unslugify => unslugify(input),
    }
}

/// The whole transformation pipeline on resolved text: transform per the
/// mode, then shape the case of the result per the selection.
pub fn process(input: &str, mode: Mode, shaping: Shaping) -> (r: String)
    ensures
        r@ == shaped_of(transformed_of(input@, mode), shaping),
{
    let transformed = transform(input, mode);
    shape_case(transformed.as_str(), shaping)
}

} // verus!
