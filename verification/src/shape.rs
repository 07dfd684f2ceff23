//! Optional reshaping of the transformed text: lowercase, uppercase or title
//! case, or none at all.

use vstd::prelude::*;
use crate::chars::string_from_chars;
use crate::tokens::join_with;
use crate::tokens::join_tokens;
use crate::tokens::split_tokens;
use crate::tokens::tokens_of;
use crate::tokens::views_of;
use crate::tokens::lemma_tokens_wf;

verus! {

/// The lowercase form of a character sequence, by the full Unicode-aware case
/// folding of `str::to_lowercase`. Far too large to write out, so it stands
/// as a name; the lowercasing call is the one operation that decides it.
pub uninterp spec fn lower_of(s: Seq<char>) -> Seq<char>;

/// The uppercase form of a character sequence, by the full Unicode-aware case
/// folding of `str::to_uppercase`.
pub uninterp spec fn upper_of(s: Seq<char>) -> Seq<char>;

/// The uppercase form of one character, by `char::to_uppercase`; one
/// character can map to several.
pub uninterp spec fn char_upper_of(c: char) -> Seq<char>;

/// Relies on `str::to_lowercase`: the result is the full Unicode lowercase
/// mapping of the input, a function of the characters alone.
#[verifier::external_body]
fn to_lower(s: &str) -> (r: String)
    ensures
        r@ == lower_of(s@),
{
    s.to_lowercase()
}

/// Relies on `str::to_uppercase`: the result is the full Unicode uppercase
/// mapping of the input, a function of the characters alone.
#[verifier::external_body]
fn to_upper(s: &str) -> (r: String)
    ensures
        r@ == upper_of(s@),
{
    s.to_uppercase()
}

/// Relies on `char::to_uppercase`: the result is the full Unicode uppercase
/// mapping of the character, a function of the character alone.
#[verifier::external_body]
fn upper_char(c: char) -> (r: String)
    ensures
        r@ == char_upper_of(c),
{
    c.to_uppercase().collect()
}

/// A token in title case: the first character uppercased, the rest
/// lowercased.
pub open spec fn cap_of(t: Seq<char>) -> Seq<char> {
    char_upper_of(t[0]) + lower_of(t.skip(1))
}

/// The title-cased form of `s`: each whitespace-delimited token capitalized,
/// the tokens rejoined with single spaces. Whitespace runs collapse and edge
/// whitespace is dropped.
pub open spec fn title_of(s: Seq<char>) -> Seq<char> {
    join_with(tokens_of(s).map_values(|t: Seq<char>| cap_of(t)), ' ')
}

/// Pushes every character of `s` onto `out`.
fn push_str_chars(out: &mut Vec<char>, s: &str)
    ensures
        final(out)@ == old(out)@ + s@,
{
    let n = s.unicode_len();
    let mut i: usize = 0;
    while i < n
        invariant
            n == s@.len(),
            0 <= i <= n,
            out@ == old(out)@ + s@.take(i as int),
        decreases n - i,
    {
        out.push(s.get_char(i));
        proof {
            assert(s@.take(i as int + 1) =~= s@.take(i as int).push(s@[i as int]));
            assert(old(out)@ + s@.take(i as int + 1) =~= (old(out)@ + s@.take(i as int)).push(
                s@[i as int],
            ));
        }
        i += 1;
    }
    proof {
        assert(s@.take(n as int) =~= s@);
    }
}

/// Converts text to title case: each whitespace-delimited token gets its
/// first character uppercased and the remainder lowercased, and the tokens
/// are rejoined with single spaces.
pub fn title_case(input: &str) -> (r: String)
    ensures
        r@ == title_of(input@),
{
    proof {
        lemma_tokens_wf(input@);
    }
    let ts = split_tokens(input);
    let mut capped: Vec<Vec<char>> = Vec::new();
    let mut k: usize = 0;
    while k < ts.len()
        invariant
            0 <= k <= ts@.len(),
            views_of(ts@) == tokens_of(input@),
            forall|x: int|
                0 <= x < tokens_of(input@).len() ==> #[trigger] tokens_of(input@)[x].len() > 0,
            capped@.len() == k,
            forall|x: int|
                0 <= x < k ==> #[trigger] capped@[x]@ == cap_of(tokens_of(input@)[x]),
        decreases ts@.len() - k,
    {
        let t: &Vec<char> = &ts[k];
        assert(t@ == tokens_of(input@)[k as int]);
        assert(t@.len() > 0);
        let first_up = upper_char(t[0]);
        let mut rest: Vec<char> = Vec::new();
        let mut j: usize = 1;
        while j < t.len()
            invariant
                1 <= j <= t@.len(),
                rest@ == t@.subrange(1, j as int),
            decreases t@.len() - j,
        {
            rest.push(t[j]);
            proof {
                assert(t@.subrange(1, j as int + 1) =~= t@.subrange(1, j as int).push(
                    t@[j as int],
                ));
            }
            j += 1;
        }
        proof {
            assert(t@.subrange(1, t@.len() as int) =~= t@.skip(1));
        }
        let rest_str = string_from_chars(rest.as_slice());
        let rest_low = to_lower(rest_str.as_str());
        let mut ct: Vec<char> = Vec::new();
        push_str_chars(&mut ct, first_up.as_str());
        push_str_chars(&mut ct, rest_low.as_str());
        assert(ct@ =~= cap_of(t@));
        capped.push(ct);
        k += 1;
    }
    proof {
        assert(views_of(capped@) =~= tokens_of(input@).map_values(|t: Seq<char>| cap_of(t)));
    }
    let joined = join_tokens(&capped, ' ');
    string_from_chars(joined.as_slice())
}

/// The case-shaping selection: leave the text as it is, or rewrite it to
/// lowercase, uppercase or title case. The selections are mutually exclusive.
#[derive(Clone, Copy, Debug, PartialEq, Eq, Structural)]
pub enum Shaping {
    Preserve,
    Lowercase,
    Uppercase,
    Titlecase,
}

/// The shaped form of `s` under the given selection.
pub open spec fn shaped_of(s: Seq<char>, shaping: Shaping) -> Seq<char> {
    match shaping {
        Shaping::Preserve => s,
        Shaping::Lowercase => lower_of(s),
        Shaping::Uppercase => upper_of(s),
        Shaping::Titlecase => title_of(s),
    }
}

/// Applies the selected case shaping to the text; `Preserve` returns it
/// unchanged.
pub fn shape_case(input: &str, shaping: Shaping) -> (r: String)
    ensures
        r@ == shaped_of(input@, shaping),
{
    match shaping {
        Shaping::Preserve => String::from_str(input),
        Shaping::Lowercase => to_lower(input),
        Shaping::Uppercase => to_upper(input),
        Shaping::Titlecase => title_case(input),
    }
}

} // verus!
