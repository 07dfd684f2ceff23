//! The input-resolution policy: choose between an explicit argument and text
//! read from standard input, and reject empty input.

use vstd::prelude::*;
use crate::chars::all_space;
use crate::chars::is_space;
use crate::chars::is_space_char;

verus! {

/// The fatal input-resolution errors: nothing to process at all, or input
/// that is empty or whitespace-only once resolved.
#[derive(Clone, Copy, Debug, PartialEq, Eq, Structural)]
pub enum InputError {
    NoInput,
    EmptyInput,
}

/// `s` without its trailing line terminators: every `'\n'` and `'\r'` at the
/// end is dropped, nothing else.
pub open spec fn trim_newlines_of(s: Seq<char>) -> Seq<char>
    decreases s.len(),
{
    if s.len() > 0 && (s.last() == '\n' || s.last() == '\r') {
        trim_newlines_of(s.drop_last())
    } else {
        s
    }
}

/// Whether `s` is empty or holds only whitespace.
pub open spec fn blank(s: Seq<char>) -> bool {
    all_space(s)
}

/// What input resolution yields: the argument verbatim when one is given;
/// otherwise the standard-input text with its trailing line terminators
/// stripped, rejected when standard input yielded nothing; rejected in every
/// case when the resolved text is blank.
pub open spec fn resolve_of(arg: Option<Seq<char>>, stdin_text: Option<Seq<char>>) -> Result<
    Seq<char>,
    InputError,
> {
    let candidate = match arg {
        Some(t) => Some(t),
        None => match stdin_text {
            Some(b) => if b.len() == 0 {
                None
            } else {
                Some(trim_newlines_of(b))
            },
            None => None,
        },
    };
    match candidate {
        None => Err(InputError::NoInput),
        Some(t) => if blank(t) {
            Err(InputError::EmptyInput)
        } else {
            Ok(t)
        },
    }
}

/// The views of an optional string.
pub open spec fn opt_chars_of(o: Option<String>) -> Option<Seq<char>> {
    match o {
        Some(s) => Some(s@),
        None => None,
    }
}

/// Removes every trailing `'\n'` or `'\r'` from `s`.
pub fn strip_trailing_newlines(s: &str) -> (r: String)
    ensures
        r@ == trim_newlines_of(s@),
{
    let n = s.unicode_len();
    let mut end = n;
    proof {
        assert(s@.take(n as int) =~= s@);
    }
    while end > 0 && (s.get_char(end - 1) == '\n' || s.get_char(end - 1) == '\r')
        invariant
            n == s@.len(),
            0 <= end <= n,
            trim_newlines_of(s@.take(end as int)) == trim_newlines_of(s@),
        decreases end,
    {
        proof {
            assert(s@.take(end as int).drop_last() =~= s@.take(end as int - 1));
        }
        end = end - 1;
    }
    proof {
        assert(trim_newlines_of(s@.take(end as int)) == s@.take(end as int));
    }
    let r = s.substring_char(0, end);
    proof {
        assert(r@ =~= s@.take(end as int));
    }
    String::from_str(r)
}

/// Whether `s` is empty or holds only whitespace.
pub fn is_blank(s: &str) -> (b: bool)
    ensures
        b == blank(s@),
{
    let n = s.unicode_len();
    let mut i: usize = 0;
    while i < n
        invariant
            n == s@.len(),
            0 <= i <= n,
            forall|x: int| 0 <= x < i ==> is_space(#[trigger] s@[x]),
        decreases n - i,
    {
        if !is_space_char(s.get_char(i)) {
            return false;
        }
        i += 1;
    }
    true
}

/// Resolves the text to process from an optional explicit argument and the
/// optional text read from standard input, per [`resolve_of`]: the argument
/// wins verbatim; standard input loses its trailing line terminators and must
/// have yielded something; blank text is always rejected.
pub fn resolve_input(arg: Option<String>, stdin_text: Option<String>) -> (r: Result<
    String,
    InputError,
>)
    ensures
        match (r, resolve_of(opt_chars_of(arg), opt_chars_of(stdin_text))) {
            (Ok(t), Ok(e)) => t@ == e,
            (Err(a), Err(b)) => a == b,
            _ => false,
        },
{
    let candidate: String = match arg {
        Some(t) => t,
        None => match stdin_text {
            Some(b) => {
                if b.unicode_len() == 0 {
                    return Err(InputError::NoInput);
                }
                strip_trailing_newlines(b.as_str())
            },
            None => {
                return Err(InputError::NoInput);
            },
        },
    };
    if is_blank(candidate.as_str()) {
        Err(InputError::EmptyInput)
    } else {
        Ok(candidate)
    }
}

} // verus!
