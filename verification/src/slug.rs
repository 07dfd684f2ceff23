//! The two transformations: text to slug and slug back to spaced text.

use vstd::prelude::*;
use regex::Regex;
use crate::chars::all_space;
use crate::chars::is_slug_keep;
use crate::chars::is_space;
use crate::chars::is_word;
use crate::chars::string_from_chars;
use crate::tokens::join_with;
use crate::tokens::join_tokens;
use crate::tokens::split_tokens;
use crate::tokens::tokens_of;
use crate::tokens::lemma_tokens_wf;
use crate::tokens::lemma_tokens_all_space;
use crate::tokens::lemma_tokens_last;
use crate::tokens::lemma_join_chars;
use crate::tokens::lemma_join_extend;

verus! {

/// The slug of `s`: drop every character that is not a word character,
/// whitespace or a hyphen, split what remains on whitespace runs, and join
/// the tokens with single hyphens.
pub open spec fn slug_of(s: Seq<char>) -> Seq<char> {
    join_with(tokens_of(s.filter(|c: char| is_slug_keep(c))), '-')
}

/// The unslugged form of `s`: each hyphen becomes one space, everything else
/// stays, so the length never changes.
pub open spec fn unslug_of(s: Seq<char>) -> Seq<char> {
    s.map_values(|c: char| if c == '-' { ' ' } else { c })
}

/// Relies on `regex::Regex::new` and `regex::Regex::replace_all`: the pattern
/// `[^\w\s-]` matches exactly one character outside the kept class (word
/// character per the Unicode-aware `\w`, whitespace per `\s`, or hyphen), the
/// pattern is valid so `new` returns `Ok`, and replacing every match with the
/// empty string leaves exactly the kept characters, in order.
#[verifier::external_body]
fn strip_non_slug(s: &str) -> (r: String)
    ensures
        r@ == s@.filter(|c: char| is_slug_keep(c)),
        forall|i: int|
            0 <= i < r@.len() ==> (is_word(#[trigger] r@[i]) || is_space(r@[i]) || r@[i] == '-'),
{
    let re = Regex::new(r"[^\w\s-]").unwrap();
    re.replace_all(s, "").into_owned()
}

/// Converts text to a slug: removes every character that is neither a word
/// character, whitespace nor a hyphen, then joins the whitespace-delimited
/// tokens of the remainder with single hyphens.
pub fn slugify(input: &str) -> (r: String)
    ensures
        r@ == slug_of(input@),
{
    let stripped = strip_non_slug(input);
    let ts = split_tokens(stripped.as_str());
    let joined = join_tokens(&ts, '-');
    string_from_chars(joined.as_slice())
}

/// Converts a slug back to spaced text: replaces every hyphen with exactly
/// one space and changes nothing else, so the length is preserved.
pub fn unslugify(input: &str) -> (r: String)
    ensures
        r@ == unslug_of(input@),
        r@.len() == input@.len(),
{
    let n = input.unicode_len();
    let mut out: Vec<char> = Vec::new();
    let mut i: usize = 0;
    while i < n
        invariant
            n == input@.len(),
            0 <= i <= n,
            out@ == unslug_of(input@.take(i as int)),
        decreases n - i,
    {
        let c = input.get_char(i);
        if c == '-' {
            out.push(' ');
        } else {
            out.push(c);
        }
        proof {
            assert(unslug_of(input@.take(i as int + 1)) =~= unslug_of(input@.take(i as int)).push(
                if input@[i as int] == '-' {
                    ' '
                } else {
                    input@[i as int]
                },
            ));
        }
        i += 1;
    }
    proof {
        assert(input@.take(n as int) =~= input@);
        assert(unslug_of(input@).len() == input@.len());
    }
    string_from_chars(out.as_slice())
}

/// Law: a slug contains no whitespace character. Every character of the join
/// is either the hyphen separator, which is not whitespace, or a character of
/// a token, and tokens are runs of non-whitespace.
pub proof fn lemma_slug_no_whitespace(s: Seq<char>)
    ensures
        forall|i: int| 0 <= i < slug_of(s).len() ==> !is_space(#[trigger] slug_of(s)[i]),
{
    let t = s.filter(|c: char| is_slug_keep(c));
    let ts = tokens_of(t);
    lemma_tokens_wf(t);
    lemma_join_chars(ts, '-');
    assert(!is_space('-'));
    assert forall|i: int| 0 <= i < slug_of(s).len() implies !is_space(#[trigger] slug_of(s)[i]) by {
        let c = slug_of(s)[i];
        if c != '-' {
            let k = choose|k: int| 0 <= k < ts.len() && (#[trigger] ts[k]).contains(c);
            let j = choose|j: int| 0 <= j < ts[k].len() && ts[k][j] == c;
        }
    }
}

/// Law: a slug contains only word characters and hyphens — nothing outside
/// letters, digits, underscore and hyphen. A token character survived the
/// filter, so it is a word character, whitespace or a hyphen, and tokens hold
/// no whitespace.
pub proof fn lemma_slug_alphabet(s: Seq<char>)
    ensures
        forall|i: int|
            0 <= i < slug_of(s).len() ==> (is_word(#[trigger] slug_of(s)[i]) || slug_of(s)[i]
                == '-'),
{
    broadcast use vstd::seq_lib::group_filter_ensures;

    let t = s.filter(|c: char| is_slug_keep(c));
    let ts = tokens_of(t);
    lemma_tokens_wf(t);
    lemma_join_chars(ts, '-');
    assert forall|i: int|
        0 <= i < slug_of(s).len() implies (is_word(#[trigger] slug_of(s)[i]) || slug_of(s)[i]
        == '-') by {
        let c = slug_of(s)[i];
        if c != '-' {
            let k = choose|k: int| 0 <= k < ts.len() && (#[trigger] ts[k]).contains(c);
            let j = choose|j: int| 0 <= j < ts[k].len() && ts[k][j] == c;
            assert(t.contains(c));
            let x = choose|x: int| 0 <= x < t.len() && t[x] == c;
            assert(is_slug_keep(t[x]));
            assert(!is_space(c));
        }
    }
}

/// Law: when the filter leaves nothing but whitespace — in particular when it
/// strips everything — the slug is the empty string. That is a valid output:
/// emptiness is rejected only at the input boundary, never after the
/// transformation.
pub proof fn lemma_slug_empty(s: Seq<char>)
    requires
        forall|i: int| 0 <= i < s.len() ==> (is_slug_keep(#[trigger] s[i]) ==> is_space(s[i])),
    ensures
        slug_of(s) == Seq::<char>::empty(),
{
    lemma_filter_space_only(s);
    lemma_tokens_all_space(s.filter(|c: char| is_slug_keep(c)));
}

/// When every kept character of `s` is whitespace, the filter leaves only
/// whitespace.
proof fn lemma_filter_space_only(s: Seq<char>)
    requires
        forall|i: int| 0 <= i < s.len() ==> (is_slug_keep(#[trigger] s[i]) ==> is_space(s[i])),
    ensures
        all_space(s.filter(|c: char| is_slug_keep(c))),
    decreases s.len(),
{
    reveal(Seq::filter);
    if s.len() > 0 {
        assert(forall|i: int| 0 <= i < s.len() - 1 ==> s.drop_last()[i] == s[i]);
        lemma_filter_space_only(s.drop_last());
        let t = s.filter(|c: char| is_slug_keep(c));
        let t1 = s.drop_last().filter(|c: char| is_slug_keep(c));
        if is_slug_keep(s.last()) {
            assert(t == t1.push(s.last()));
            assert(is_space(s.last()));
        } else {
            assert(t == t1);
        }
    }
}

/// A sequence every character of which satisfies the predicate is its own
/// filtering.
proof fn lemma_filter_all(t: Seq<char>, pred: spec_fn(char) -> bool)
    requires
        forall|i: int| 0 <= i < t.len() ==> pred(#[trigger] t[i]),
    ensures
        t.filter(pred) == t,
    decreases t.len(),
{
    reveal(Seq::filter);
    if t.len() > 0 {
        lemma_filter_all(t.drop_last(), pred);
        assert(pred(t.last()));
        assert(t.filter(pred) =~= t);
    }
}

/// Whether `s` is already in slug form: every character is a hyphen or a
/// kept non-whitespace character (a word character), no two hyphens are
/// adjacent, and no hyphen stands at either end.
pub open spec fn slug_form(s: Seq<char>) -> bool {
    &&& forall|i: int|
        0 <= i < s.len() ==> (#[trigger] s[i] == '-' || (is_slug_keep(s[i]) && !is_space(s[i])))
    &&& forall|i: int| 0 <= i && i + 1 < s.len() ==> !(#[trigger] s[i] == '-' && s[i + 1] == '-')
    &&& (s.len() > 0 ==> s[0] != '-' && s[s.len() - 1] != '-')
}

/// Splitting the unslugged text on its spaces and joining with hyphens
/// rebuilds `s`, up to a trailing hyphen, for text whose characters all
/// survive the filter, with no doubled and no leading hyphen.
proof fn lemma_rebuild(s: Seq<char>)
    requires
        forall|i: int|
            0 <= i < s.len() ==> (#[trigger] s[i] == '-' || (is_slug_keep(s[i]) && !is_space(
                s[i],
            ))),
        forall|i: int| 0 <= i && i + 1 < s.len() ==> !(#[trigger] s[i] == '-' && s[i + 1] == '-'),
        s.len() > 0 ==> s[0] != '-',
    ensures
        join_with(tokens_of(unslug_of(s)), '-') == (if s.len() > 0 && s.last() == '-' {
            s.drop_last()
        } else {
            s
        }),
    decreases s.len(),
{
    if s.len() == 0 {
        assert(unslug_of(s) =~= Seq::<char>::empty());
    } else {
        let n = s.len();
        let c = s.last();
        let s1 = s.drop_last();
        let u = unslug_of(s);
        let u1 = unslug_of(s1);
        assert(u.len() == n);
        assert(u.drop_last() =~= u1);
        lemma_rebuild(s1);
        if c == '-' {
            // A hyphen cannot stand first, so there is a preceding character,
            // and it is not a hyphen.
            assert(n >= 2);
            assert(s1.last() == s[n - 2]);
            assert(s[n - 2] != '-');
            assert(u.last() == ' ');
            assert(is_space(' '));
            assert(tokens_of(u) == tokens_of(u1));
            assert(join_with(tokens_of(u), '-') == s1);
        } else {
            assert(!is_space(c));
            assert(u.last() == c);
            if n == 1 {
                assert(tokens_of(u) =~= Seq::<Seq<char>>::empty().push(seq![c]));
                assert(join_with(tokens_of(u), '-') =~= s);
            } else if s[n - 2] == '-' {
                // The previous character was a hyphen, now a space: `c`
                // starts a new token.
                assert(u[n as int - 2] == ' ');
                assert(tokens_of(u) == tokens_of(u1).push(seq![c]));
                // `s1` ends with its own hyphen; behind it stands a
                // non-hyphen character, so the tokens so far are not empty.
                assert(s1.len() >= 2);
                let s2 = s1.drop_last();
                let u2 = unslug_of(s2);
                assert(u1.drop_last() =~= u2);
                assert(u1.last() == ' ');
                assert(tokens_of(u1) == tokens_of(u2));
                assert(s2.last() == s[n - 3]);
                assert(s[n - 3] != '-');
                assert(u2.last() == s[n - 3]);
                assert(!is_space(u2.last()));
                lemma_tokens_last(u2);
                assert(tokens_of(u1).len() > 0);
                assert(join_with(tokens_of(u1), '-') == s1.drop_last());
                let ts = tokens_of(u1).push(seq![c]);
                assert(ts.len() >= 2);
                assert(ts.drop_last() =~= tokens_of(u1));
                assert(ts.last() == seq![c]);
                assert(join_with(ts, '-') == join_with(tokens_of(u1), '-') + seq!['-'] + seq![c]);
                assert(join_with(tokens_of(u), '-') =~= s);
            } else {
                // Two non-space characters in a row: `c` extends the last
                // token.
                assert(u[n as int - 2] == s[n - 2]);
                assert(!is_space(u[n as int - 2]));
                let pre = tokens_of(u1);
                assert(tokens_of(u) == pre.update(pre.len() - 1, pre.last().push(c)));
                assert(u1.last() == s[n - 2]);
                lemma_tokens_last(u1);
                lemma_join_extend(pre, '-', c);
                assert(join_with(tokens_of(u1), '-') == s1);
                assert(join_with(tokens_of(u), '-') =~= s);
            }
        }
    }
}

/// Law: slugify is a left inverse of unslugify on text already in slug form.
/// Unslugging such text turns each hyphen into one space; slugifying removes
/// nothing (every character is kept), splits on exactly those spaces, and
/// joins the pieces back with single hyphens.
pub proof fn lemma_slug_unslug_round_trip(s: Seq<char>)
    requires
        slug_form(s),
    ensures
        slug_of(unslug_of(s)) == s,
{
    let u = unslug_of(s);
    assert forall|i: int| 0 <= i < u.len() implies is_slug_keep(#[trigger] u[i]) by {
        assert(s[i] == '-' || (is_slug_keep(s[i]) && !is_space(s[i])));
        assert(is_space(' '));
    }
    lemma_filter_all(u, |c: char| is_slug_keep(c));
    lemma_rebuild(s);
}

} // verus!
