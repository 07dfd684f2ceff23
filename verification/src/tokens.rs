//! Splitting text into whitespace-delimited tokens and joining tokens with a
//! separator character. These are the two halves shared by slug construction
//! (join with a hyphen) and title casing (join with a space).

use vstd::prelude::*;
use crate::chars::all_space;
use crate::chars::is_space;
use crate::chars::is_space_char;

verus! {

/// The maximal runs of non-whitespace characters of `s`, in order. This is
/// the splitting that `split_whitespace` performs: whitespace separates
/// tokens and never appears in one, and no token is empty.
pub open spec fn tokens_of(s: Seq<char>) -> Seq<Seq<char>>
    decreases s.len(),
{
    if s.len() == 0 {
        Seq::empty()
    } else {
        let c = s.last();
        let pre = tokens_of(s.drop_last());
        if is_space(c) {
            pre
        } else if s.len() >= 2 && !is_space(s[s.len() - 2]) {
            pre.update(pre.len() - 1, pre.last().push(c))
        } else {
            pre.push(seq![c])
        }
    }
}

/// The tokens joined back into one sequence with a single `sep` between each
/// adjacent pair; no leading or trailing separator.
pub open spec fn join_with(ts: Seq<Seq<char>>, sep: char) -> Seq<char>
    decreases ts.len(),
{
    if ts.len() == 0 {
        Seq::empty()
    } else if ts.len() == 1 {
        ts[0]
    } else {
        join_with(ts.drop_last(), sep) + seq![sep] + ts.last()
    }
}

/// The views of a sequence of character vectors.
pub open spec fn views_of(ts: Seq<Vec<char>>) -> Seq<Seq<char>> {
    ts.map_values(|t: Vec<char>| t@)
}

/// No token is empty, and a token holds no whitespace.
pub proof fn lemma_tokens_wf(s: Seq<char>)
    ensures
        forall|k: int| 0 <= k < tokens_of(s).len() ==> #[trigger] tokens_of(s)[k].len() > 0,
        forall|k: int, j: int|
            0 <= k < tokens_of(s).len() && 0 <= j < tokens_of(s)[k].len() ==> !is_space(
                #[trigger] tokens_of(s)[k][j],
            ) && s.contains(tokens_of(s)[k][j]),
    decreases s.len(),
{
    if s.len() > 0 {
        lemma_tokens_wf(s.drop_last());
        let c = s.last();
        let pre = tokens_of(s.drop_last());
        assert(s.contains(c)) by {
            assert(s[s.len() - 1] == c);
        }
        assert(forall|i: int| 0 <= i < s.len() - 1 ==> s.drop_last()[i] == s[i]);
        assert(forall|x: char| s.drop_last().contains(x) ==> s.contains(x));
        if is_space(c) {
        } else if s.len() >= 2 && !is_space(s[s.len() - 2]) {
            lemma_tokens_last(s.drop_last());
        } else {
        }
    }
}

/// A sequence that ends with a non-whitespace character splits into at least
/// one token, and the last token ends with that character.
pub proof fn lemma_tokens_last(s: Seq<char>)
    requires
        s.len() > 0,
        !is_space(s.last()),
    ensures
        tokens_of(s).len() > 0,
        tokens_of(s).last().len() > 0,
        tokens_of(s).last().last() == s.last(),
    decreases s.len(),
{
    if s.len() >= 2 && !is_space(s[s.len() - 2]) {
        assert(s.drop_last().last() == s[s.len() - 2]);
        lemma_tokens_last(s.drop_last());
    }
}

/// A sequence of nothing but whitespace splits into no tokens at all.
pub proof fn lemma_tokens_all_space(s: Seq<char>)
    requires
        all_space(s),
    ensures
        tokens_of(s) == Seq::<Seq<char>>::empty(),
    decreases s.len(),
{
    if s.len() > 0 {
        lemma_tokens_all_space(s.drop_last());
        assert(is_space(s.last()));
        assert(tokens_of(s) =~= Seq::<Seq<char>>::empty());
    }
}

/// Whether `c` occurs in one of the tokens.
pub open spec fn token_char(ts: Seq<Seq<char>>, c: char) -> bool {
    exists|k: int| 0 <= k < ts.len() && (#[trigger] ts[k]).contains(c)
}

/// Every character of a join is the separator or a character of some token.
pub proof fn lemma_join_chars(ts: Seq<Seq<char>>, sep: char)
    ensures
        forall|i: int|
            0 <= i < join_with(ts, sep).len() ==> (#[trigger] join_with(ts, sep)[i] == sep
                || token_char(ts, join_with(ts, sep)[i])),
    decreases ts.len(),
{
    if ts.len() <= 1 {
        assert forall|i: int|
            0 <= i < join_with(ts, sep).len() implies (#[trigger] join_with(ts, sep)[i] == sep
            || token_char(ts, join_with(ts, sep)[i])) by {
            assert(ts[0].contains(ts[0][i]));
        }
    } else {
        lemma_join_chars(ts.drop_last(), sep);
        let pre = join_with(ts.drop_last(), sep);
        assert forall|i: int|
            0 <= i < join_with(ts, sep).len() implies (#[trigger] join_with(ts, sep)[i] == sep
            || token_char(ts, join_with(ts, sep)[i])) by {
            let c = join_with(ts, sep)[i];
            if i < pre.len() {
                assert(pre[i] == c);
                if c != sep {
                    let k = choose|k: int| 0 <= k < ts.drop_last().len() && (#[trigger] ts.drop_last()[k]).contains(c);
                    assert(ts[k].contains(c));
                }
            } else if i == pre.len() {
            } else {
                assert(ts.last().contains(c)) by {
                    assert(ts.last()[i - pre.len() - 1] == c);
                }
                assert(ts[ts.len() - 1].contains(c));
            }
        }
    }
}

/// Appending a character to the last token appends it to the join.
pub proof fn lemma_join_extend(ts: Seq<Seq<char>>, sep: char, c: char)
    requires
        ts.len() > 0,
    ensures
        join_with(ts.update(ts.len() - 1, ts.last().push(c)), sep) == join_with(ts, sep).push(c),
{
    let ts2 = ts.update(ts.len() - 1, ts.last().push(c));
    if ts.len() == 1 {
        assert(join_with(ts2, sep) =~= join_with(ts, sep).push(c));
    } else {
        assert(ts2.drop_last() =~= ts.drop_last());
        assert(ts2.last() == ts.last().push(c));
        assert(join_with(ts2, sep) =~= join_with(ts, sep).push(c));
    }
}

/// Splits `s` into its whitespace-delimited tokens.
pub fn split_tokens(s: &str) -> (ts: Vec<Vec<char>>)
    ensures
        views_of(ts@) == tokens_of(s@),
{
    let n = s.unicode_len();
    let mut ts: Vec<Vec<char>> = Vec::new();
    let mut prev_word = false;
    let mut i: usize = 0;
    while i < n
        invariant
            n == s@.len(),
            0 <= i <= n,
            views_of(ts@) == tokens_of(s@.take(i as int)),
            prev_word == (i > 0 && !is_space(s@[i as int - 1])),
        decreases n - i,
    {
        let c = s.get_char(i);
        proof {
            assert(s@.take(i as int + 1).drop_last() =~= s@.take(i as int));
            assert(s@.take(i as int + 1).last() == s@[i as int]);
        }
        if is_space_char(c) {
            assert(views_of(ts@) =~= tokens_of(s@.take(i as int + 1)));
        } else if prev_word {
            proof {
                lemma_tokens_last(s@.take(i as int));
            }
            let mut last = ts.pop().unwrap();
            last.push(c);
            ts.push(last);
            proof {
                let t = s@.take(i as int + 1);
                let pre = tokens_of(t.drop_last());
                assert(t.len() >= 2 && !is_space(t[t.len() - 2]));
                assert(tokens_of(t) == pre.update(pre.len() - 1, pre.last().push(s@[i as int])));
                assert(views_of(ts@) =~= tokens_of(t));
            }
        } else {
            let mut tok: Vec<char> = Vec::new();
            tok.push(c);
            ts.push(tok);
            proof {
                let t = s@.take(i as int + 1);
                assert(tok@ =~= seq![s@[i as int]]);
                assert(tokens_of(t) == tokens_of(t.drop_last()).push(seq![s@[i as int]]));
                assert(views_of(ts@) =~= tokens_of(t));
            }
        }
        prev_word = !is_space_char(c);
        i += 1;
    }
    proof {
        assert(s@.take(n as int) =~= s@);
    }
    ts
}

/// Joins the tokens with a single `sep` between each adjacent pair.
pub fn join_tokens(ts: &Vec<Vec<char>>, sep: char) -> (r: Vec<char>)
    ensures
        r@ == join_with(views_of(ts@), sep),
{
    let mut out: Vec<char> = Vec::new();
    let mut k: usize = 0;
    while k < ts.len()
        invariant
            0 <= k <= ts@.len(),
            out@ == join_with(views_of(ts@.take(k as int)), sep),
        decreases ts@.len() - k,
    {
        if k > 0 {
            out.push(sep);
        }
        let t: &Vec<char> = &ts[k];
        let ghost mid = out@;
        let mut j: usize = 0;
        while j < t.len()
            invariant
                0 <= j <= t@.len(),
                out@ == mid + t@.take(j as int),
            decreases t@.len() - j,
        {
            out.push(t[j]);
            proof {
                assert(t@.take(j as int + 1) =~= t@.take(j as int).push(t@[j as int]));
            }
            j += 1;
        }
        proof {
            let vs = views_of(ts@.take(k as int + 1));
            assert(t@.take(t@.len() as int) =~= t@);
            assert(vs.drop_last() =~= views_of(ts@.take(k as int)));
            assert(vs.last() == ts@[k as int]@);
            if k == 0 {
                assert(out@ =~= join_with(vs, sep));
            } else {
                assert(out@ =~= join_with(vs.drop_last(), sep) + seq![sep] + vs.last());
            }
        }
        k += 1;
    }
    proof {
        assert(ts@.take(ts@.len() as int) =~= ts@);
    }
    out
}

} // verus!
