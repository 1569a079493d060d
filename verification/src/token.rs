//! Tokens: the maximal runs of glyphs between whitespace.

use crate::glyph::{CharKind, Glyph};
use crate::sequence::{lemma_run_len, lemma_run_len_is, run_len};
use vstd::prelude::*;

verus! {

/// Whether a glyph separates tokens.
pub open spec fn is_space(g: Glyph) -> bool {
    g.kind == CharKind::Space
}

/// The length of the token that `s` begins with: the number of glyphs before
/// the first space. It is 0 if `s` is empty or begins with a space.
pub open spec fn token_len(s: Seq<Glyph>) -> nat {
    run_len(s, |g: Glyph| is_space(g))
}

/// The tokens of a document, in order. Leading spaces are skipped; then the
/// longest prefix without a space is a token, and the rest follows it.
pub open spec fn tokens(s: Seq<Glyph>) -> Seq<Seq<Glyph>>
    decreases s.len(),
{
    if s.len() == 0 {
        Seq::empty()
    } else if is_space(s[0]) {
        tokens(s.drop_first())
    } else {
        proof {
            lemma_token_len(s);
        }
        seq![s.take(token_len(s) as int)] + tokens(s.skip(token_len(s) as int))
    }
}

/// The token that `s` begins with lies inside `s`, holds no space, and ends
/// at a space or at the end of `s`. It is empty only where no token begins.
pub proof fn lemma_token_len(s: Seq<Glyph>)
    ensures
        token_len(s) <= s.len(),
        forall|i: int| 0 <= i < token_len(s) ==> !is_space(#[trigger] s[i]),
        token_len(s) < s.len() ==> is_space(s[token_len(s) as int]),
        s.len() > 0 && !is_space(s[0]) ==> token_len(s) >= 1,
{
    lemma_run_len(s, |g: Glyph| is_space(g));
}

/// A prefix of `n` glyphs without a space that ends at a space, or at the
/// end of `s`, is the token that `s` begins with.
pub proof fn lemma_token_len_is(s: Seq<Glyph>, n: int)
    requires
        0 <= n <= s.len(),
        forall|i: int| 0 <= i < n ==> !is_space(#[trigger] s[i]),
        n < s.len() ==> is_space(s[n]),
    ensures
        token_len(s) == n,
{
    lemma_run_len_is(s, |g: Glyph| is_space(g), n);
}

/// A document that begins with a space has the tokens of what follows it.
pub proof fn lemma_tokens_after_space(s: Seq<Glyph>)
    requires
        s.len() > 0,
        is_space(s[0]),
    ensures
        tokens(s) == tokens(s.skip(1)),
{
    assert(s.drop_first() =~= s.skip(1));
}

/// A document that begins with a glyph other than a space has, as its first
/// token, its first `n` glyphs, where the run without a space ends at `n`;
/// the other tokens are those of what follows.
pub proof fn lemma_tokens_after_token(s: Seq<Glyph>, n: int)
    requires
        0 < n <= s.len(),
        forall|i: int| 0 <= i < n ==> !is_space(#[trigger] s[i]),
        n < s.len() ==> is_space(s[n]),
    ensures
        tokens(s) == seq![s.take(n)] + tokens(s.skip(n)),
{
    lemma_token_len_is(s, n);
}

/// Whether the glyphs from `start` up to `end` are a maximal run without a
/// space: none inside, and a space or an end of the document on either side.
pub open spec fn is_token_at(doc: Seq<Glyph>, start: int, end: int) -> bool {
    &&& 0 <= start < end <= doc.len()
    &&& forall|i: int| start <= i < end ==> !is_space(#[trigger] doc[i])
    &&& (start == 0 || is_space(doc[start - 1]))
    &&& (end == doc.len() || is_space(doc[end]))
}

/// Whether `spans` lists, from left to right, every maximal run without a
/// space that begins at or after `from`, and nothing else.
pub open spec fn are_the_runs_from(doc: Seq<Glyph>, from: int, spans: Seq<(int, int)>) -> bool {
    &&& forall|k: int|
        0 <= k < spans.len() ==> from <= (#[trigger] spans[k]).0 && is_token_at(
            doc,
            spans[k].0,
            spans[k].1,
        )
    &&& forall|j: int, k: int|
        0 <= j < k < spans.len() ==> (#[trigger] spans[j]).1 < (#[trigger] spans[k]).0
    &&& forall|start: int, end: int|
        from <= start && #[trigger] is_token_at(doc, start, end) ==> spans.contains((start, end))
}

/// The tokens after a position at which a run may begin are the maximal
/// runs without a space from there on, in order: the result gives their
/// positions.
pub proof fn lemma_tokens_from(doc: Seq<Glyph>, from: int) -> (spans: Seq<(int, int)>)
    requires
        0 <= from <= doc.len(),
        from == 0 || is_space(doc[from - 1]),
    ensures
        are_the_runs_from(doc, from, spans),
        spans.len() == tokens(doc.skip(from)).len(),
        forall|k: int|
            0 <= k < spans.len() ==> #[trigger] tokens(doc.skip(from))[k] == doc.subrange(
                spans[k].0,
                spans[k].1,
            ),
    decreases doc.len() - from,
{
    let tail = doc.skip(from);
    if from == doc.len() {
        Seq::empty()
    } else if is_space(doc[from]) {
        let spans = lemma_tokens_from(doc, from + 1);
        lemma_tokens_after_space(tail);
        assert(tail.skip(1) =~= doc.skip(from + 1));
        spans
    } else {
        lemma_token_len(tail);
        let end = from + token_len(tail);
        let span = (from, end);
        assert forall|i: int| from <= i < end implies !is_space(#[trigger] doc[i]) by {
            assert(doc[i] == tail[i - from]);
        }
        assert(end < doc.len() ==> doc[end] == tail[end - from]);
        assert(is_token_at(doc, from, end));
        assert(tail.take(end - from) =~= doc.subrange(from, end));
        assert(tail.skip(end - from) =~= doc.skip(end));
        let rest = if end == doc.len() {
            Seq::empty()
        } else {
            lemma_tokens_after_space(doc.skip(end));
            assert(doc.skip(end).skip(1) =~= doc.skip(end + 1));
            lemma_tokens_from(doc, end + 1)
        };
        let spans = seq![span] + rest;
        assert(tokens(tail) == seq![doc.subrange(from, end)] + tokens(doc.skip(end)));
        assert forall|k: int| 0 <= k < spans.len() implies from <= (#[trigger] spans[k]).0
            && is_token_at(doc, spans[k].0, spans[k].1) && tokens(tail)[k] == doc.subrange(
            spans[k].0,
            spans[k].1,
        ) by {
            if k > 0 {
                assert(spans[k] == rest[k - 1]);
                assert(tokens(tail)[k] == tokens(doc.skip(end))[k - 1]);
            }
        }
        assert forall|j: int, k: int| 0 <= j < k < spans.len() implies (#[trigger] spans[j]).1 < (
        #[trigger] spans[k]).0 by {
            assert(spans[k] == rest[k - 1]);
            if j > 0 {
                assert(spans[j] == rest[j - 1]);
            }
        }
        assert forall|start: int, stop: int|
            from <= start && #[trigger] is_token_at(doc, start, stop) implies spans.contains(
            (start, stop),
        ) by {
            if start <= end {
                assert(start == from) by {
                    if start > from {
                        assert(!is_space(doc[start - 1]));
                    }
                }
                assert(stop == end) by {
                    if stop < end {
                        assert(!is_space(doc[stop]));
                    } else if stop > end {
                        assert(!is_space(doc[end]));
                    }
                }
                assert(spans[0] == span);
            } else {
                assert(rest.contains((start, stop)));
                let k = choose|k: int| 0 <= k < rest.len() && rest[k] == (start, stop);
                assert(spans[k + 1] == rest[k]);
            }
        }
        spans
    }
}

/// The tokens of a document are its maximal runs without a space, each of
/// them once, from left to right: the result gives their positions.
pub proof fn lemma_tokens_are_the_maximal_runs(doc: Seq<Glyph>) -> (spans: Seq<(int, int)>)
    ensures
        are_the_runs_from(doc, 0, spans),
        spans.len() == tokens(doc).len(),
        forall|k: int|
            0 <= k < spans.len() ==> #[trigger] tokens(doc)[k] == doc.subrange(
                spans[k].0,
                spans[k].1,
            ),
{
    assert(doc.skip(0) =~= doc);
    lemma_tokens_from(doc, 0)
}

/// Finds the first token at or after position `from`, as the positions where
/// it starts and ends. `None` means that only spaces are left.
pub fn next_token(doc: &[Glyph], from: usize) -> (found: Option<(usize, usize)>)
    requires
        from <= doc@.len(),
    ensures
        match found {
            None => {
                &&& forall|i: int| from <= i < doc@.len() ==> is_space(#[trigger] doc@[i])
                &&& tokens(doc@.skip(from as int)).len() == 0
            },
            Some((start, end)) => {
                &&& from <= start < end <= doc@.len()
                &&& forall|i: int| from <= i < start ==> is_space(#[trigger] doc@[i])
                &&& forall|i: int| start <= i < end ==> !is_space(#[trigger] doc@[i])
                &&& end < doc@.len() ==> is_space(doc@[end as int])
                &&& tokens(doc@.skip(from as int)) == seq![doc@.subrange(start as int, end as int)]
                    + tokens(doc@.skip(end as int))
            },
        },
{
    let n: usize = doc.len();
    let mut start: usize = from;
    while start < n && doc[start].kind == CharKind::Space
        invariant
            from <= start <= n,
            n == doc@.len(),
            forall|i: int| from <= i < start ==> is_space(#[trigger] doc@[i]),
            tokens(doc@.skip(start as int)) == tokens(doc@.skip(from as int)),
        decreases n - start,
    {
        proof {
            lemma_tokens_after_space(doc@.skip(start as int));
            assert(doc@.skip(start as int).skip(1) =~= doc@.skip(start + 1));
        }
        start = start + 1;
    }
    if start == n {
        return None;
    }
    let mut end: usize = start + 1;
    while end < n && doc[end].kind != CharKind::Space
        invariant
            start < end <= n,
            n == doc@.len(),
            forall|i: int| start <= i < end ==> !is_space(#[trigger] doc@[i]),
        decreases n - end,
    {
        end = end + 1;
    }
    proof {
        let rest = doc@.skip(start as int);
        let len = end - start;
        lemma_tokens_after_token(rest, len);
        assert(rest.take(len) =~= doc@.subrange(start as int, end as int));
        assert(rest.skip(len) =~= doc@.skip(end as int));
    }
    Some((start, end))
}

} // verus!
