//! Sentences: the segments between periods, and their number.

use crate::glyph::characters;
use crate::sequence::{
    lemma_filter_all, lemma_filter_first_and_rest, lemma_filter_none, lemma_run_len,
    lemma_run_len_is, run_len,
};
use vstd::prelude::*;

verus! {

/// The number of characters before the first period of `s`; the whole length
/// if `s` holds none.
pub open spec fn segment_len(s: Seq<char>) -> nat {
    run_len(s, |c: char| c == '.')
}

/// The segments that the periods cut a text into, in order. A text without
/// a period is one segment. Two periods in a row enclose an empty segment.
/// After the last period of a text that ends with one there is no segment.
pub open spec fn segments(s: Seq<char>) -> Seq<Seq<char>>
    decreases s.len(),
{
    if segment_len(s) >= s.len() {
        seq![s]
    } else if segment_len(s) + 1 == s.len() {
        seq![s.take(segment_len(s) as int)]
    } else {
        seq![s.take(segment_len(s) as int)] + segments(s.skip(segment_len(s) as int + 1))
    }
}

/// The first character of a segment, or a blank for the empty segment.
pub open spec fn first_or_blank(segment: Seq<char>) -> char {
    if segment.len() > 0 {
        segment[0]
    } else {
        ' '
    }
}

/// Whether a segment counts as a sentence: its first character, or the
/// blank that stands for it, is no period. The empty segment counts.
pub open spec fn is_sentence(segment: Seq<char>) -> bool {
    first_or_blank(segment) != '.'
}

/// The number of sentences of a text: of its segments, those that count.
pub open spec fn sentence_count(s: Seq<char>) -> nat {
    segments(s).filter(|segment: Seq<char>| is_sentence(segment)).len()
}

/// The first segment lies inside `s`, holds no period, and ends at a period
/// or at the end of `s`.
pub proof fn lemma_segment_len(s: Seq<char>)
    ensures
        segment_len(s) <= s.len(),
        forall|i: int| 0 <= i < segment_len(s) ==> #[trigger] s[i] != '.',
        segment_len(s) < s.len() ==> s[segment_len(s) as int] == '.',
{
    lemma_run_len(s, |c: char| c == '.');
}

/// A prefix of `n` characters without a period that ends at a period, or at
/// the end of `s`, is the first segment.
pub proof fn lemma_segment_len_is(s: Seq<char>, n: int)
    requires
        0 <= n <= s.len(),
        forall|i: int| 0 <= i < n ==> #[trigger] s[i] != '.',
        n < s.len() ==> s[n] == '.',
    ensures
        segment_len(s) == n,
{
    lemma_run_len_is(s, |c: char| c == '.', n);
}

/// The number of periods of a text.
pub open spec fn period_count(s: Seq<char>) -> nat {
    s.filter(|c: char| c == '.').len()
}

/// Whether a text ends with a period.
pub open spec fn ends_with_period(s: Seq<char>) -> bool {
    s.len() > 0 && s.last() == '.'
}

/// No segment holds a period.
pub proof fn lemma_segments_hold_no_period(s: Seq<char>)
    ensures
        forall|k: int, i: int|
            0 <= k < segments(s).len() && 0 <= i < segments(s)[k].len() ==> #[trigger] segments(
                s,
            )[k][i] != '.',
    decreases s.len(),
{
    lemma_segment_len(s);
    let n = segment_len(s) as int;
    let first = s.take(n);
    assert forall|i: int| 0 <= i < first.len() implies #[trigger] first[i] != '.' by {
        assert(first[i] == s[i]);
    }
    if n >= s.len() {
        assert(first =~= s);
    } else if n + 1 == s.len() {
    } else {
        let rest = segments(s.skip(n + 1));
        lemma_segments_hold_no_period(s.skip(n + 1));
        assert forall|k: int, i: int|
            0 <= k < segments(s).len() && 0 <= i < segments(s)[k].len() implies #[trigger] segments(
            s,
        )[k][i] != '.' by {
            if k > 0 {
                assert(segments(s)[k] == rest[k - 1]);
            }
        }
    }
}

/// Every segment counts as a sentence, the empty ones too: the number of
/// sentences is the number of segments.
pub proof fn lemma_every_segment_is_a_sentence(s: Seq<char>)
    ensures
        sentence_count(s) == segments(s).len(),
{
    lemma_segments_hold_no_period(s);
    lemma_filter_all(segments(s), |segment: Seq<char>| is_sentence(segment));
}

/// The periods cut a text into one segment each, and one more for what
/// follows the last period, unless nothing follows it.
pub proof fn lemma_segments_len(s: Seq<char>)
    ensures
        segments(s).len() == period_count(s) + if ends_with_period(s) {
            0int
        } else {
            1int
        },
    decreases s.len(),
{
    let period = |c: char| c == '.';
    lemma_segment_len(s);
    let n = segment_len(s) as int;
    let first = s.take(n);
    assert forall|i: int| 0 <= i < first.len() implies !period(#[trigger] first[i]) by {
        assert(first[i] == s[i]);
    }
    lemma_filter_none(first, period);
    if n >= s.len() {
        assert(first =~= s);
    } else {
        let rest = s.skip(n + 1);
        assert(s =~= first + (seq!['.'] + rest));
        Seq::filter_distributes_over_add(first, seq!['.'] + rest, period);
        lemma_filter_first_and_rest('.', rest, period);
        assert(first.filter(period) =~= Seq::<char>::empty());
        assert(period_count(s) == 1 + period_count(rest));
        if n + 1 == s.len() {
            assert(rest.filter(period).len() == 0) by {
                lemma_filter_none(rest, period);
            }
        } else {
            lemma_segments_len(rest);
            assert(rest.last() == s.last());
        }
    }
}

/// The number of sentences is the number of periods, and one more unless
/// the text ends with a period. It is never zero.
pub proof fn lemma_sentence_count(s: Seq<char>)
    ensures
        sentence_count(s) == period_count(s) + if ends_with_period(s) {
            0int
        } else {
            1int
        },
        sentence_count(s) >= 1,
{
    lemma_every_segment_is_a_sentence(s);
    lemma_segments_len(s);
    if ends_with_period(s) {
        let period = |c: char| c == '.';
        assert(s =~= s.drop_last() + (seq!['.'] + Seq::<char>::empty()));
        Seq::filter_distributes_over_add(s.drop_last(), seq!['.'] + Seq::<char>::empty(), period);
        lemma_filter_first_and_rest('.', Seq::<char>::empty(), period);
    }
}

/// Counts the sentences of a text given as a slice of characters.
pub fn count_sentences_in(text: &[char]) -> (count: u128)
    ensures
        count == sentence_count(text@),
        count == period_count(text@) + if ends_with_period(text@) {
            0int
        } else {
            1int
        },
{
    proof {
        lemma_sentence_count(text@);
    }
    let n: usize = text.len();
    let mut count: u128 = 0;
    let mut start: usize = 0;
    assert(text@.skip(0) =~= text@);
    loop
        invariant_except_break
            count <= start,
            count + sentence_count(text@.skip(start as int)) == sentence_count(text@),
        invariant
            start <= n,
            n == text@.len(),
        ensures
            count == sentence_count(text@),
        decreases n - start,
    {
        let mut end: usize = start;
        while end < n && text[end] != '.'
            invariant
                start <= end <= n,
                n == text@.len(),
                forall|i: int| start <= i < end ==> #[trigger] text@[i] != '.',
            decreases n - end,
        {
            end = end + 1;
        }
        let first: char = if start < end {
            text[start]
        } else {
            ' '
        };
        let last: bool = end == n || end + 1 == n;
        proof {
            let rest = text@.skip(start as int);
            let len = end - start;
            let segment = rest.take(len);
            let counts = |segment: Seq<char>| is_sentence(segment);
            lemma_segment_len_is(rest, len);
            assert(first == first_or_blank(segment));
            if last {
                assert(rest.take(len) =~= rest || end + 1 == n);
                assert(segments(rest) =~= seq![segment] + Seq::<Seq<char>>::empty());
                lemma_filter_first_and_rest(segment, Seq::<Seq<char>>::empty(), counts);
            } else {
                assert(rest.skip(len + 1) =~= text@.skip(end + 1));
                lemma_filter_first_and_rest(segment, segments(text@.skip(end + 1)), counts);
            }
        }
        if first != '.' {
            count = count + 1;
        }
        if last {
            break ;
        }
        start = end + 1;
    }
    count
}

/// Counts the sentences of `text`: one for each period, and one more for
/// what follows the last period. A text without a period is one sentence.
pub fn count_sentences(text: &str) -> (count: u128)
    ensures
        count == sentence_count(text@),
        count == period_count(text@) + if ends_with_period(text@) {
            0int
        } else {
            1int
        },
{
    let chars = characters(text);
    count_sentences_in(chars.as_slice())
}

} // verus!
