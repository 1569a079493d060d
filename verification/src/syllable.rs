//! The syllable heuristic: vowel clusters, corrected for a silent final `e`
//! and for a final `le` after a consonant.

use crate::glyph::{characters, chars_of, classify, glyphs_of, Glyph};
use crate::token::{next_token, tokens};
use crate::sequence::lemma_filter_first_and_rest;
use crate::word::{is_word, is_word_at, word_count, words};
use vstd::prelude::*;

verus! {

/// The vowels of the heuristic. They are lower-case letters: an upper-case
/// `A` is no vowel here, so a capitalised word earns nothing for its first
/// letter.
pub open spec fn is_vowel(c: char) -> bool {
    c == 'a' || c == 'e' || c == 'i' || c == 'o' || c == 'u' || c == 'y'
}

/// 1 if the word begins with a lower-case vowel, else 0.
pub open spec fn leading_vowel(word: Seq<char>) -> int {
    if word.len() > 0 && is_vowel(word[0]) {
        1
    } else {
        0
    }
}

/// Whether a vowel cluster begins at position `i`: a vowel that follows a
/// character which is none. Position 0 follows nothing and never qualifies.
pub open spec fn is_onset(word: Seq<char>, i: int) -> bool {
    1 <= i < word.len() && is_vowel(word[i]) && !is_vowel(word[i - 1])
}

/// The number of positions below `n` at which a vowel cluster begins.
pub open spec fn onsets(word: Seq<char>, n: int) -> int
    decreases n,
{
    if n <= 0 {
        0
    } else {
        onsets(word, n - 1) + if is_onset(word, n - 1) {
            1int
        } else {
            0int
        }
    }
}

/// 1 if the word ends with the letter `e`, else 0.
pub open spec fn silent_e(word: Seq<char>) -> int {
    if word.len() > 0 && word.last() == 'e' {
        1
    } else {
        0
    }
}

/// 1 if the word has more than two characters, ends with `le`, and the
/// character before that ending is no vowel; else 0.
pub open spec fn consonant_le(word: Seq<char>) -> int {
    let n: int = word.len() as int;
    if n > 2 && word[n - 2] == 'l' && word[n - 1] == 'e' && !is_vowel(word[n - 3]) {
        1
    } else {
        0
    }
}

/// The count before the floor: the leading vowel and the cluster onsets,
/// less the silent `e`, plus the `le` ending. It can be 0, as for `the`;
/// `lemma_raw_syllables_bounds` shows that it is never less.
pub open spec fn raw_syllables(word: Seq<char>) -> int {
    leading_vowel(word) + onsets(word, word.len() as int) - silent_e(word) + consonant_le(word)
}

/// The estimated number of syllables of a word: the raw count, but at least 1.
pub open spec fn syllable_estimate(word: Seq<char>) -> int {
    if raw_syllables(word) <= 0 {
        1
    } else {
        raw_syllables(word)
    }
}

/// Below `n` there are between 0 and `n - 1` onsets, position 0 being none.
pub proof fn lemma_onsets_bounds(word: Seq<char>, n: int)
    requires
        0 <= n <= word.len(),
    ensures
        0 <= onsets(word, n),
        n >= 1 ==> onsets(word, n) <= n - 1,
        n == 0 ==> onsets(word, n) == 0,
    decreases n,
{
    if n > 0 {
        lemma_onsets_bounds(word, n - 1);
    }
}

/// A vowel at position `n - 1` belongs to a cluster that was counted: either
/// the cluster reaches back to a leading vowel, or it has an onset below `n`.
pub proof fn lemma_vowel_was_counted(word: Seq<char>, n: int)
    requires
        1 <= n <= word.len(),
        is_vowel(word[n - 1]),
    ensures
        leading_vowel(word) + onsets(word, n) >= 1,
    decreases n,
{
    lemma_onsets_bounds(word, n - 1);
    if n > 1 && is_vowel(word[n - 2]) {
        lemma_vowel_was_counted(word, n - 1);
    }
}

/// The silent `e` never drives the count below zero: the raw count of a word
/// is not negative, and it is no more than the word's length.
pub proof fn lemma_raw_syllables_bounds(word: Seq<char>)
    ensures
        0 <= raw_syllables(word) <= word.len(),
{
    let n: int = word.len() as int;
    lemma_onsets_bounds(word, n);
    if silent_e(word) == 1 {
        lemma_vowel_was_counted(word, n);
    }
}

/// Every word has at least one syllable, and a word that is not empty has no
/// more syllables than characters.
pub proof fn lemma_syllable_estimate_bounds(word: Seq<char>)
    ensures
        1 <= syllable_estimate(word),
        word.len() > 0 ==> syllable_estimate(word) <= word.len(),
{
    lemma_raw_syllables_bounds(word);
}

/// Whether `c` is one of the six vowels.
pub fn is_vowel_char(c: char) -> (b: bool)
    ensures
        b == is_vowel(c),
{
    c == 'a' || c == 'e' || c == 'i' || c == 'o' || c == 'u' || c == 'y'
}

/// Estimates the syllables of a word given as a slice of characters.
pub fn estimate(word: &[char]) -> (count: usize)
    requires
        word@.len() > 0,
    ensures
        count == syllable_estimate(word@),
{
    let len: usize = word.len();
    let mut count: usize = 0;
    if is_vowel_char(word[0]) {
        count = 1;
    }
    let mut i: usize = 1;
    assert(onsets(word@, 1) == 0) by {
        reveal_with_fuel(onsets, 2);
    }
    while i < len
        invariant
            1 <= i <= len,
            len == word@.len(),
            count == leading_vowel(word@) + onsets(word@, i as int),
            count <= i,
        decreases len - i,
    {
        if is_vowel_char(word[i]) && !is_vowel_char(word[i - 1]) {
            count = count + 1;
        }
        i = i + 1;
    }
    if word[len - 1] == 'e' {
        // A final `e` is a vowel whose cluster was counted, so there is
        // something to take away.
        proof {
            lemma_vowel_was_counted(word@, len as int);
        }
        count = count - 1;
    }
    if len > 2 && word[len - 2] == 'l' && word[len - 1] == 'e' && !is_vowel_char(word[len - 3]) {
        count = count + 1;
    }
    if count == 0 {
        count = 1;
    }
    count
}

/// Estimates the syllables of one word.
///
/// The word must not be empty, and its estimate must fit the result type;
/// `lemma_syllable_estimate_bounds` shows that a word of at most `u32::MAX`
/// characters always fits.
pub fn syllables(word: &str) -> (count: u32)
    requires
        word@.len() > 0,
        syllable_estimate(word@) <= u32::MAX,
    ensures
        count == syllable_estimate(word@),
{
    let chars = characters(word);
    let count: usize = estimate(chars.as_slice());
    count as u32
}

/// The sum of the estimates of the given words.
pub open spec fn syllable_total(ws: Seq<Seq<Glyph>>) -> int
    decreases ws.len(),
{
    if ws.len() == 0 {
        0
    } else {
        syllable_estimate(chars_of(ws[0])) + syllable_total(ws.drop_first())
    }
}

/// The estimated number of syllables of a document: the sum over its words.
/// Tokens that are no words add nothing.
pub open spec fn syllable_count(doc: Seq<Glyph>) -> int {
    syllable_total(words(doc))
}

/// A word followed by further words adds its own estimate to theirs.
pub proof fn lemma_syllable_total_of_first_and_rest(first: Seq<Glyph>, rest: Seq<Seq<Glyph>>)
    ensures
        syllable_total(seq![first] + rest) == syllable_estimate(chars_of(first)) + syllable_total(
            rest,
        ),
{
    assert((seq![first] + rest).drop_first() =~= rest);
}

/// Words have at least one syllable each.
pub proof fn lemma_syllable_total_at_least_len(ws: Seq<Seq<Glyph>>)
    ensures
        syllable_total(ws) >= ws.len(),
    decreases ws.len(),
{
    if ws.len() > 0 {
        lemma_syllable_estimate_bounds(chars_of(ws[0]));
        lemma_syllable_total_at_least_len(ws.drop_first());
    }
}

/// A document has at least as many syllables as words, and so none that is
/// negative.
pub proof fn lemma_syllables_at_least_words(doc: Seq<Glyph>)
    ensures
        syllable_count(doc) >= word_count(doc),
{
    lemma_syllable_total_at_least_len(words(doc));
}

/// The characters of the glyphs from `start` up to `end`.
pub fn chars_at(doc: &[Glyph], start: usize, end: usize) -> (chars: Vec<char>)
    requires
        start <= end <= doc@.len(),
    ensures
        chars@ == chars_of(doc@.subrange(start as int, end as int)),
{
    let mut collected: Vec<char> = Vec::new();
    let mut i: usize = start;
    while i < end
        invariant
            start <= i <= end <= doc@.len(),
            collected@.len() == i - start,
            forall|k: int| 0 <= k < collected@.len() ==> collected@[k] == doc@[start + k].ch,
        decreases end - i,
    {
        collected.push(doc[i].ch);
        i = i + 1;
    }
    assert(collected@ =~= chars_of(doc@.subrange(start as int, end as int)));
    collected
}

/// Sums the syllable estimates of the words of a classified document.
pub fn count_syllables_in(doc: &[Glyph]) -> (count: u128)
    ensures
        count == syllable_count(doc@),
        count <= doc@.len(),
{
    let mut count: u128 = 0;
    let mut pos: usize = 0;
    assert(doc@.skip(0) =~= doc@);
    loop
        invariant
            pos <= doc@.len(),
            count <= pos,
            count + syllable_count(doc@.skip(pos as int)) == syllable_count(doc@),
        ensures
            count == syllable_count(doc@),
            count <= doc@.len(),
        decreases doc@.len() - pos,
    {
        match next_token(doc, pos) {
            None => {
                break ;
            },
            Some((start, end)) => {
                let ghost token = doc@.subrange(start as int, end as int);
                let ghost rest = tokens(doc@.skip(end as int));
                proof {
                    lemma_filter_first_and_rest(token, rest, |t: Seq<Glyph>| is_word(t));
                    lemma_syllable_total_of_first_and_rest(token, words(doc@.skip(end as int)));
                }
                if is_word_at(doc, start, end) {
                    let chars = chars_at(doc, start, end);
                    proof {
                        lemma_syllable_estimate_bounds(chars@);
                    }
                    let estimated: usize = estimate(chars.as_slice());
                    count = count + estimated as u128;
                }
                pos = end;
            },
        }
    }
    count
}

/// Sums the syllable estimates of the words of `text`. There are no more
/// syllables than characters, so the empty text has none.
pub fn count_syllables(text: &str) -> (count: u128)
    ensures
        count == syllable_count(glyphs_of(text@)),
        count <= text@.len(),
{
    let doc = classify(text);
    count_syllables_in(doc.as_slice())
}

} // verus!
