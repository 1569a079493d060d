//! Words: the tokens made of letters and digits alone, and their number.

use crate::glyph::{
    classify, glyphs_of, unicode_alphanumeric, unicode_whitespace, CharKind, Glyph,
};
use crate::sequence::lemma_filter_first_and_rest;
use crate::token::{next_token, tokens};
use vstd::prelude::*;

verus! {

/// Whether every glyph of a token is a letter or a digit.
pub open spec fn is_word(t: Seq<Glyph>) -> bool {
    forall|i: int| 0 <= i < t.len() ==> (#[trigger] t[i]).kind == CharKind::Alphanumeric
}

/// The words of a document, in order: those of its tokens that hold letters
/// and digits alone.
pub open spec fn words(doc: Seq<Glyph>) -> Seq<Seq<Glyph>> {
    tokens(doc).filter(|t: Seq<Glyph>| is_word(t))
}

/// The number of words of a document.
pub open spec fn word_count(doc: Seq<Glyph>) -> nat {
    words(doc).len()
}

/// In a text classified by the Unicode tables, a stretch without whitespace
/// is a word exactly if each of its characters is alphanumeric.
pub proof fn lemma_word_of_text(text: Seq<char>, start: int, end: int)
    requires
        0 <= start <= end <= text.len(),
        forall|i: int| start <= i < end ==> !unicode_whitespace(#[trigger] text[i]),
    ensures
        is_word(glyphs_of(text).subrange(start, end)) <==> forall|i: int|
            start <= i < end ==> unicode_alphanumeric(#[trigger] text[i]),
{
    let token = glyphs_of(text).subrange(start, end);
    if is_word(token) {
        assert forall|i: int| start <= i < end implies unicode_alphanumeric(#[trigger] text[i]) by {
            assert(token[i - start].kind == CharKind::Alphanumeric);
        }
    }
}

/// Whether the glyphs from `start` up to `end` are letters and digits alone.
pub fn is_word_at(doc: &[Glyph], start: usize, end: usize) -> (b: bool)
    requires
        start <= end <= doc@.len(),
    ensures
        b == is_word(doc@.subrange(start as int, end as int)),
{
    let mut i: usize = start;
    while i < end
        invariant
            start <= i <= end <= doc@.len(),
            forall|k: int| start <= k < i ==> (#[trigger] doc@[k]).kind == CharKind::Alphanumeric,
        decreases end - i,
    {
        if doc[i].kind != CharKind::Alphanumeric {
            assert(doc@.subrange(start as int, end as int)[i - start] == doc@[i as int]);
            return false;
        }
        i = i + 1;
    }
    true
}

/// Counts the words of a classified document.
pub fn count_word_in(doc: &[Glyph]) -> (count: u128)
    ensures
        count == word_count(doc@),
        count <= doc@.len(),
{
    let mut count: u128 = 0;
    let mut pos: usize = 0;
    assert(doc@.skip(0) =~= doc@);
    loop
        invariant
            pos <= doc@.len(),
            count <= pos,
            count + word_count(doc@.skip(pos as int)) == word_count(doc@),
        ensures
            count == word_count(doc@),
            count <= doc@.len(),
        decreases doc@.len() - pos,
    {
        match next_token(doc, pos) {
            None => {
                break ;
            },
            Some((start, end)) => {
                proof {
                    lemma_filter_first_and_rest(
                        doc@.subrange(start as int, end as int),
                        tokens(doc@.skip(end as int)),
                        |t: Seq<Glyph>| is_word(t),
                    );
                }
                if is_word_at(doc, start, end) {
                    count = count + 1;
                }
                pos = end;
            },
        }
    }
    count
}

/// Counts the words of `text`: its maximal runs without whitespace that are
/// made of letters and digits alone. There are no more words than
/// characters, so the empty text has none.
pub fn count_word(text: &str) -> (count: u128)
    ensures
        count == word_count(glyphs_of(text@)),
        count <= text@.len(),
{
    let doc = classify(text);
    count_word_in(doc.as_slice())
}

} // verus!
