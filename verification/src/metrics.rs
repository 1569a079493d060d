//! The three counts that the Flesch reading-ease formula is computed from.

use crate::glyph::{characters, classify, glyphs_of};
use crate::sentence::{count_sentences_in, lemma_sentence_count, sentence_count};
use crate::syllable::{count_syllables_in, lemma_syllables_at_least_words, syllable_count};
use crate::word::{count_word_in, word_count};
use vstd::prelude::*;

verus! {

/// The words, sentences and syllables of one text.
///
/// The reading-ease score divides the words by the sentences and the
/// syllables by the words. It is a number only where neither divisor is 0;
/// the counts themselves are defined for every text.
#[derive(Clone, Copy, Debug, PartialEq, Eq, Structural)]
pub struct Metrics {
    pub word_count: u128,
    pub sentence_count: u128,
    pub syllable_count: u128,
}

impl Metrics {
    /// Whether these are the counts of `text`.
    pub open spec fn describes(self, text: Seq<char>) -> bool {
        &&& self.word_count == word_count(glyphs_of(text))
        &&& self.sentence_count == sentence_count(text)
        &&& self.syllable_count == syllable_count(glyphs_of(text))
    }

    /// Whether a divisor of the score is 0: no word, or no sentence.
    pub open spec fn degenerate(self) -> bool {
        self.word_count == 0 || self.sentence_count == 0
    }

    /// Counts the words, sentences and syllables of `text`. There is always
    /// a sentence, so the score of the result is a number unless `text` has
    /// no word.
    pub fn measure(text: &str) -> (metrics: Metrics)
        ensures
            metrics.describes(text@),
            metrics.sentence_count >= 1,
            metrics.syllable_count >= metrics.word_count,
            metrics.degenerate() <==> metrics.word_count == 0,
    {
        let doc = classify(text);
        let chars = characters(text);
        proof {
            lemma_sentence_count(text@);
            lemma_syllables_at_least_words(glyphs_of(text@));
        }
        Metrics {
            word_count: count_word_in(doc.as_slice()),
            sentence_count: count_sentences_in(chars.as_slice()),
            syllable_count: count_syllables_in(doc.as_slice()),
        }
    }

    /// Whether the score of these counts would divide by 0.
    pub fn is_degenerate(&self) -> (b: bool)
        ensures
            b == self.degenerate(),
    {
        self.word_count == 0 || self.sentence_count == 0
    }
}

/// The counts depend on the text alone: two measurements of one text agree.
pub proof fn lemma_metrics_are_determined(first: Metrics, second: Metrics, text: Seq<char>)
    requires
        first.describes(text),
        second.describes(text),
    ensures
        first == second,
{
}

} // verus!
