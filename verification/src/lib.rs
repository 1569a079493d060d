//! Text metrics for the Flesch reading-ease score: words, sentences and
//! estimated syllables of a document, each with a contract over a
//! mathematical model of the text.

pub mod glyph;
pub mod metrics;
pub mod sentence;
pub mod sequence;
pub mod syllable;
pub mod token;
pub mod word;
