//! Characters and their classes.
//!
//! Which characters are whitespace and which are alphanumeric is decided by
//! the Unicode tables of the standard library. The rest of the crate works on
//! glyphs: characters that carry their class with them.

use vstd::prelude::*;

verus! {

/// Whether `c` has the Unicode property `White_Space`, as `char::is_whitespace` tells it.
pub uninterp spec fn unicode_whitespace(c: char) -> bool;

/// Whether `c` is a Unicode letter or number, as `char::is_alphanumeric` tells it.
pub uninterp spec fn unicode_alphanumeric(c: char) -> bool;

/// `char::is_whitespace` is taken on trust. The contract claims only that
/// its answer is a function of the character, and calls that function
/// `unicode_whitespace`; which characters are whitespace is not stated.
pub assume_specification[ char::is_whitespace ](c: char) -> (b: bool)
    ensures
        b == unicode_whitespace(c),
;

/// `char::is_alphanumeric` is taken on trust. The contract claims only that
/// its answer is a function of the character, and calls that function
/// `unicode_alphanumeric`; which characters are alphanumeric is not stated.
pub assume_specification[ char::is_alphanumeric ](c: char) -> (b: bool)
    ensures
        b == unicode_alphanumeric(c),
;

/// The class of a character, as far as counting words is concerned.
#[derive(Clone, Copy, Debug, PartialEq, Eq, Structural)]
pub enum CharKind {
    /// Whitespace: separates tokens.
    Space,
    /// A letter or a number.
    Alphanumeric,
    /// Anything else: punctuation, symbols, control characters.
    Other,
}

/// The class of `c`. Whitespace wins over alphanumeric.
pub open spec fn kind_of(c: char) -> CharKind {
    if unicode_whitespace(c) {
        CharKind::Space
    } else if unicode_alphanumeric(c) {
        CharKind::Alphanumeric
    } else {
        CharKind::Other
    }
}

/// Classifies one character.
pub fn classify_char(c: char) -> (kind: CharKind)
    ensures
        kind == kind_of(c),
{
    if c.is_whitespace() {
        CharKind::Space
    } else if c.is_alphanumeric() {
        CharKind::Alphanumeric
    } else {
        CharKind::Other
    }
}

/// A character together with its class.
#[derive(Clone, Copy, Debug, PartialEq, Eq, Structural)]
pub struct Glyph {
    pub ch: char,
    pub kind: CharKind,
}

/// The glyph that the Unicode tables assign to `c`.
pub open spec fn glyph_of(c: char) -> Glyph {
    Glyph { ch: c, kind: kind_of(c) }
}

/// A text, character by character, each with its class.
pub open spec fn glyphs_of(text: Seq<char>) -> Seq<Glyph> {
    Seq::new(text.len(), |i: int| glyph_of(text[i]))
}

/// The characters of a sequence of glyphs, classes dropped.
pub open spec fn chars_of(glyphs: Seq<Glyph>) -> Seq<char> {
    Seq::new(glyphs.len(), |i: int| glyphs[i].ch)
}

impl Glyph {
    /// The glyph of `c`, classified by the Unicode tables.
    pub fn of(c: char) -> (glyph: Glyph)
        ensures
            glyph == glyph_of(c),
    {
        Glyph { ch: c, kind: classify_char(c) }
    }
}

/// Classifies every character of `text`.
pub fn classify(text: &str) -> (doc: Vec<Glyph>)
    ensures
        doc@ == glyphs_of(text@),
{
    let mut glyphs: Vec<Glyph> = Vec::new();
    for c in it: text.chars()
        invariant
            it.seq() == text@,
            glyphs@.len() == it.index(),
            forall|i: int| 0 <= i < glyphs@.len() ==> glyphs@[i] == glyph_of(text@[i]),
    {
        glyphs.push(Glyph::of(c));
    }
    assert(glyphs@ =~= glyphs_of(text@));
    glyphs
}

/// The characters of `text`, in order.
pub fn characters(text: &str) -> (chars: Vec<char>)
    ensures
        chars@ == text@,
{
    let mut collected: Vec<char> = Vec::new();
    for c in it: text.chars()
        invariant
            it.seq() == text@,
            collected@.len() == it.index(),
            forall|i: int| 0 <= i < collected@.len() ==> collected@[i] == text@[i],
    {
        collected.push(c);
    }
    assert(collected@ =~= text@);
    collected
}

} // verus!
