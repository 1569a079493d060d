use flesch::glyph::CharKind::{Alphanumeric, Other, Space};
use flesch::glyph::{CharKind, Glyph};
use flesch::syllable::{
    chars_at, count_syllables, count_syllables_in, estimate, is_vowel_char, syllables,
};

fn glyphs(pairs: &[(char, CharKind)]) -> Vec<Glyph> {
    pairs.iter().map(|(ch, kind)| Glyph { ch: *ch, kind: *kind }).collect()
}

#[test]
fn syllables_of_cat() {
    assert_eq!(syllables("cat"), 1);
}

#[test]
fn syllables_of_table() {
    assert_eq!(syllables("table"), 2);
}

#[test]
fn syllables_of_the_is_floored() {
    assert_eq!(syllables("the"), 1);
}

#[test]
fn syllables_of_apple() {
    assert_eq!(syllables("apple"), 2);
}

#[test]
fn capital_initial_vowel_earns_nothing() {
    assert_eq!(syllables("Apple"), 1);
    assert_eq!(syllables("idea"), 2);
    assert_eq!(syllables("Idea"), 1);
    assert_eq!(syllables("AEIOU"), 1);
}

#[test]
fn one_letter_words() {
    assert_eq!(syllables("a"), 1);
    assert_eq!(syllables("e"), 1);
    assert_eq!(syllables("E"), 1);
    assert_eq!(syllables("x"), 1);
    assert_eq!(syllables("7"), 1);
}

#[test]
fn vowel_clusters_count_once() {
    assert_eq!(syllables("beautiful"), 3);
    assert_eq!(syllables("queue"), 1);
    assert_eq!(syllables("banana"), 3);
    assert_eq!(syllables("rhythm"), 1);
    assert_eq!(syllables("sky"), 1);
}

#[test]
fn silent_e_is_subtracted() {
    assert_eq!(syllables("make"), 1);
    assert_eq!(syllables("be"), 1);
    assert_eq!(syllables("tree"), 1);
    assert_eq!(syllables("create"), 1);
    assert_eq!(syllables("usage"), 2);
}

#[test]
fn le_after_a_consonant_is_restored() {
    assert_eq!(syllables("little"), 2);
    assert_eq!(syllables("able"), 2);
    assert_eq!(syllables("ble"), 1);
}

#[test]
fn le_after_a_vowel_is_not_restored() {
    assert_eq!(syllables("ale"), 1);
    assert_eq!(syllables("whale"), 1);
    assert_eq!(syllables("le"), 1);
}

#[test]
fn words_without_vowels_have_one_syllable() {
    assert_eq!(syllables("hmm"), 1);
    assert_eq!(syllables("2024"), 1);
    assert_eq!(syllables("TV"), 1);
}

#[test]
fn non_ascii_letters_are_consonants() {
    assert_eq!(syllables("café"), 1);
    assert_eq!(syllables("naïve"), 1);
    assert_eq!(syllables("über"), 1);
    assert_eq!(syllables("éle"), 1);
}

#[test]
fn estimate_of_a_character_slice() {
    let word: Vec<char> = "syllable".chars().collect();
    assert_eq!(estimate(&word), 3);
    let word: Vec<char> = "the".chars().collect();
    assert_eq!(estimate(&word), 1);
}

#[test]
fn a_word_has_no_more_syllables_than_characters() {
    for word in ["a", "ab", "aba", "ababab", "table", "e", "le", "oxoxoxo", "yyyy"] {
        let n = syllables(word) as usize;
        assert!(1 <= n && n <= word.chars().count(), "word {:?}", word);
    }
}

#[test]
fn the_six_vowels() {
    for c in ['a', 'e', 'i', 'o', 'u', 'y'] {
        assert!(is_vowel_char(c));
    }
    for c in ['A', 'E', 'Y', 'b', 'z', '1', ' ', '.', 'é', 'ö'] {
        assert!(!is_vowel_char(c));
    }
}

#[test]
fn syllables_of_a_document() {
    assert_eq!(count_syllables("The cat sat"), 3);
    assert_eq!(count_syllables("table apple"), 4);
    assert_eq!(count_syllables("a beautiful little table"), 8);
}

#[test]
fn tokens_that_are_no_words_add_no_syllables() {
    assert_eq!(count_syllables(""), 0);
    assert_eq!(count_syllables("   \n\t"), 0);
    assert_eq!(count_syllables("it's"), 0);
    assert_eq!(count_syllables("well-known"), 0);
    assert_eq!(count_syllables("The cat sat."), 2);
    assert_eq!(count_syllables("The cat sat ."), 3);
}

#[test]
fn syllables_of_given_glyphs() {
    let doc = glyphs(&[
        ('t', Alphanumeric),
        ('a', Alphanumeric),
        ('b', Alphanumeric),
        ('l', Alphanumeric),
        ('e', Alphanumeric),
        (' ', Space),
        ('o', Alphanumeric),
        ('!', Other),
        (' ', Space),
        ('i', Alphanumeric),
        ('d', Alphanumeric),
        ('e', Alphanumeric),
        ('a', Alphanumeric),
    ]);
    assert_eq!(count_syllables_in(&doc), 4);
}

#[test]
fn the_class_decides_not_the_character() {
    // A letter classed as a space separates; a blank classed as a letter joins.
    let doc = glyphs(&[('a', Alphanumeric), ('x', Space), ('a', Alphanumeric)]);
    assert_eq!(count_syllables_in(&doc), 2);
    let doc = glyphs(&[('a', Alphanumeric), (' ', Alphanumeric), ('a', Alphanumeric)]);
    assert_eq!(count_syllables_in(&doc), 2);
    let doc = glyphs(&[('a', Alphanumeric), ('b', Other), ('a', Alphanumeric)]);
    assert_eq!(count_syllables_in(&doc), 0);
}

#[test]
fn characters_of_a_range() {
    let doc = glyphs(&[('a', Alphanumeric), (' ', Space), ('b', Alphanumeric), ('c', Alphanumeric)]);
    assert_eq!(chars_at(&doc, 2, 4), vec!['b', 'c']);
    assert_eq!(chars_at(&doc, 1, 1), Vec::<char>::new());
    assert_eq!(chars_at(&doc, 0, 4), vec!['a', ' ', 'b', 'c']);
}
