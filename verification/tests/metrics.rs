use flesch::metrics::Metrics;
use flesch::sentence::count_sentences;
use flesch::syllable::count_syllables;
use flesch::word::count_word;

fn reading_ease(metrics: &Metrics) -> f64 {
    206.835
        - 1.015 * (metrics.word_count as f64 / metrics.sentence_count as f64)
        - 84.6 * (metrics.syllable_count as f64 / metrics.word_count as f64)
}

#[test]
fn metrics_of_three_plain_words() {
    let metrics = Metrics::measure("The cat sat .");
    assert_eq!(metrics, Metrics { word_count: 3, sentence_count: 1, syllable_count: 3 });
    assert!(!metrics.is_degenerate());
    assert!((reading_ease(&metrics) - 119.19).abs() < 1e-9);
}

#[test]
fn a_word_that_carries_its_period_is_not_counted() {
    let metrics = Metrics::measure("The cat sat.");
    assert_eq!(metrics, Metrics { word_count: 2, sentence_count: 1, syllable_count: 2 });
    assert!((reading_ease(&metrics) - 120.205).abs() < 1e-9);
}

#[test]
fn metrics_of_the_empty_text() {
    let metrics = Metrics::measure("");
    assert_eq!(metrics, Metrics { word_count: 0, sentence_count: 1, syllable_count: 0 });
    assert!(metrics.is_degenerate());
    assert!(reading_ease(&metrics).is_nan());
}

#[test]
fn text_without_words_is_degenerate() {
    for text in ["", "   ", "...", "?!", "it's well-known."] {
        let metrics = Metrics::measure(text);
        assert_eq!(metrics.word_count, 0, "text {:?}", text);
        assert!(metrics.is_degenerate(), "text {:?}", text);
    }
}

#[test]
fn degenerate_means_a_zero_divisor() {
    assert!(Metrics { word_count: 0, sentence_count: 1, syllable_count: 0 }.is_degenerate());
    assert!(Metrics { word_count: 1, sentence_count: 0, syllable_count: 1 }.is_degenerate());
    assert!(Metrics { word_count: 0, sentence_count: 0, syllable_count: 0 }.is_degenerate());
    assert!(!Metrics { word_count: 1, sentence_count: 1, syllable_count: 1 }.is_degenerate());
}

#[test]
fn measure_agrees_with_the_three_counters() {
    for text in [
        "",
        "The cat sat.",
        "A little table . An apple .",
        "Dr. Who said no. Twice..",
        "tabs\tand\nlines are whitespace",
        "naïve café très bien",
    ] {
        let metrics = Metrics::measure(text);
        assert_eq!(metrics.word_count, count_word(text), "text {:?}", text);
        assert_eq!(metrics.sentence_count, count_sentences(text), "text {:?}", text);
        assert_eq!(metrics.syllable_count, count_syllables(text), "text {:?}", text);
    }
}

#[test]
fn at_least_one_syllable_for_each_word() {
    for text in [
        "",
        "the the the",
        "a e i o u y",
        "rhythm myth hmm",
        "A beautiful little table stands here",
        "x. y. z.",
    ] {
        let metrics = Metrics::measure(text);
        assert!(metrics.syllable_count >= metrics.word_count, "text {:?}", text);
        assert!(metrics.sentence_count >= 1, "text {:?}", text);
    }
}

#[test]
fn measuring_twice_gives_the_same_counts() {
    let text = "One small step . One giant leap .";
    assert_eq!(Metrics::measure(text), Metrics::measure(text));
    let copy = String::from(text);
    assert_eq!(Metrics::measure(text), Metrics::measure(&copy));
}

#[test]
fn metrics_of_a_longer_text() {
    let metrics = Metrics::measure("A little table . An apple fell");
    // a(1) little(2) table(2) An(1) apple(2) fell(1)
    assert_eq!(metrics, Metrics { word_count: 6, sentence_count: 2, syllable_count: 9 });
    let expected = 206.835 - 1.015 * 3.0 - 84.6 * 1.5;
    assert!((reading_ease(&metrics) - expected).abs() < 1e-9);
}
