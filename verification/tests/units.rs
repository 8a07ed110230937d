//! Unit tests of the arithmetic helpers, the extractor and the aggregator.

use stylometry::{
    aspect_name, calculate_confidence, calculate_frequency_similarity, capped_difference, clamp,
    count_sentences, explanation_of, extract_features, isqrt, length_difference, ratio_of,
    Aspect, AspectResult, FreqMap, MIN_TAG_RATIO, SCALE,
};

#[test]
fn test_clamp() {
    // The scaled counterparts of clamping 1.5, -0.5 and 0.5 into [0, 1].
    assert_eq!(clamp(1_500_000, 0, SCALE), 1_000_000);
    assert_eq!(clamp(0, 500_000, SCALE), 500_000);
    assert_eq!(clamp(500_000, 0, SCALE), 500_000);
}

#[test]
fn test_text_features() {
    let text = "私は今日公園に行きました。";
    let tokens = vec![
        stylometry::Token::new("私", "名詞"),
        stylometry::Token::new("は", "助詞"),
        stylometry::Token::new("今日", "名詞"),
        stylometry::Token::new("公園", "名詞"),
        stylometry::Token::new("に", "助詞"),
        stylometry::Token::new("行き", "動詞"),
        stylometry::Token::new("まし", "助動詞"),
        stylometry::Token::new("た", "助動詞"),
        stylometry::Token::new("。", "記号"),
    ];
    let features = extract_features(text, &tokens);
    assert!(features.particle_ratio <= SCALE);
    assert!(features.verb_ratio <= SCALE);
    assert!(features.avg_sentence_length > 0);
    assert!(features.unique_words_ratio <= SCALE);
    assert!(features.punctuation_ratio <= SCALE);
    // Two particles and one verb among nine content tokens.
    assert_eq!(features.particle_ratio, ratio_of(2, 9));
    assert_eq!(features.verb_ratio, ratio_of(1, 9));
    // No adjective: the ratio floor engages.
    assert_eq!(features.adjective_ratio, MIN_TAG_RATIO);
    // The ideographic full stop is not ASCII punctuation, so every token
    // is a content word and the text has no terminator for the splitter.
    assert_eq!(features.punctuation_ratio, 0);
    assert_eq!(features.unique_words_ratio, SCALE);
    assert_eq!(features.avg_sentence_length, 9 * SCALE);
}

#[test]
fn test_degenerate_features() {
    let features = extract_features("", &Vec::new());
    assert_eq!(features.particle_ratio, 0);
    assert_eq!(features.verb_ratio, 0);
    assert_eq!(features.adjective_ratio, 0);
    assert_eq!(features.unique_words_ratio, 0);
    assert_eq!(features.avg_sentence_length, 0);
    assert_eq!(features.punctuation_ratio, 0);

    let one = vec![stylometry::Token::new("はい", "感動詞")];
    let features = extract_features("はい", &one);
    assert_eq!(features.avg_sentence_length, SCALE);
    assert_eq!(features.particle_ratio, 0);
}

#[test]
fn test_pure_punctuation_features() {
    let tokens = vec![
        stylometry::Token::new("!", "記号"),
        stylometry::Token::new("...", "記号"),
    ];
    let features = extract_features("!...", &tokens);
    // No content token: frequencies are empty, the tag floors engage,
    // and every token counts as punctuation.
    assert_eq!(features.particle_ratio, MIN_TAG_RATIO);
    assert_eq!(features.verb_ratio, MIN_TAG_RATIO);
    assert_eq!(features.adjective_ratio, MIN_TAG_RATIO);
    assert_eq!(features.unique_words_ratio, 0);
    assert_eq!(features.punctuation_ratio, SCALE);
    assert_eq!(features.avg_sentence_length, 0);
}

#[test]
fn test_ratio_of() {
    assert_eq!(ratio_of(1, 3), 333_333);
    assert_eq!(ratio_of(1, 2), 500_000);
    assert_eq!(ratio_of(5, 5), SCALE);
    assert_eq!(ratio_of(0, 7), 0);
    assert_eq!(ratio_of(4, 0), 0);
}

#[test]
fn test_isqrt() {
    assert_eq!(isqrt(0), 0);
    assert_eq!(isqrt(1), 1);
    assert_eq!(isqrt(10), 3);
    assert_eq!(isqrt(1_000_000), 1000);
    assert_eq!(isqrt(999_999), 999);
    assert_eq!(isqrt(u64::MAX as u128 * u64::MAX as u128), u64::MAX as u128);
}

#[test]
fn test_count_sentences() {
    assert_eq!(count_sentences("a. b! c?"), 3);
    assert_eq!(count_sentences("..."), 0);
    assert_eq!(count_sentences(""), 0);
    assert_eq!(count_sentences("no terminator here"), 1);
    assert_eq!(count_sentences("私は今日公園に行きました。"), 1);
    assert_eq!(count_sentences("one. . two."), 2);
}

#[test]
fn test_capped_difference() {
    assert_eq!(capped_difference(700_000, 100_000), 500_000);
    assert_eq!(capped_difference(100_000, 700_000), 500_000);
    assert_eq!(capped_difference(300_000, 100_000), 200_000);
    assert_eq!(capped_difference(250_000, 250_000), 0);
}

#[test]
fn test_length_difference() {
    assert_eq!(length_difference(0, 0), 500_000);
    assert_eq!(length_difference(SCALE, 2 * SCALE), 500_000);
    assert_eq!(length_difference(900_000, 1_000_000), 100_000);
    assert_eq!(length_difference(1_000_000, 900_000), 100_000);
    assert_eq!(length_difference(3 * SCALE, 3 * SCALE), 0);
}

#[test]
fn test_frequency_similarity() {
    let mut counts_a = FreqMap::new();
    counts_a.increment(&"a".to_string());
    counts_a.increment(&"b".to_string());
    let freq_a = counts_a.normalized(2);
    assert_eq!(freq_a.get(&"a".to_string()), 500_000);
    assert_eq!(freq_a.get(&"missing".to_string()), 0);

    // A distribution agrees fully with itself.
    assert_eq!(calculate_frequency_similarity(&freq_a, &freq_a), SCALE);

    // Disjoint distributions do not agree at all.
    let mut counts_b = FreqMap::new();
    counts_b.increment(&"c".to_string());
    counts_b.increment(&"d".to_string());
    let freq_b = counts_b.normalized(2);
    assert_eq!(calculate_frequency_similarity(&freq_a, &freq_b), 0);

    // An empty distribution has norm zero: similarity is defined as zero.
    let empty = FreqMap::new();
    assert_eq!(calculate_frequency_similarity(&freq_a, &empty), 0);
    assert_eq!(calculate_frequency_similarity(&empty, &empty), 0);
}

#[test]
fn test_calculate_confidence() {
    // No evidence yields zero confidence.
    assert_eq!(calculate_confidence(&Vec::new()), 0);

    // Full agreement on all seven aspects: the weight total of 109 tenths
    // over the divisor of 140 tenths.
    let details: Vec<AspectResult> = vec![
        Aspect::WordUsage,
        Aspect::SentenceLength,
        Aspect::ParticleUsage,
        Aspect::VerbUsage,
        Aspect::AdjectiveUsage,
        Aspect::Punctuation,
        Aspect::VocabularyRichness,
    ]
    .into_iter()
    .map(|aspect| AspectResult {
        aspect,
        difference: 0,
        explanation: explanation_of(&aspect),
    })
    .collect();
    assert_eq!(calculate_confidence(&details), 778_571);

    // Full disagreement yields zero.
    let worst: Vec<AspectResult> = details
        .iter()
        .map(|d| AspectResult {
            aspect: d.aspect,
            difference: SCALE,
            explanation: explanation_of(&d.aspect),
        })
        .collect();
    assert_eq!(calculate_confidence(&worst), 0);
}

#[test]
fn test_aspect_names_and_explanations() {
    assert_eq!(aspect_name(&Aspect::WordUsage), "Word Usage");
    assert_eq!(aspect_name(&Aspect::VocabularyRichness), "Vocabulary Richness");
    assert_eq!(
        explanation_of(&Aspect::WordUsage),
        "Similarity in word choice and frequency"
    );
    assert_eq!(
        explanation_of(&Aspect::SentenceLength),
        "Difference in average sentence length"
    );
    assert_eq!(explanation_of(&Aspect::Punctuation), "Difference in punctuation");
}
