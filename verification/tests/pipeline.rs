//! End-to-end tests of the comparison pipeline on hand-built token streams.

use stylometry::{
    compare_texts, Token, SAME_AUTHOR_THRESHOLD, SCALE,
};

fn casual_tokens() -> Vec<Token> {
    vec![
        Token::new("私", "名詞"),
        Token::new("は", "助詞"),
        Token::new("今日", "名詞"),
        Token::new("公園", "名詞"),
        Token::new("に", "助詞"),
        Token::new("行き", "動詞"),
        Token::new("まし", "助動詞"),
        Token::new("た", "助動詞"),
        Token::new("。", "記号"),
    ]
}

#[test]
fn test_identical_texts_same_author() {
    let text = "私は今日公園に行きました。";
    let tokens = casual_tokens();
    let analysis = compare_texts(text, &tokens, text, &tokens);
    // Every aspect agrees with itself, so the weighted sum is the full
    // weight total: 109 tenths over the divisor 140 tenths of SCALE.
    assert_eq!(analysis.confidence, 778_571);
    assert!(analysis.same_author);
    assert!(analysis.confidence > SAME_AUTHOR_THRESHOLD);
    assert_eq!(analysis.detailed_analysis.len(), 7);
    for detail in &analysis.detailed_analysis {
        assert_eq!(detail.difference, 0);
    }
}

#[test]
fn test_similar_texts_same_author() {
    // Three of four words shared, same tags, same sentence shape: the
    // cosine similarity is exactly 3/4 and every other aspect agrees.
    let t1 = "one two three four.";
    let k1 = vec![
        Token::new("one", "名詞"),
        Token::new("two", "名詞"),
        Token::new("three", "名詞"),
        Token::new("four", "名詞"),
    ];
    let t2 = "one two three five.";
    let k2 = vec![
        Token::new("one", "名詞"),
        Token::new("two", "名詞"),
        Token::new("three", "名詞"),
        Token::new("five", "名詞"),
    ];
    let analysis = compare_texts(t1, &k1, t2, &k2);
    assert_eq!(analysis.detailed_analysis[0].difference, 250_000);
    assert_eq!(analysis.confidence, 725_000);
    assert!(analysis.same_author);
    assert!(analysis.confidence > 500_000);
}

#[test]
fn test_disjoint_vocabulary_different_author() {
    // No shared word at all: the word-usage difference is the full unit,
    // and that penalty alone sinks the confidence below the threshold.
    let t1 = "alpha beta.";
    let k1 = vec![Token::new("alpha", "名詞"), Token::new("beta", "名詞")];
    let t2 = "gamma delta.";
    let k2 = vec![Token::new("gamma", "名詞"), Token::new("delta", "名詞")];
    let analysis = compare_texts(t1, &k1, t2, &k2);
    assert_eq!(analysis.detailed_analysis[0].difference, SCALE);
    assert_eq!(analysis.confidence, 564_285);
    assert!(!analysis.same_author);
    assert!(analysis.confidence > 200_000);
}

#[test]
fn test_short_vs_long_text() {
    // One token is degenerate input: the zero fingerprint flows through
    // the pipeline and the result stays within bounds.
    let t1 = "はい";
    let k1 = vec![Token::new("はい", "感動詞")];
    let t2 = "申し訳ございませんが、その件については改めて説明します。";
    let k2 = vec![
        Token::new("申し訳", "名詞"),
        Token::new("ございません", "助動詞"),
        Token::new("が", "助詞"),
        Token::new("その", "連体詞"),
        Token::new("件", "名詞"),
        Token::new("に", "助詞"),
        Token::new("つい", "動詞"),
        Token::new("て", "助詞"),
        Token::new("は", "助詞"),
        Token::new("改めて", "副詞"),
        Token::new("説明", "名詞"),
        Token::new("し", "動詞"),
        Token::new("ます", "助動詞"),
    ];
    let analysis = compare_texts(t1, &k1, t2, &k2);
    assert!(analysis.confidence <= SCALE);
    assert_eq!(analysis.detailed_analysis.len(), 7);
    // A degenerate side has an empty frequency distribution, so the
    // word-usage difference is the full unit.
    assert_eq!(analysis.detailed_analysis[0].difference, SCALE);
    assert!(!analysis.same_author);
}

#[test]
fn test_comparison_symmetric() {
    let t1 = "one two three four.";
    let k1 = vec![
        Token::new("one", "名詞"),
        Token::new("two", "助詞"),
        Token::new("three", "動詞"),
        Token::new("four", "名詞"),
    ];
    let t2 = "one nine. eight!";
    let k2 = vec![
        Token::new("one", "名詞"),
        Token::new("nine", "名詞"),
        Token::new("eight", "形容詞"),
    ];
    let ab = compare_texts(t1, &k1, t2, &k2);
    let ba = compare_texts(t2, &k2, t1, &k1);
    assert_eq!(ab.confidence, ba.confidence);
    assert_eq!(ab.same_author, ba.same_author);
    for i in 0..7 {
        assert_eq!(
            ab.detailed_analysis[i].difference,
            ba.detailed_analysis[i].difference
        );
    }
}

#[test]
fn test_compare_idempotent() {
    let t1 = "one two three four.";
    let k1 = vec![
        Token::new("one", "名詞"),
        Token::new("two", "助詞"),
        Token::new("three", "動詞"),
        Token::new("four", "名詞"),
    ];
    let t2 = "one nine. eight!";
    let k2 = vec![
        Token::new("one", "名詞"),
        Token::new("nine", "名詞"),
        Token::new("eight", "形容詞"),
    ];
    let first = compare_texts(t1, &k1, t2, &k2);
    let second = compare_texts(t1, &k1, t2, &k2);
    assert_eq!(first.same_author, second.same_author);
    assert_eq!(first.confidence, second.confidence);
    assert_eq!(first.detailed_analysis.len(), second.detailed_analysis.len());
    for i in 0..first.detailed_analysis.len() {
        assert!(first.detailed_analysis[i].aspect == second.detailed_analysis[i].aspect);
        assert_eq!(
            first.detailed_analysis[i].difference,
            second.detailed_analysis[i].difference
        );
        assert_eq!(
            first.detailed_analysis[i].explanation,
            second.detailed_analysis[i].explanation
        );
    }
}
