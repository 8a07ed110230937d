//! Aspect-by-aspect comparison of two fingerprints and the aggregated
//! same-author verdict.
//!
//! Each aspect yields a scaled difference; the differences are combined in
//! a weighted sum, normalized by a fixed calibration divisor, clamped into
//! `[0, SCALE]`, and compared against the decision threshold.

use vstd::prelude::*;
use vstd::arithmetic::mul::lemma_mul_nonnegative;
use vstd::arithmetic::div_mod::{lemma_div_pos_is_pos, lemma_div_multiples_vanish};
use crate::fixed::{SCALE, MAX_TOKENS, spec_clamp, spec_ratio, ratio_of, lemma_ratio_le_scale};
use crate::freq::{
    spec_similarity, spec_sum_sq, calculate_frequency_similarity, lemma_similarity_symmetric,
    lemma_self_similarity,
};
use crate::features::{
    TextFeatures, extract_features, spec_word_freqs, spec_tag_ratio, spec_unique_ratio,
    spec_avg_sentence_length, spec_punct_ratio, lemma_word_freqs_wf,
};
use crate::token::Token;

verus! {

/// Cap on every ratio-difference aspect, so that one outlier dimension
/// cannot force the verdict by itself.
pub const ASPECT_CAP: u64 = 500_000;

/// A confidence above this threshold is read as "same author".
pub const SAME_AUTHOR_THRESHOLD: u64 = 600_000;

/// Aspect weights are held in tenths, so the divisor carries this unit.
pub const WEIGHT_UNIT: u64 = 10;

/// Weight of the word-usage aspect, in tenths.
pub const WEIGHT_WORD_USAGE: u64 = 30;

/// Weight of the sentence-length aspect, in tenths.
pub const WEIGHT_SENTENCE_LENGTH: u64 = 15;

/// Weight of the particle-usage aspect, in tenths.
pub const WEIGHT_PARTICLE_USAGE: u64 = 15;

/// Weight of the verb-usage aspect, in tenths.
pub const WEIGHT_VERB_USAGE: u64 = 12;

/// Weight of the adjective-usage aspect, in tenths.
pub const WEIGHT_ADJECTIVE_USAGE: u64 = 12;

/// Weight of the vocabulary-richness aspect, in tenths.
pub const WEIGHT_VOCABULARY_RICHNESS: u64 = 15;

/// Weight of any other aspect (punctuation falls here), in tenths.
pub const WEIGHT_DEFAULT: u64 = 10;

/// The fixed set of compared dimensions.
#[derive(Clone, Copy, PartialEq, Eq, Structural, Debug)]
pub enum Aspect {
    WordUsage,
    SentenceLength,
    ParticleUsage,
    VerbUsage,
    AdjectiveUsage,
    Punctuation,
    VocabularyRichness,
}

/// The weight of an aspect in the confidence aggregation, in tenths.
pub open spec fn spec_weight(a: Aspect) -> int {
    match a {
        Aspect::WordUsage => WEIGHT_WORD_USAGE as int,
        Aspect::SentenceLength => WEIGHT_SENTENCE_LENGTH as int,
        Aspect::ParticleUsage => WEIGHT_PARTICLE_USAGE as int,
        Aspect::VerbUsage => WEIGHT_VERB_USAGE as int,
        Aspect::AdjectiveUsage => WEIGHT_ADJECTIVE_USAGE as int,
        Aspect::VocabularyRichness => WEIGHT_VOCABULARY_RICHNESS as int,
        Aspect::Punctuation => WEIGHT_DEFAULT as int,
    }
}

/// The weight of an aspect, in tenths; punctuation carries the default.
pub fn weight_of(a: &Aspect) -> (w: u64)
    ensures
        w == spec_weight(*a),
        WEIGHT_DEFAULT <= w <= WEIGHT_WORD_USAGE,
{
    match a {
        Aspect::WordUsage => WEIGHT_WORD_USAGE,
        Aspect::SentenceLength => WEIGHT_SENTENCE_LENGTH,
        Aspect::ParticleUsage => WEIGHT_PARTICLE_USAGE,
        Aspect::VerbUsage => WEIGHT_VERB_USAGE,
        Aspect::AdjectiveUsage => WEIGHT_ADJECTIVE_USAGE,
        Aspect::VocabularyRichness => WEIGHT_VOCABULARY_RICHNESS,
        Aspect::Punctuation => WEIGHT_DEFAULT,
    }
}

/// The display name of an aspect.
pub open spec fn spec_aspect_name(a: Aspect) -> Seq<char> {
    match a {
        Aspect::WordUsage => "Word Usage"@,
        Aspect::SentenceLength => "Sentence Length"@,
        Aspect::ParticleUsage => "Particle Usage"@,
        Aspect::VerbUsage => "Verb Usage"@,
        Aspect::AdjectiveUsage => "Adjective Usage"@,
        Aspect::Punctuation => "Punctuation"@,
        Aspect::VocabularyRichness => "Vocabulary Richness"@,
    }
}

/// The display name of an aspect.
pub fn aspect_name(a: &Aspect) -> (s: String)
    ensures
        s@ == spec_aspect_name(*a),
{
    match a {
        Aspect::WordUsage => ("Word Usage").to_owned(),
        Aspect::SentenceLength => ("Sentence Length").to_owned(),
        Aspect::ParticleUsage => ("Particle Usage").to_owned(),
        Aspect::VerbUsage => ("Verb Usage").to_owned(),
        Aspect::AdjectiveUsage => ("Adjective Usage").to_owned(),
        Aspect::Punctuation => ("Punctuation").to_owned(),
        Aspect::VocabularyRichness => ("Vocabulary Richness").to_owned(),
    }
}

/// The fixed explanation text of an aspect.
pub open spec fn spec_explanation(a: Aspect) -> Seq<char> {
    match a {
        Aspect::WordUsage => "Similarity in word choice and frequency"@,
        Aspect::SentenceLength => "Difference in average sentence length"@,
        Aspect::ParticleUsage => "Difference in particle usage"@,
        Aspect::VerbUsage => "Difference in verb usage"@,
        Aspect::AdjectiveUsage => "Difference in adjective usage"@,
        Aspect::Punctuation => "Difference in punctuation"@,
        Aspect::VocabularyRichness => "Difference in vocabulary diversity"@,
    }
}

/// The fixed explanation text of an aspect.
pub fn explanation_of(a: &Aspect) -> (s: String)
    ensures
        s@ == spec_explanation(*a),
{
    match a {
        Aspect::WordUsage => ("Similarity in word choice and frequency").to_owned(),
        Aspect::SentenceLength => ("Difference in average sentence length").to_owned(),
        Aspect::ParticleUsage => ("Difference in particle usage").to_owned(),
        Aspect::VerbUsage => ("Difference in verb usage").to_owned(),
        Aspect::AdjectiveUsage => ("Difference in adjective usage").to_owned(),
        Aspect::Punctuation => ("Difference in punctuation").to_owned(),
        Aspect::VocabularyRichness => ("Difference in vocabulary diversity").to_owned(),
    }
}

/// One compared dimension: its name, its scaled difference and a fixed
/// explanation.
pub struct AspectResult {
    pub aspect: Aspect,
    pub difference: u64,
    pub explanation: String,
}

/// The outcome of one comparison: the verdict, the scaled confidence and
/// the per-aspect differences.
pub struct Analysis {
    pub same_author: bool,
    pub confidence: u64,
    pub detailed_analysis: Vec<AspectResult>,
}

/// The absolute difference of two ratios, capped at `ASPECT_CAP`.
pub open spec fn spec_capped_diff(x: int, y: int) -> int {
    let d = if x >= y {
        x - y
    } else {
        y - x
    };
    if d < ASPECT_CAP {
        d
    } else {
        ASPECT_CAP as int
    }
}

/// The absolute difference of two scaled ratios, capped at `ASPECT_CAP`.
pub fn capped_difference(x: u64, y: u64) -> (r: u64)
    ensures
        r == spec_capped_diff(x as int, y as int),
        r <= ASPECT_CAP,
{
    let d = if x >= y {
        x - y
    } else {
        y - x
    };
    if d < ASPECT_CAP {
        d
    } else {
        ASPECT_CAP
    }
}

/// The sentence-length difference: one minus the ratio of the smaller
/// average to the larger, capped at `ASPECT_CAP`; the cap itself when both
/// averages are zero.
pub open spec fn spec_length_diff(x: int, y: int) -> int {
    let lo = if x <= y {
        x
    } else {
        y
    };
    let hi = if x <= y {
        y
    } else {
        x
    };
    if hi == 0 {
        ASPECT_CAP as int
    } else {
        let d = SCALE - spec_ratio(lo, hi);
        if d < ASPECT_CAP {
            d
        } else {
            ASPECT_CAP as int
        }
    }
}

/// The sentence-length difference of two scaled averages.
pub fn length_difference(x: u64, y: u64) -> (r: u64)
    ensures
        r == spec_length_diff(x as int, y as int),
        r <= ASPECT_CAP,
{
    let lo = if x <= y {
        x
    } else {
        y
    };
    let hi = if x <= y {
        y
    } else {
        x
    };
    if hi == 0 {
        ASPECT_CAP
    } else {
        proof {
            lemma_ratio_le_scale(lo as int, hi as int);
        }
        let ratio = ratio_of(lo, hi);
        let d = SCALE - ratio;
        if d < ASPECT_CAP {
            d
        } else {
            ASPECT_CAP
        }
    }
}

/// Compares two fingerprints aspect by aspect.  The seven results come in
/// a fixed order; each difference is a function of the two fingerprints.
pub fn compare_features(features1: &TextFeatures, features2: &TextFeatures) -> (r: Vec<
    AspectResult,
>)
    requires
        features1.wf(),
        features2.wf(),
    ensures
        r@.len() == 7,
        r@[0].aspect == Aspect::WordUsage,
        r@[1].aspect == Aspect::SentenceLength,
        r@[2].aspect == Aspect::ParticleUsage,
        r@[3].aspect == Aspect::VerbUsage,
        r@[4].aspect == Aspect::AdjectiveUsage,
        r@[5].aspect == Aspect::Punctuation,
        r@[6].aspect == Aspect::VocabularyRichness,
        r@[0].difference == SCALE - spec_similarity(
            features1.word_frequencies@,
            features2.word_frequencies@,
        ),
        r@[1].difference == spec_length_diff(
            features1.avg_sentence_length as int,
            features2.avg_sentence_length as int,
        ),
        r@[2].difference == spec_capped_diff(
            features1.particle_ratio as int,
            features2.particle_ratio as int,
        ),
        r@[3].difference == spec_capped_diff(
            features1.verb_ratio as int,
            features2.verb_ratio as int,
        ),
        r@[4].difference == spec_capped_diff(
            features1.adjective_ratio as int,
            features2.adjective_ratio as int,
        ),
        r@[5].difference == spec_capped_diff(
            features1.punctuation_ratio as int,
            features2.punctuation_ratio as int,
        ),
        r@[6].difference == spec_capped_diff(
            features1.unique_words_ratio as int,
            features2.unique_words_ratio as int,
        ),
        forall|i: int| 0 <= i < 7 ==> #[trigger] r@[i].difference <= SCALE,
        forall|i: int|
            0 <= i < 7 ==> #[trigger] r@[i].explanation@ == spec_explanation(r@[i].aspect),
{
    let similarity = calculate_frequency_similarity(
        &features1.word_frequencies,
        &features2.word_frequencies,
    );
    let mut results: Vec<AspectResult> = Vec::new();
    results.push(
        AspectResult {
            aspect: Aspect::WordUsage,
            difference: SCALE - similarity,
            explanation: explanation_of(&Aspect::WordUsage),
        },
    );
    results.push(
        AspectResult {
            aspect: Aspect::SentenceLength,
            difference: length_difference(
                features1.avg_sentence_length,
                features2.avg_sentence_length,
            ),
            explanation: explanation_of(&Aspect::SentenceLength),
        },
    );
    results.push(
        AspectResult {
            aspect: Aspect::ParticleUsage,
            difference: capped_difference(features1.particle_ratio, features2.particle_ratio),
            explanation: explanation_of(&Aspect::ParticleUsage),
        },
    );
    results.push(
        AspectResult {
            aspect: Aspect::VerbUsage,
            difference: capped_difference(features1.verb_ratio, features2.verb_ratio),
            explanation: explanation_of(&Aspect::VerbUsage),
        },
    );
    results.push(
        AspectResult {
            aspect: Aspect::AdjectiveUsage,
            difference: capped_difference(features1.adjective_ratio, features2.adjective_ratio),
            explanation: explanation_of(&Aspect::AdjectiveUsage),
        },
    );
    results.push(
        AspectResult {
            aspect: Aspect::Punctuation,
            difference: capped_difference(
                features1.punctuation_ratio,
                features2.punctuation_ratio,
            ),
            explanation: explanation_of(&Aspect::Punctuation),
        },
    );
    results.push(
        AspectResult {
            aspect: Aspect::VocabularyRichness,
            difference: capped_difference(
                features1.unique_words_ratio,
                features2.unique_words_ratio,
            ),
            explanation: explanation_of(&Aspect::VocabularyRichness),
        },
    );
    results
}

/// The weighted sum of the aspects' agreements: each aspect contributes
/// its weight times how close its difference is to zero.
pub open spec fn spec_weighted_sum(s: Seq<AspectResult>) -> int
    decreases s.len(),
{
    if s.len() == 0 {
        0
    } else {
        spec_weighted_sum(s.drop_last()) + (SCALE - s.last().difference) * spec_weight(
            s.last().aspect,
        )
    }
}

/// The aggregated confidence: the weighted sum over the fixed calibration
/// divisor, clamped into `[0, SCALE]`; zero when there is no evidence.
pub open spec fn spec_confidence(s: Seq<AspectResult>) -> int {
    if s.len() == 0 {
        0
    } else {
        spec_clamp(
            spec_weighted_sum(s) / (s.len() * 2 * WEIGHT_UNIT) as int,
            0,
            SCALE as int,
        )
    }
}

/// A weighted sum of in-range differences is never negative.
proof fn lemma_weighted_sum_nonneg(s: Seq<AspectResult>)
    requires
        forall|i: int| 0 <= i < s.len() ==> #[trigger] s[i].difference <= SCALE,
    ensures
        spec_weighted_sum(s) >= 0,
    decreases s.len(),
{
    if s.len() > 0 {
        assert(s.last() == s[s.len() - 1]);
        assert(forall|i: int| 0 <= i < s.drop_last().len() ==> s.drop_last()[i] == s[i]);
        lemma_weighted_sum_nonneg(s.drop_last());
        lemma_mul_nonnegative(SCALE - s.last().difference as int, spec_weight(s.last().aspect));
    }
}

/// Aggregates the aspect differences into one scaled confidence score.
pub fn calculate_confidence(details: &Vec<AspectResult>) -> (c: u64)
    requires
        forall|i: int| 0 <= i < details@.len() ==> #[trigger] details@[i].difference <= SCALE,
    ensures
        c == spec_confidence(details@),
        c <= SCALE,
{
    let n = details.len();
    if n == 0 {
        return 0;
    }
    let mut acc: u128 = 0;
    let mut j: usize = 0;
    proof {
        assert(details@.take(0) =~= Seq::<AspectResult>::empty());
    }
    while j < n
        invariant
            0 <= j <= n,
            n == details@.len(),
            forall|i: int| 0 <= i < details@.len() ==> #[trigger] details@[i].difference <= SCALE,
            acc == spec_weighted_sum(details@.take(j as int)),
            acc <= j * (SCALE as int) * (WEIGHT_WORD_USAGE as int),
        decreases n - j,
    {
        let d = details[j].difference;
        let w = weight_of(&details[j].aspect);
        proof {
            assert(details@.take(j + 1).drop_last() =~= details@.take(j as int));
            assert(details@.take(j + 1).last() == details@[j as int]);
            assert((SCALE - d) as int * (w as int) <= (SCALE as int) * (WEIGHT_WORD_USAGE as int))
                by (nonlinear_arith)
                requires 0 <= SCALE - d <= SCALE && 0 <= w <= WEIGHT_WORD_USAGE,
            ;
            assert((j + 1) * (SCALE as int) * (WEIGHT_WORD_USAGE as int)
                == j * (SCALE as int) * (WEIGHT_WORD_USAGE as int) + (SCALE as int) * (
            WEIGHT_WORD_USAGE as int)) by (nonlinear_arith);
            assert((j + 1) * (SCALE as int) * (WEIGHT_WORD_USAGE as int) <= u128::MAX)
                by (nonlinear_arith)
                requires 0 <= j + 1 <= 0x1_0000_0000_0000_0000int,
            ;
        }
        acc = acc + ((SCALE - d) as u128) * (w as u128);
        j += 1;
    }
    proof {
        assert(details@.take(n as int) =~= details@);
        lemma_weighted_sum_nonneg(details@);
        assert((n as int) * 2 * (WEIGHT_UNIT as int) > 0) by (nonlinear_arith)
            requires n >= 1,
        ;
        assert((n as u128) * 2 * (WEIGHT_UNIT as u128) <= u128::MAX) by (nonlinear_arith)
            requires 0 < n <= 0x1_0000_0000_0000_0000int,
        ;
        lemma_div_pos_is_pos(spec_weighted_sum(details@), (n as int) * 2 * (WEIGHT_UNIT as int));
    }
    let q = acc / ((n as u128) * 2 * (WEIGHT_UNIT as u128));
    if q > SCALE as u128 {
        SCALE
    } else {
        q as u64
    }
}

/// The seven scaled aspect differences between two texts, in presentation
/// order: word usage, sentence length, particle, verb and adjective usage,
/// punctuation, vocabulary richness.
pub open spec fn spec_text_diffs(
    t1: Seq<char>,
    k1: Seq<Token>,
    t2: Seq<char>,
    k2: Seq<Token>,
) -> Seq<int> {
    seq![
        SCALE - spec_similarity(spec_word_freqs(k1), spec_word_freqs(k2)),
        spec_length_diff(
            spec_avg_sentence_length(t1, k1),
            spec_avg_sentence_length(t2, k2),
        ),
        spec_capped_diff(spec_tag_ratio(k1, "助詞"@), spec_tag_ratio(k2, "助詞"@)),
        spec_capped_diff(spec_tag_ratio(k1, "動詞"@), spec_tag_ratio(k2, "動詞"@)),
        spec_capped_diff(spec_tag_ratio(k1, "形容詞"@), spec_tag_ratio(k2, "形容詞"@)),
        spec_capped_diff(spec_punct_ratio(k1), spec_punct_ratio(k2)),
        spec_capped_diff(spec_unique_ratio(k1), spec_unique_ratio(k2)),
    ]
}

/// The scaled confidence that the two texts share an author: the weighted
/// agreement over the fixed calibration divisor, clamped into `[0, SCALE]`.
pub open spec fn spec_text_confidence(
    t1: Seq<char>,
    k1: Seq<Token>,
    t2: Seq<char>,
    k2: Seq<Token>,
) -> int {
    let d = spec_text_diffs(t1, k1, t2, k2);
    spec_clamp(
        ((SCALE - d[0]) * WEIGHT_WORD_USAGE + (SCALE - d[1]) * WEIGHT_SENTENCE_LENGTH + (SCALE
            - d[2]) * WEIGHT_PARTICLE_USAGE + (SCALE - d[3]) * WEIGHT_VERB_USAGE + (SCALE - d[4])
            * WEIGHT_ADJECTIVE_USAGE + (SCALE - d[5]) * WEIGHT_DEFAULT + (SCALE - d[6])
            * WEIGHT_VOCABULARY_RICHNESS) / (7 * 2 * WEIGHT_UNIT) as int,
        0,
        SCALE as int,
    )
}

/// Compares two texts given their token sequences.  Every field of the
/// result is a function of the inputs alone, so repeated calls with the
/// same inputs yield identical output.
pub fn compare_texts(
    text1: &str,
    tokens1: &Vec<Token>,
    text2: &str,
    tokens2: &Vec<Token>,
) -> (a: Analysis)
    requires
        tokens1@.len() <= MAX_TOKENS,
        tokens2@.len() <= MAX_TOKENS,
    ensures
        a.detailed_analysis@.len() == 7,
        a.detailed_analysis@[0].aspect == Aspect::WordUsage,
        a.detailed_analysis@[1].aspect == Aspect::SentenceLength,
        a.detailed_analysis@[2].aspect == Aspect::ParticleUsage,
        a.detailed_analysis@[3].aspect == Aspect::VerbUsage,
        a.detailed_analysis@[4].aspect == Aspect::AdjectiveUsage,
        a.detailed_analysis@[5].aspect == Aspect::Punctuation,
        a.detailed_analysis@[6].aspect == Aspect::VocabularyRichness,
        forall|i: int|
            0 <= i < 7 ==> #[trigger] a.detailed_analysis@[i].difference == spec_text_diffs(
                text1@,
                tokens1@,
                text2@,
                tokens2@,
            )[i],
        forall|i: int|
            0 <= i < 7 ==> #[trigger] a.detailed_analysis@[i].explanation@ == spec_explanation(
                a.detailed_analysis@[i].aspect,
            ),
        a.confidence == spec_text_confidence(text1@, tokens1@, text2@, tokens2@),
        a.confidence <= SCALE,
        a.same_author == (a.confidence > SAME_AUTHOR_THRESHOLD),
{
    let features1 = extract_features(text1, tokens1);
    let features2 = extract_features(text2, tokens2);
    let detailed_analysis = compare_features(&features1, &features2);
    let confidence = calculate_confidence(&detailed_analysis);
    let same_author = confidence > SAME_AUTHOR_THRESHOLD;
    proof {
        let s = detailed_analysis@;
        let d = spec_text_diffs(text1@, tokens1@, text2@, tokens2@);
        assert forall|i: int| 0 <= i < 7 implies #[trigger] s[i].difference == d[i] by {
        }
        reveal_with_fuel(spec_weighted_sum, 9);
        let s6 = s.drop_last();
        let s5 = s6.drop_last();
        let s4 = s5.drop_last();
        let s3 = s4.drop_last();
        let s2 = s3.drop_last();
        let s1 = s2.drop_last();
        let s0 = s1.drop_last();
        assert(s0.len() == 0);
        assert(s.last() == s[6] && s6.last() == s[5] && s5.last() == s[4] && s4.last() == s[3]
            && s3.last() == s[2] && s2.last() == s[1] && s1.last() == s[0]);
        assert(spec_weighted_sum(s) == (SCALE - s[0].difference) * WEIGHT_WORD_USAGE + (SCALE
            - s[1].difference) * WEIGHT_SENTENCE_LENGTH + (SCALE - s[2].difference)
            * WEIGHT_PARTICLE_USAGE + (SCALE - s[3].difference) * WEIGHT_VERB_USAGE + (SCALE
            - s[4].difference) * WEIGHT_ADJECTIVE_USAGE + (SCALE - s[5].difference)
            * WEIGHT_DEFAULT + (SCALE - s[6].difference) * WEIGHT_VOCABULARY_RICHNESS);
        assert(confidence == spec_text_confidence(text1@, tokens1@, text2@, tokens2@));
    }
    Analysis { same_author, confidence, detailed_analysis }
}

/// Swapping the two texts changes neither the aspect differences nor the
/// confidence: every compared dimension is symmetric.
pub proof fn lemma_comparison_symmetric(
    t1: Seq<char>,
    k1: Seq<Token>,
    t2: Seq<char>,
    k2: Seq<Token>,
)
    requires
        k1.len() < u64::MAX,
        k2.len() < u64::MAX,
    ensures
        spec_text_diffs(t1, k1, t2, k2) == spec_text_diffs(t2, k2, t1, k1),
        spec_text_confidence(t1, k1, t2, k2) == spec_text_confidence(t2, k2, t1, k1),
{
    lemma_word_freqs_wf(k1);
    lemma_word_freqs_wf(k2);
    lemma_similarity_symmetric(spec_word_freqs(k1), spec_word_freqs(k2));
    assert(spec_text_diffs(t1, k1, t2, k2) =~= spec_text_diffs(t2, k2, t1, k1));
}

/// A text whose frequency distribution has a positive norm and whose
/// average sentence length is positive agrees with itself on every aspect,
/// and its self-comparison exceeds the same-author threshold.
pub proof fn lemma_self_comparison(t: Seq<char>, k: Seq<Token>)
    requires
        k.len() < u64::MAX,
        spec_sum_sq(spec_word_freqs(k)) > 0,
        spec_avg_sentence_length(t, k) > 0,
    ensures
        forall|i: int| 0 <= i < 7 ==> #[trigger] spec_text_diffs(t, k, t, k)[i] == 0,
        spec_text_confidence(t, k, t, k) > SAME_AUTHOR_THRESHOLD,
{
    lemma_word_freqs_wf(k);
    lemma_self_similarity(spec_word_freqs(k));
    let d = spec_text_diffs(t, k, t, k);
    assert(d[0] == 0);
    let len = spec_avg_sentence_length(t, k);
    lemma_div_multiples_vanish(SCALE as int, len);
    assert(spec_ratio(len, len) == SCALE);
    assert(d[1] == 0);
    assert(d[2] == 0 && d[3] == 0 && d[4] == 0 && d[5] == 0 && d[6] == 0);
    assert forall|i: int| 0 <= i < 7 implies #[trigger] spec_text_diffs(t, k, t, k)[i] == 0 by {
        if i == 0 {
            assert(d[0] == 0);
        } else if i == 1 {
            assert(d[1] == 0);
        } else if i == 2 {
            assert(d[2] == 0);
        } else if i == 3 {
            assert(d[3] == 0);
        } else if i == 4 {
            assert(d[4] == 0);
        } else if i == 5 {
            assert(d[5] == 0);
        } else {
            assert(d[6] == 0);
        }
    }
    let w_total = (WEIGHT_WORD_USAGE + WEIGHT_SENTENCE_LENGTH + WEIGHT_PARTICLE_USAGE
        + WEIGHT_VERB_USAGE + WEIGHT_ADJECTIVE_USAGE + WEIGHT_DEFAULT
        + WEIGHT_VOCABULARY_RICHNESS) as int;
    assert(w_total == 109);
    assert(spec_text_confidence(t, k, t, k) == spec_clamp(
        ((SCALE as int) * w_total) / (7 * 2 * WEIGHT_UNIT) as int,
        0,
        SCALE as int,
    ));
    assert((SCALE as int) * w_total == 109_000_000int) by (nonlinear_arith)
        requires w_total == 109 && SCALE == 1_000_000u64,
    ;
    assert(109_000_000int / 140 == 778_571);
}

} // verus!
