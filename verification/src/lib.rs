//! Authorship comparison by stylometric fingerprints.
//!
//! Two texts are compared by extracting a linguistic fingerprint from each
//! (word frequencies, grammatical-tag ratios, sentence length, punctuation)
//! and scoring the divergence between the fingerprints.  All quantities are
//! held in fixed-point arithmetic: a ratio in [0, 1] is an integer number of
//! parts per `SCALE`, so every step of the pipeline is exact and free of
//! not-a-number or infinite values by construction.

pub mod compare;
pub mod features;
pub mod fixed;
pub mod freq;
pub mod token;

pub use compare::{
    aspect_name, calculate_confidence, capped_difference, compare_features, compare_texts,
    explanation_of, length_difference, Analysis, Aspect, AspectResult, ASPECT_CAP,
    SAME_AUTHOR_THRESHOLD,
};
pub use features::{extract_features, TextFeatures, MIN_TAG_RATIO};
pub use fixed::{clamp, isqrt, ratio_of, MAX_TOKENS, SCALE};
pub use freq::{calculate_frequency_similarity, FreqMap};
pub use token::{count_sentences, Token};
