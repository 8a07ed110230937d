//! The stylometric fingerprint of one text.
//!
//! The extractor turns a raw text and its token sequence into a
//! `TextFeatures` record: a scaled word-frequency distribution and a set of
//! scaled ratios.  Texts with fewer than two tokens yield the zero
//! fingerprint, so nothing downstream ever divides by zero.

use vstd::prelude::*;
use crate::fixed::{
    SCALE, MAX_TOKENS, spec_ratio, ratio_of, lemma_ratio_le_scale, lemma_ratio_le_numerator,
};
use crate::freq::{
    FreqMap, distinct_keys, values_bounded, spec_increment, spec_normalize, lookup,
    lemma_increment_props, lemma_lookup_bounded,
};
use crate::token::{
    Token, spec_is_punct_token, is_punct_token, spec_sentence_count, count_sentences,
};

verus! {

/// The floor applied to the three tracked grammatical-class ratios, so that
/// one missing class cannot force an artificial zero into the comparison.
pub const MIN_TAG_RATIO: u64 = 100_000;

/// How many of the tokens are pure punctuation.
pub open spec fn spec_punct_count(toks: Seq<Token>) -> int
    decreases toks.len(),
{
    if toks.len() == 0 {
        0
    } else {
        spec_punct_count(toks.drop_last()) + if spec_is_punct_token(toks.last().surface@) {
            1int
        } else {
            0int
        }
    }
}

/// How many of the tokens are content words.
pub open spec fn spec_content_count(toks: Seq<Token>) -> int {
    toks.len() - spec_punct_count(toks)
}

/// How many content tokens carry the grammatical tag `tag`.
pub open spec fn spec_tag_count(toks: Seq<Token>, tag: Seq<char>) -> int
    decreases toks.len(),
{
    if toks.len() == 0 {
        0
    } else {
        spec_tag_count(toks.drop_last(), tag) + if !spec_is_punct_token(toks.last().surface@)
            && toks.last().tag@ == tag {
            1int
        } else {
            0int
        }
    }
}

/// The raw word counts of the content tokens, in first-occurrence order.
pub open spec fn spec_word_counts(toks: Seq<Token>) -> Seq<(Seq<char>, u64)>
    decreases toks.len(),
{
    if toks.len() == 0 {
        Seq::<(Seq<char>, u64)>::empty()
    } else {
        let m = spec_word_counts(toks.drop_last());
        if spec_is_punct_token(toks.last().surface@) {
            m
        } else {
            spec_increment(m, toks.last().surface@)
        }
    }
}

/// The punctuation count lies between 0 and the token count.
pub proof fn lemma_punct_count_bounds(toks: Seq<Token>)
    ensures
        0 <= spec_punct_count(toks) <= toks.len(),
    decreases toks.len(),
{
    if toks.len() > 0 {
        lemma_punct_count_bounds(toks.drop_last());
    }
}

/// The word counts have distinct keys, values at most the content count,
/// and at most one entry per content token.
pub proof fn lemma_word_counts_wf(toks: Seq<Token>)
    requires
        toks.len() < u64::MAX,
    ensures
        distinct_keys(spec_word_counts(toks)),
        values_bounded(spec_word_counts(toks), spec_content_count(toks)),
        spec_word_counts(toks).len() <= spec_content_count(toks),
        0 <= spec_content_count(toks) <= toks.len(),
    decreases toks.len(),
{
    lemma_punct_count_bounds(toks);
    if toks.len() > 0 {
        let tl = toks.drop_last();
        lemma_word_counts_wf(tl);
        lemma_punct_count_bounds(tl);
        if !spec_is_punct_token(toks.last().surface@) {
            lemma_increment_props(
                spec_word_counts(tl),
                toks.last().surface@,
                spec_content_count(tl),
            );
            assert(spec_content_count(toks) == spec_content_count(tl) + 1);
        } else {
            assert(spec_content_count(toks) == spec_content_count(tl));
        }
    }
}

/// The scaled word-frequency distribution of the text: the word counts
/// divided by the content count, and empty for a degenerate text.
pub open spec fn spec_word_freqs(toks: Seq<Token>) -> Seq<(Seq<char>, u64)> {
    if toks.len() < 2 || spec_content_count(toks) == 0 {
        Seq::<(Seq<char>, u64)>::empty()
    } else {
        spec_normalize(spec_word_counts(toks), spec_content_count(toks))
    }
}

/// The frequency distribution has distinct keys and scaled values.
pub proof fn lemma_word_freqs_wf(toks: Seq<Token>)
    requires
        toks.len() < u64::MAX,
    ensures
        distinct_keys(spec_word_freqs(toks)),
        values_bounded(spec_word_freqs(toks), SCALE as int),
{
    lemma_word_counts_wf(toks);
    if !(toks.len() < 2 || spec_content_count(toks) == 0) {
        let m = spec_word_counts(toks);
        let c = spec_content_count(toks);
        let r = spec_normalize(m, c);
        assert forall|p: int, q: int| 0 <= p < q < r.len() implies r[p].0 != r[q].0 by {
            assert(r[p].0 == m[p].0);
            assert(r[q].0 == m[q].0);
        }
        assert forall|p: int| 0 <= p < r.len() implies r[p].1 <= SCALE as int by {
            lemma_ratio_le_scale(m[p].1 as int, c);
        }
    }
}

/// The scaled share of content tokens carrying `tag`, floored at
/// `MIN_TAG_RATIO`, and 0 for a degenerate text.
pub open spec fn spec_tag_ratio(toks: Seq<Token>, tag: Seq<char>) -> int {
    if toks.len() < 2 {
        0
    } else {
        let r = spec_ratio(spec_tag_count(toks, tag), spec_content_count(toks));
        if r < MIN_TAG_RATIO {
            MIN_TAG_RATIO as int
        } else {
            r
        }
    }
}

/// The scaled share of distinct words among the content tokens.
pub open spec fn spec_unique_ratio(toks: Seq<Token>) -> int {
    if toks.len() < 2 || spec_content_count(toks) == 0 {
        0
    } else {
        spec_ratio(spec_word_counts(toks).len() as int, spec_content_count(toks))
    }
}

/// The scaled average sentence length: content tokens per sentence; the
/// plain content count when no sentence terminator occurs; the token count
/// itself for a degenerate text.
pub open spec fn spec_avg_sentence_length(text: Seq<char>, toks: Seq<Token>) -> int {
    if toks.len() < 2 {
        toks.len() * SCALE
    } else {
        let sc = spec_sentence_count(text);
        if sc > 0 {
            spec_ratio(spec_content_count(toks), sc)
        } else {
            spec_content_count(toks) * SCALE
        }
    }
}

/// The scaled share of punctuation tokens among all tokens.
pub open spec fn spec_punct_ratio(toks: Seq<Token>) -> int {
    if toks.len() < 2 {
        0
    } else {
        spec_ratio(spec_punct_count(toks), toks.len() as int)
    }
}

/// The fingerprint of one text.  All ratio fields are scaled by `SCALE` and
/// lie in `[0, SCALE]`; the average sentence length is scaled and has no
/// upper bound below `MAX_TOKENS * SCALE`.
pub struct TextFeatures {
    pub word_frequencies: FreqMap,
    pub particle_ratio: u64,
    pub verb_ratio: u64,
    pub adjective_ratio: u64,
    pub unique_words_ratio: u64,
    pub avg_sentence_length: u64,
    pub punctuation_ratio: u64,
}

impl TextFeatures {
    /// The record's invariant: a duplicate-free frequency distribution with
    /// scaled values, and every ratio within `[0, SCALE]`.
    pub open spec fn wf(&self) -> bool {
        &&& distinct_keys(self.word_frequencies@)
        &&& values_bounded(self.word_frequencies@, SCALE as int)
        &&& self.particle_ratio <= SCALE
        &&& self.verb_ratio <= SCALE
        &&& self.adjective_ratio <= SCALE
        &&& self.unique_words_ratio <= SCALE
        &&& self.punctuation_ratio <= SCALE
    }
}

/// Extracts the stylometric fingerprint of `text`, whose token sequence is
/// `tokens`.  Deterministic: every field is a function of the inputs alone.
pub fn extract_features(text: &str, tokens: &Vec<Token>) -> (f: TextFeatures)
    requires
        tokens@.len() <= MAX_TOKENS,
    ensures
        f.word_frequencies@ == spec_word_freqs(tokens@),
        f.particle_ratio == spec_tag_ratio(tokens@, "助詞"@),
        f.verb_ratio == spec_tag_ratio(tokens@, "動詞"@),
        f.adjective_ratio == spec_tag_ratio(tokens@, "形容詞"@),
        f.unique_words_ratio == spec_unique_ratio(tokens@),
        f.avg_sentence_length == spec_avg_sentence_length(text@, tokens@),
        f.punctuation_ratio == spec_punct_ratio(tokens@),
        f.wf(),
{
    let sentences = count_sentences(text);
    let n = tokens.len();
    if n < 2 {
        let f = TextFeatures {
            word_frequencies: FreqMap::new(),
            particle_ratio: 0,
            verb_ratio: 0,
            adjective_ratio: 0,
            unique_words_ratio: 0,
            avg_sentence_length: (n as u64) * SCALE,
            punctuation_ratio: 0,
        };
        return f;
    }
    let particle_tag: String = ("助詞").to_owned();
    let verb_tag: String = ("動詞").to_owned();
    let adjective_tag: String = ("形容詞").to_owned();
    proof {
        reveal_strlit("助詞");
        reveal_strlit("動詞");
        reveal_strlit("形容詞");
        assert(particle_tag@[0] as u32 == 0x52a9);
        assert(verb_tag@[0] as u32 == 0x52d5);
        assert(adjective_tag@[0] as u32 == 0x5f62);
        assert(particle_tag@ != verb_tag@);
        assert(particle_tag@ != adjective_tag@);
        assert(verb_tag@ != adjective_tag@);
    }
    let mut counts = FreqMap::new();
    let mut punct: u64 = 0;
    let mut particle: u64 = 0;
    let mut verb: u64 = 0;
    let mut adjective: u64 = 0;
    let mut j: usize = 0;
    proof {
        assert(tokens@.take(0) =~= Seq::<Token>::empty());
    }
    while j < n
        invariant
            0 <= j <= n,
            2 <= n == tokens@.len(),
            tokens@.len() <= MAX_TOKENS,
            particle_tag@ == "助詞"@,
            verb_tag@ == "動詞"@,
            adjective_tag@ == "形容詞"@,
            particle_tag@ != verb_tag@,
            particle_tag@ != adjective_tag@,
            verb_tag@ != adjective_tag@,
            counts@ == spec_word_counts(tokens@.take(j as int)),
            distinct_keys(counts@),
            punct == spec_punct_count(tokens@.take(j as int)),
            particle == spec_tag_count(tokens@.take(j as int), "助詞"@),
            verb == spec_tag_count(tokens@.take(j as int), "動詞"@),
            adjective == spec_tag_count(tokens@.take(j as int), "形容詞"@),
            punct <= j,
            values_bounded(counts@, j - punct),
            counts@.len() <= j - punct,
            particle <= j - punct,
            verb <= j - punct,
            adjective <= j - punct,
        decreases n - j,
    {
        let t = &tokens[j];
        proof {
            assert(tokens@.take(j + 1).drop_last() =~= tokens@.take(j as int));
            assert(tokens@.take(j + 1).last() == tokens@[j as int]);
        }
        if is_punct_token(&t.surface) {
            punct += 1;
        } else {
            proof {
                lemma_lookup_bounded(counts@, t.surface@, j - punct);
                lemma_increment_props(counts@, t.surface@, j - punct);
            }
            counts.increment(&t.surface);
            if t.tag == particle_tag {
                particle += 1;
            } else if t.tag == verb_tag {
                verb += 1;
            } else if t.tag == adjective_tag {
                adjective += 1;
            }
        }
        j += 1;
    }
    proof {
        assert(tokens@.take(n as int) =~= tokens@);
    }
    let total: u64 = n as u64;
    let content: u64 = total - punct;
    let word_frequencies = if content == 0 {
        FreqMap::new()
    } else {
        counts.normalized(content)
    };
    proof {
        lemma_ratio_le_scale(particle as int, content as int);
        lemma_ratio_le_scale(verb as int, content as int);
        lemma_ratio_le_scale(adjective as int, content as int);
    }
    let pr = ratio_of(particle, content);
    let particle_ratio = if pr < MIN_TAG_RATIO {
        MIN_TAG_RATIO
    } else {
        pr
    };
    let vr = ratio_of(verb, content);
    let verb_ratio = if vr < MIN_TAG_RATIO {
        MIN_TAG_RATIO
    } else {
        vr
    };
    let ar = ratio_of(adjective, content);
    let adjective_ratio = if ar < MIN_TAG_RATIO {
        MIN_TAG_RATIO
    } else {
        ar
    };
    let distinct_words = counts.len() as u64;
    let unique_words_ratio = if content == 0 {
        0
    } else {
        proof {
            lemma_ratio_le_scale(distinct_words as int, content as int);
        }
        ratio_of(distinct_words, content)
    };
    proof {
        lemma_ratio_le_numerator(content as int, sentences as int);
        assert((content as int) * (SCALE as int) <= (MAX_TOKENS as int) * (SCALE as int))
            by (nonlinear_arith)
            requires 0 <= content <= MAX_TOKENS,
        ;
    }
    let avg_sentence_length = if sentences > 0 {
        ratio_of(content, sentences as u64)
    } else {
        content * SCALE
    };
    proof {
        lemma_ratio_le_scale(punct as int, total as int);
    }
    let punctuation_ratio = ratio_of(punct, total);
    TextFeatures {
        word_frequencies,
        particle_ratio,
        verb_ratio,
        adjective_ratio,
        unique_words_ratio,
        avg_sentence_length,
        punctuation_ratio,
    }
}

} // verus!
