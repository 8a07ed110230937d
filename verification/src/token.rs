//! Tokens and the character-level classifications the extractor needs.
//!
//! A token is one unit of the external morphological analysis: a surface
//! form and a coarse grammatical tag.  The classifications here (ASCII
//! punctuation, white space, sentence terminators) are spelled out in full
//! so that every character-level decision is verified.

use vstd::prelude::*;

verus! {

broadcast use vstd::string::axiom_spec_iter;

/// One lexical unit of the analyzed text: a surface form and the
/// grammatical tag the analyzer assigned to it.
pub struct Token {
    pub surface: String,
    pub tag: String,
}

impl Token {
    /// A token with the given surface form and tag.
    pub fn new(surface: &str, tag: &str) -> (t: Token)
        ensures
            t.surface@ == surface@,
            t.tag@ == tag@,
    {
        Token { surface: surface.to_owned(), tag: tag.to_owned() }
    }
}

/// Whether `c` is an ASCII punctuation mark.
pub open spec fn spec_is_ascii_punct(c: char) -> bool {
    let u = c as u32;
    (0x21 <= u && u <= 0x2f) || (0x3a <= u && u <= 0x40) || (0x5b <= u && u <= 0x60) || (0x7b
        <= u && u <= 0x7e)
}

/// Whether `c` is a white-space character.
pub open spec fn spec_is_space(c: char) -> bool {
    let u = c as u32;
    (0x09 <= u && u <= 0x0d) || u == 0x20 || u == 0x85 || u == 0xa0 || u == 0x1680 || (0x2000
        <= u && u <= 0x200a) || u == 0x2028 || u == 0x2029 || u == 0x202f || u == 0x205f || u
        == 0x3000
}

/// Whether `c` ends a sentence.
pub open spec fn spec_is_terminator(c: char) -> bool {
    c == '.' || c == '!' || c == '?'
}

/// A token whose surface consists of punctuation marks alone; such a token
/// is not a content word.  An empty surface counts as punctuation.
pub open spec fn spec_is_punct_token(s: Seq<char>) -> bool {
    forall|i: int| 0 <= i < s.len() ==> spec_is_ascii_punct(s[i])
}

/// The characters of a string, in order.
pub fn chars_of(s: &str) -> (r: Vec<char>)
    ensures
        r@ == s@,
{
    let mut r: Vec<char> = Vec::new();
    for c in it: s.chars()
        invariant
            it.seq() == s@,
            r@ == it.seq().take(it.index() as int),
    {
        r.push(c);
    }
    proof {
        assert(r@ =~= s@);
    }
    r
}

/// Whether `c` is an ASCII punctuation mark.
pub fn is_ascii_punct(c: char) -> (r: bool)
    ensures
        r == spec_is_ascii_punct(c),
{
    let u = c as u32;
    (0x21 <= u && u <= 0x2f) || (0x3a <= u && u <= 0x40) || (0x5b <= u && u <= 0x60) || (0x7b
        <= u && u <= 0x7e)
}

/// Whether `c` is a white-space character.
pub fn is_space(c: char) -> (r: bool)
    ensures
        r == spec_is_space(c),
{
    let u = c as u32;
    (0x09 <= u && u <= 0x0d) || u == 0x20 || u == 0x85 || u == 0xa0 || u == 0x1680 || (0x2000
        <= u && u <= 0x200a) || u == 0x2028 || u == 0x2029 || u == 0x202f || u == 0x205f || u
        == 0x3000
}

/// Whether the surface form consists of punctuation marks alone.
pub fn is_punct_token(surface: &String) -> (r: bool)
    ensures
        r == spec_is_punct_token(surface@),
{
    let cs = chars_of(surface.as_str());
    let n = cs.len();
    let mut j: usize = 0;
    while j < n
        invariant
            0 <= j <= n,
            n == cs@.len(),
            cs@ == surface@,
            forall|p: int| 0 <= p < j ==> spec_is_ascii_punct(surface@[p]),
        decreases n - j,
    {
        if !is_ascii_punct(cs[j]) {
            return false;
        }
        j += 1;
    }
    true
}

/// How many sentences remain in `s`, given whether the current segment has
/// already seen a non-space character: a terminator closes a segment, and a
/// segment counts as a sentence exactly when it holds a non-space character.
pub open spec fn spec_sentences_from(s: Seq<char>, has_content: bool) -> int
    decreases s.len(),
{
    if s.len() == 0 {
        if has_content {
            1int
        } else {
            0int
        }
    } else if spec_is_terminator(s[0]) {
        (if has_content {
            1int
        } else {
            0int
        }) + spec_sentences_from(s.drop_first(), false)
    } else {
        spec_sentences_from(s.drop_first(), has_content || !spec_is_space(s[0]))
    }
}

/// The number of non-blank segments of `s` delimited by `.`, `!` or `?`.
pub open spec fn spec_sentence_count(s: Seq<char>) -> int {
    spec_sentences_from(s, false)
}

/// Counts the non-blank sentence segments of `text`.
pub fn count_sentences(text: &str) -> (r: usize)
    ensures
        r == spec_sentence_count(text@),
{
    let cs = chars_of(text);
    let n = cs.len();
    let mut count: usize = 0;
    let mut has_content: bool = false;
    let mut j: usize = 0;
    proof {
        assert(cs@.skip(0) =~= cs@);
    }
    while j < n
        invariant
            0 <= j <= n,
            n == cs@.len(),
            cs@ == text@,
            count + (if has_content { 1int } else { 0int }) <= j,
            count + spec_sentences_from(cs@.skip(j as int), has_content)
                == spec_sentence_count(text@),
        decreases n - j,
    {
        let c = cs[j];
        proof {
            assert(cs@.skip(j as int)[0] == cs@[j as int]);
            assert(cs@.skip(j as int).drop_first() =~= cs@.skip(j + 1));
        }
        if c == '.' || c == '!' || c == '?' {
            if has_content {
                count += 1;
            }
            has_content = false;
        } else {
            if !is_space(c) {
                has_content = true;
            }
        }
        j += 1;
    }
    proof {
        assert(cs@.skip(n as int) =~= Seq::<char>::empty());
    }
    if has_content {
        count += 1;
    }
    count
}

} // verus!
