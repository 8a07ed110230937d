//! Word-frequency distributions and their cosine similarity.
//!
//! A `FreqMap` binds each word to a scaled frequency.  It is a vector of
//! pairs with pairwise-distinct keys, so that iteration order is fixed by
//! construction and every operation on it is exact integer arithmetic.

use vstd::prelude::*;
use vstd::arithmetic::div_mod::{
    lemma_div_is_ordered, lemma_div_multiples_vanish, lemma_div_pos_is_pos, lemma_div_of0,
};
use vstd::arithmetic::mul::lemma_mul_nonnegative;
use crate::fixed::{SCALE, spec_ratio, spec_isqrt, ratio_of, isqrt, lemma_ratio_le_scale,
    lemma_isqrt_bounds, lemma_isqrt_zero};

verus! {

/// No two entries bind the same word.
pub open spec fn distinct_keys(m: Seq<(Seq<char>, u64)>) -> bool {
    forall|i: int, j: int| 0 <= i < j < m.len() ==> m[i].0 != m[j].0
}

/// Every bound value is at most `bound`.
pub open spec fn values_bounded(m: Seq<(Seq<char>, u64)>, bound: int) -> bool {
    forall|i: int| 0 <= i < m.len() ==> m[i].1 <= bound
}

/// Some entry binds the word `k`.
pub open spec fn contains_key(m: Seq<(Seq<char>, u64)>, k: Seq<char>) -> bool {
    exists|i: int| 0 <= i < m.len() && m[i].0 == k
}

/// The value bound to `k`, and 0 for an absent word.
pub open spec fn lookup(m: Seq<(Seq<char>, u64)>, k: Seq<char>) -> u64
    decreases m.len(),
{
    if m.len() == 0 {
        0u64
    } else if m.last().0 == k {
        m.last().1
    } else {
        lookup(m.drop_last(), k)
    }
}

/// The map after counting one more occurrence of the word `k`.
pub open spec fn spec_increment(m: Seq<(Seq<char>, u64)>, k: Seq<char>) -> Seq<(Seq<char>, u64)> {
    if contains_key(m, k) {
        let i = choose|i: int| 0 <= i < m.len() && m[i].0 == k;
        m.update(i, (k, (m[i].1 + 1) as u64))
    } else {
        m.push((k, 1u64))
    }
}

/// Every count divided by `content`: the map of scaled frequencies.
pub open spec fn spec_normalize(m: Seq<(Seq<char>, u64)>, content: int) -> Seq<(Seq<char>, u64)> {
    m.map_values(|e: (Seq<char>, u64)| (e.0, spec_ratio(e.1 as int, content) as u64))
}

/// The dot product of two distributions over the union of their words:
/// words absent from one side contribute zero.
pub open spec fn spec_dot(a: Seq<(Seq<char>, u64)>, b: Seq<(Seq<char>, u64)>) -> int
    decreases a.len(),
{
    if a.len() == 0 {
        0
    } else {
        spec_dot(a.drop_last(), b) + a.last().1 * lookup(b, a.last().0)
    }
}

/// The sum of the squared values of a distribution.
pub open spec fn spec_sum_sq(a: Seq<(Seq<char>, u64)>) -> int
    decreases a.len(),
{
    if a.len() == 0 {
        0
    } else {
        spec_sum_sq(a.drop_last()) + a.last().1 * a.last().1
    }
}

/// The scaled cosine similarity of two distributions: their dot product over
/// the product of their norms, capped at `SCALE`, and 0 when either norm is
/// zero, so that a degenerate distribution yields a defined value.
pub open spec fn spec_similarity(a: Seq<(Seq<char>, u64)>, b: Seq<(Seq<char>, u64)>) -> int {
    let na = spec_isqrt(spec_sum_sq(a) as nat);
    let nb = spec_isqrt(spec_sum_sq(b) as nat);
    if na == 0 || nb == 0 {
        0
    } else {
        let q = spec_dot(a, b) * SCALE / (na * nb) as int;
        if q > SCALE {
            SCALE as int
        } else {
            q
        }
    }
}

/// Looking up an indexed key of a duplicate-free map gives that entry's value.
pub proof fn lemma_lookup_index(m: Seq<(Seq<char>, u64)>, i: int, k: Seq<char>)
    requires
        distinct_keys(m),
        0 <= i < m.len(),
        m[i].0 == k,
    ensures
        lookup(m, k) == m[i].1,
    decreases m.len(),
{
    if i == m.len() - 1 {
        assert(m.last().0 == k);
    } else {
        assert(m.last().0 != k);
        lemma_distinct_drop_last(m);
        assert(m.drop_last()[i] == m[i]);
        lemma_lookup_index(m.drop_last(), i, k);
    }
}

/// Looking up a word that no entry binds gives zero.
pub proof fn lemma_lookup_absent(m: Seq<(Seq<char>, u64)>, k: Seq<char>)
    requires
        forall|i: int| 0 <= i < m.len() ==> m[i].0 != k,
    ensures
        lookup(m, k) == 0,
    decreases m.len(),
{
    if m.len() > 0 {
        assert(m.last() == m[m.len() - 1]);
        assert(forall|i: int| 0 <= i < m.drop_last().len() ==> m.drop_last()[i] == m[i]);
        lemma_lookup_absent(m.drop_last(), k);
    }
}

/// A lookup never exceeds a bound that every value meets.
pub proof fn lemma_lookup_bounded(m: Seq<(Seq<char>, u64)>, k: Seq<char>, bound: int)
    requires
        values_bounded(m, bound),
        bound >= 0,
    ensures
        lookup(m, k) <= bound,
    decreases m.len(),
{
    if m.len() > 0 {
        assert(m.last() == m[m.len() - 1]);
        assert(forall|i: int| 0 <= i < m.drop_last().len() ==> m.drop_last()[i] == m[i]);
        lemma_lookup_bounded(m.drop_last(), k, bound);
    }
}

/// Dropping the last entry keeps the keys pairwise distinct.
pub proof fn lemma_distinct_drop_last(m: Seq<(Seq<char>, u64)>)
    requires
        distinct_keys(m),
        m.len() > 0,
    ensures
        distinct_keys(m.drop_last()),
{
    assert forall|i: int, j: int| 0 <= i < j < m.drop_last().len()
        implies m.drop_last()[i].0 != m.drop_last()[j].0 by {
        assert(m.drop_last()[i] == m[i]);
        assert(m.drop_last()[j] == m[j]);
    }
}

/// Counting one more occurrence keeps the keys distinct, raises no value past
/// one more than the old bound, and adds at most one entry.
pub proof fn lemma_increment_props(m: Seq<(Seq<char>, u64)>, k: Seq<char>, bound: int)
    requires
        distinct_keys(m),
        values_bounded(m, bound),
        0 <= bound < u64::MAX,
    ensures
        distinct_keys(spec_increment(m, k)),
        values_bounded(spec_increment(m, k), bound + 1),
        spec_increment(m, k).len() <= m.len() + 1,
        m.len() <= spec_increment(m, k).len(),
{
    if contains_key(m, k) {
        let i = choose|i: int| 0 <= i < m.len() && m[i].0 == k;
        let r = m.update(i, (k, (m[i].1 + 1) as u64));
        assert forall|p: int, q: int| 0 <= p < q < r.len() implies r[p].0 != r[q].0 by {
            assert(r[p].0 == m[p].0);
            assert(r[q].0 == m[q].0);
        }
        assert forall|p: int| 0 <= p < r.len() implies r[p].1 <= bound + 1 by {
            if p != i {
                assert(r[p] == m[p]);
            }
        }
    }
}

/// A distribution of words with scaled frequencies.
pub struct FreqMap {
    entries: Vec<(String, u64)>,
}

impl View for FreqMap {
    type V = Seq<(Seq<char>, u64)>;

    closed spec fn view(&self) -> Seq<(Seq<char>, u64)> {
        self.entries@.map_values(|e: (String, u64)| (e.0@, e.1))
    }
}

impl FreqMap {
    /// The empty distribution.
    pub fn new() -> (r: FreqMap)
        ensures
            r@ == Seq::<(Seq<char>, u64)>::empty(),
            distinct_keys(r@),
    {
        let r = FreqMap { entries: Vec::new() };
        proof {
            assert(r@ =~= Seq::<(Seq<char>, u64)>::empty());
        }
        r
    }

    /// How many distinct words the distribution holds.
    pub fn len(&self) -> (n: usize)
        ensures
            n == self@.len(),
    {
        self.entries.len()
    }

    /// The value bound to `word`, and 0 for an absent word.
    pub fn get(&self, word: &String) -> (v: u64)
        requires
            distinct_keys(self@),
        ensures
            v == lookup(self@, word@),
    {
        let n = self.entries.len();
        let mut j: usize = 0;
        while j < n
            invariant
                0 <= j <= n,
                n == self@.len(),
                n == self.entries@.len(),
                distinct_keys(self@),
                forall|p: int| 0 <= p < j ==> self@[p].0 != word@,
            decreases n - j,
        {
            if self.entries[j].0 == *word {
                proof {
                    lemma_lookup_index(self@, j as int, word@);
                }
                return self.entries[j].1;
            }
            j += 1;
        }
        proof {
            lemma_lookup_absent(self@, word@);
        }
        0
    }

    /// Counts one more occurrence of `word`.
    pub fn increment(&mut self, word: &String)
        requires
            distinct_keys(old(self)@),
            lookup(old(self)@, word@) < u64::MAX,
        ensures
            final(self)@ == spec_increment(old(self)@, word@),
    {
        let n = self.entries.len();
        let mut j: usize = 0;
        while j < n
            invariant
                0 <= j <= n,
                n == self@.len(),
                n == self.entries@.len(),
                distinct_keys(self@),
                self.entries@ == old(self).entries@,
                lookup(self@, word@) < u64::MAX,
                forall|p: int| 0 <= p < j ==> self@[p].0 != word@,
            decreases n - j,
        {
            if self.entries[j].0 == *word {
                proof {
                    lemma_lookup_index(self@, j as int, word@);
                }
                let v = self.entries[j].1;
                self.entries[j] = (word.clone(), v + 1);
                proof {
                    let ghost m = old(self)@;
                    assert(contains_key(m, word@)) by {
                        assert(0 <= j < m.len() && m[j as int].0 == word@);
                    }
                    let i = choose|i: int| 0 <= i < m.len() && m[i].0 == word@;
                    assert(i == j as int);
                    assert(self@ =~= spec_increment(m, word@));
                }
                return ;
            }
            j += 1;
        }
        self.entries.push((word.clone(), 1));
        proof {
            let ghost m = old(self)@;
            assert(!contains_key(m, word@));
            assert(self@ =~= spec_increment(m, word@));
        }
    }

    /// Divides every count by `content`, turning counts into scaled
    /// frequencies.
    pub fn normalized(&self, content: u64) -> (r: FreqMap)
        requires
            content > 0,
            distinct_keys(self@),
            values_bounded(self@, content as int),
        ensures
            r@ == spec_normalize(self@, content as int),
            distinct_keys(r@),
            values_bounded(r@, SCALE as int),
    {
        let n = self.entries.len();
        let mut out: Vec<(String, u64)> = Vec::new();
        let mut j: usize = 0;
        while j < n
            invariant
                0 <= j <= n,
                n == self@.len(),
                n == self.entries@.len(),
                content > 0,
                distinct_keys(self@),
                values_bounded(self@, content as int),
                out@.len() == j,
                forall|p: int| 0 <= p < j ==> #[trigger] out@[p].0@ == self@[p].0,
                forall|p: int|
                    0 <= p < j ==> #[trigger] out@[p].1 == spec_ratio(
                        self@[p].1 as int,
                        content as int,
                    ),
            decreases n - j,
        {
            proof {
                assert(self@[j as int].1 <= content);
                lemma_ratio_le_scale(self@[j as int].1 as int, content as int);
            }
            let v = ratio_of(self.entries[j].1, content);
            out.push((self.entries[j].0.clone(), v));
            j += 1;
        }
        let r = FreqMap { entries: out };
        proof {
            assert forall|p: int| 0 <= p < n implies
                #[trigger] r@[p] == spec_normalize(self@, content as int)[p] by {
                lemma_ratio_le_scale(self@[p].1 as int, content as int);
            }
            assert(r@ =~= spec_normalize(self@, content as int));
            assert forall|p: int, q: int| 0 <= p < q < r@.len()
                implies r@[p].0 != r@[q].0 by {
                assert(r@[p].0 == self@[p].0);
                assert(r@[q].0 == self@[q].0);
            }
            assert forall|p: int| 0 <= p < r@.len() implies r@[p].1 <= SCALE as int by {
                lemma_ratio_le_scale(self@[p].1 as int, content as int);
            }
        }
        r
    }

    /// The sum of the squared values, exactly.
    fn sum_squares(&self) -> (s: u128)
        requires
            values_bounded(self@, SCALE as int),
        ensures
            s == spec_sum_sq(self@),
            s <= self@.len() * (SCALE as int) * (SCALE as int),
    {
        let n = self.entries.len();
        let mut acc: u128 = 0;
        let mut j: usize = 0;
        while j < n
            invariant
                0 <= j <= n,
                n == self@.len(),
                n == self.entries@.len(),
                values_bounded(self@, SCALE as int),
                acc == spec_sum_sq(self@.take(j as int)),
                acc <= j * (SCALE as int) * (SCALE as int),
            decreases n - j,
        {
            let v = self.entries[j].1;
            proof {
                assert(v == self@[j as int].1);
                assert(v <= SCALE);
                assert((v as int) * (v as int) <= (SCALE as int) * (SCALE as int))
                    by (nonlinear_arith)
                    requires 0 <= v <= SCALE,
                ;
                assert((j + 1) * (SCALE as int) * (SCALE as int)
                    == j * (SCALE as int) * (SCALE as int) + (SCALE as int) * (SCALE as int))
                    by (nonlinear_arith)
                ;
                assert((j + 1) * (SCALE as int) * (SCALE as int) <= u128::MAX)
                    by (nonlinear_arith)
                    requires 0 <= j + 1 <= 0x1_0000_0000_0000_0000int,
                ;
                assert(self@.take(j + 1).drop_last() =~= self@.take(j as int));
                assert(self@.take(j + 1).last() == self@[j as int]);
            }
            acc = acc + (v as u128) * (v as u128);
            j += 1;
        }
        proof {
            assert(self@.take(n as int) =~= self@);
        }
        acc
    }

    /// The dot product with another distribution, exactly.
    fn dot_with(&self, other: &FreqMap) -> (d: u128)
        requires
            distinct_keys(other@),
            values_bounded(self@, SCALE as int),
            values_bounded(other@, SCALE as int),
        ensures
            d == spec_dot(self@, other@),
            d <= self@.len() * (SCALE as int) * (SCALE as int),
    {
        let n = self.entries.len();
        let mut acc: u128 = 0;
        let mut j: usize = 0;
        while j < n
            invariant
                0 <= j <= n,
                n == self@.len(),
                n == self.entries@.len(),
                distinct_keys(other@),
                values_bounded(self@, SCALE as int),
                values_bounded(other@, SCALE as int),
                acc == spec_dot(self@.take(j as int), other@),
                acc <= j * (SCALE as int) * (SCALE as int),
            decreases n - j,
        {
            let v = self.entries[j].1;
            let w = other.get(&self.entries[j].0);
            proof {
                assert(v == self@[j as int].1);
                assert(w == lookup(other@, self@[j as int].0));
                lemma_lookup_bounded(other@, self@[j as int].0, SCALE as int);
                assert((v as int) * (w as int) <= (SCALE as int) * (SCALE as int))
                    by (nonlinear_arith)
                    requires 0 <= v <= SCALE && 0 <= w <= SCALE,
                ;
                assert((j + 1) * (SCALE as int) * (SCALE as int)
                    == j * (SCALE as int) * (SCALE as int) + (SCALE as int) * (SCALE as int))
                    by (nonlinear_arith)
                ;
                assert((j + 1) * (SCALE as int) * (SCALE as int) <= u128::MAX)
                    by (nonlinear_arith)
                    requires 0 <= j + 1 <= 0x1_0000_0000_0000_0000int,
                ;
                assert(self@.take(j + 1).drop_last() =~= self@.take(j as int));
                assert(self@.take(j + 1).last() == self@[j as int]);
            }
            acc = acc + (v as u128) * (w as u128);
            j += 1;
        }
        proof {
            assert(self@.take(n as int) =~= self@);
        }
        acc
    }
}

/// The cosine similarity of two frequency distributions, in parts per
/// `SCALE`: 0 when either distribution has norm zero, `SCALE` at most.
///
/// Every word of the union contributes: a word of one side alone adds zero
/// to the dot product.  The arithmetic is exact, so the result needs no
/// canonical key ordering to be reproducible; it is a function of the two
/// distributions alone.
pub fn calculate_frequency_similarity(freq1: &FreqMap, freq2: &FreqMap) -> (r: u64)
    requires
        distinct_keys(freq1@),
        distinct_keys(freq2@),
        values_bounded(freq1@, SCALE as int),
        values_bounded(freq2@, SCALE as int),
    ensures
        r == spec_similarity(freq1@, freq2@),
        r <= SCALE,
{
    let s1 = freq1.sum_squares();
    let s2 = freq2.sum_squares();
    let n1 = isqrt(s1);
    let n2 = isqrt(s2);
    if n1 == 0 || n2 == 0 {
        return 0;
    }
    let d = freq1.dot_with(freq2);
    let len1 = freq1.len();
    proof {
        lemma_dot_nonneg(freq1@, freq2@);
        assert(len1 <= usize::MAX);
        assert((d as int) * (SCALE as int) <= u128::MAX) by (nonlinear_arith)
            requires
                0 <= d,
                d <= (len1 as int) * (SCALE as int) * (SCALE as int),
                len1 as int <= 0x1_0000_0000_0000_0000int,
        ;
        assert((n1 as int) * (n2 as int) <= u128::MAX) by (nonlinear_arith)
            requires 0 < n1 <= u64::MAX && 0 < n2 <= u64::MAX,
        ;
        assert((n1 as int) * (n2 as int) > 0) by (nonlinear_arith)
            requires 0 < n1 && 0 < n2,
        ;
    }
    let q = d * (SCALE as u128) / (n1 * n2);
    if q > SCALE as u128 {
        SCALE
    } else {
        q as u64
    }
}

/// The dot product with the empty distribution is zero.
pub proof fn lemma_dot_empty(b: Seq<(Seq<char>, u64)>)
    ensures
        spec_dot(b, Seq::<(Seq<char>, u64)>::empty()) == 0,
    decreases b.len(),
{
    if b.len() > 0 {
        lemma_dot_empty(b.drop_last());
        assert(lookup(Seq::<(Seq<char>, u64)>::empty(), b.last().0) == 0);
        vstd::arithmetic::mul::lemma_mul_by_zero_is_zero(b.last().1 as int);
    }
}

/// Appending an entry whose word is new to `m` adds exactly that entry's
/// contribution to the dot product.
proof fn lemma_dot_snoc_right(
    b: Seq<(Seq<char>, u64)>,
    m: Seq<(Seq<char>, u64)>,
    e: (Seq<char>, u64),
)
    requires
        distinct_keys(b),
        !contains_key(m, e.0),
    ensures
        spec_dot(b, m.push(e)) == spec_dot(b, m) + e.1 * lookup(b, e.0),
    decreases b.len(),
{
    if b.len() == 0 {
        assert(lookup(b, e.0) == 0);
        vstd::arithmetic::mul::lemma_mul_by_zero_is_zero(e.1 as int);
    } else {
        let bl = b.drop_last();
        let f = b.last();
        lemma_distinct_drop_last(b);
        lemma_dot_snoc_right(bl, m, e);
        assert(m.push(e).last() == e);
        assert(m.push(e).drop_last() =~= m);
        if f.0 == e.0 {
            assert(lookup(m.push(e), f.0) == e.1);
            assert(forall|i: int| 0 <= i < bl.len() ==> bl[i] == b[i]);
            assert(forall|i: int| 0 <= i < bl.len() ==> bl[i].0 != e.0);
            lemma_lookup_absent(bl, e.0);
            assert(lookup(b, e.0) == f.1);
            assert(forall|i: int| 0 <= i < m.len() ==> m[i].0 != e.0);
            lemma_lookup_absent(m, f.0);
            vstd::arithmetic::mul::lemma_mul_by_zero_is_zero(e.1 as int);
            vstd::arithmetic::mul::lemma_mul_is_commutative(e.1 as int, f.1 as int);
        } else {
            assert(lookup(m.push(e), f.0) == lookup(m, f.0));
            assert(lookup(b, e.0) == lookup(bl, e.0));
        }
    }
}

/// The dot product does not depend on which distribution comes first.
pub proof fn lemma_dot_symmetric(a: Seq<(Seq<char>, u64)>, b: Seq<(Seq<char>, u64)>)
    requires
        distinct_keys(a),
        distinct_keys(b),
    ensures
        spec_dot(a, b) == spec_dot(b, a),
    decreases a.len(),
{
    if a.len() == 0 {
        assert(a =~= Seq::<(Seq<char>, u64)>::empty());
        lemma_dot_empty(b);
    } else {
        let al = a.drop_last();
        let e = a.last();
        lemma_distinct_drop_last(a);
        assert(forall|i: int| 0 <= i < al.len() ==> al[i] == a[i]);
        assert(!contains_key(al, e.0));
        lemma_dot_symmetric(al, b);
        lemma_dot_snoc_right(b, al, e);
        assert(al.push(e) =~= a);
    }
}

/// The dot product of a distribution with itself is its sum of squares.
pub proof fn lemma_dot_self(a: Seq<(Seq<char>, u64)>)
    requires
        distinct_keys(a),
    ensures
        spec_dot(a, a) == spec_sum_sq(a),
    decreases a.len(),
{
    if a.len() > 0 {
        let al = a.drop_last();
        let e = a.last();
        lemma_distinct_drop_last(a);
        assert(forall|i: int| 0 <= i < al.len() ==> al[i] == a[i]);
        assert(!contains_key(al, e.0));
        lemma_dot_self(al);
        lemma_dot_snoc_right(al, al, e);
        lemma_lookup_absent(al, e.0);
        assert(al.push(e) =~= a);
        assert(lookup(a, e.0) == e.1);
    }
}

/// The dot product of distributions that share no word is zero.
pub proof fn lemma_dot_disjoint(a: Seq<(Seq<char>, u64)>, b: Seq<(Seq<char>, u64)>)
    requires
        forall|i: int, j: int|
            0 <= i < a.len() && 0 <= j < b.len() ==> a[i].0 != b[j].0,
    ensures
        spec_dot(a, b) == 0,
    decreases a.len(),
{
    if a.len() > 0 {
        let al = a.drop_last();
        assert(forall|i: int| 0 <= i < al.len() ==> al[i] == a[i]);
        lemma_dot_disjoint(al, b);
        assert(a.last() == a[a.len() - 1]);
        lemma_lookup_absent(b, a.last().0);
    }
}

/// The dot product is never negative.
pub proof fn lemma_dot_nonneg(a: Seq<(Seq<char>, u64)>, b: Seq<(Seq<char>, u64)>)
    ensures
        spec_dot(a, b) >= 0,
    decreases a.len(),
{
    if a.len() > 0 {
        lemma_dot_nonneg(a.drop_last(), b);
        lemma_mul_nonnegative(a.last().1 as int, lookup(b, a.last().0) as int);
    }
}

/// The similarity score always lies between 0 and `SCALE`.
pub proof fn lemma_similarity_in_range(a: Seq<(Seq<char>, u64)>, b: Seq<(Seq<char>, u64)>)
    ensures
        0 <= spec_similarity(a, b) <= SCALE,
{
    let na = spec_isqrt(spec_sum_sq(a) as nat);
    let nb = spec_isqrt(spec_sum_sq(b) as nat);
    if na != 0 && nb != 0 {
        lemma_dot_nonneg(a, b);
        assert((na * nb) as int > 0) by (nonlinear_arith)
            requires na > 0 && nb > 0,
        ;
        lemma_mul_nonnegative(spec_dot(a, b), SCALE as int);
        lemma_div_pos_is_pos(spec_dot(a, b) * SCALE, (na * nb) as int);
    }
}

/// Cosine similarity is symmetric.
pub proof fn lemma_similarity_symmetric(a: Seq<(Seq<char>, u64)>, b: Seq<(Seq<char>, u64)>)
    requires
        distinct_keys(a),
        distinct_keys(b),
    ensures
        spec_similarity(a, b) == spec_similarity(b, a),
{
    lemma_dot_symmetric(a, b);
    let na = spec_isqrt(spec_sum_sq(a) as nat);
    let nb = spec_isqrt(spec_sum_sq(b) as nat);
    assert((na * nb) as int == (nb * na) as int) by (nonlinear_arith);
}

/// Distributions that share no word have similarity zero.
pub proof fn lemma_disjoint_similarity(a: Seq<(Seq<char>, u64)>, b: Seq<(Seq<char>, u64)>)
    requires
        forall|i: int, j: int|
            0 <= i < a.len() && 0 <= j < b.len() ==> a[i].0 != b[j].0,
    ensures
        spec_similarity(a, b) == 0,
{
    lemma_dot_disjoint(a, b);
    let na = spec_isqrt(spec_sum_sq(a) as nat);
    let nb = spec_isqrt(spec_sum_sq(b) as nat);
    if na != 0 && nb != 0 {
        assert((na * nb) as int > 0) by (nonlinear_arith)
            requires na > 0 && nb > 0,
        ;
        lemma_div_of0((na * nb) as int);
    }
}

/// A distribution with a positive norm has similarity `SCALE` with itself.
pub proof fn lemma_self_similarity(a: Seq<(Seq<char>, u64)>)
    requires
        distinct_keys(a),
        spec_sum_sq(a) > 0,
    ensures
        spec_similarity(a, a) == SCALE,
{
    lemma_dot_self(a);
    let ssq = spec_sum_sq(a) as nat;
    let r = spec_isqrt(ssq);
    lemma_isqrt_bounds(ssq);
    lemma_isqrt_zero(ssq);
    assert(r >= 1);
    assert((r * r) as int > 0) by (nonlinear_arith)
        requires r >= 1,
    ;
    assert(ssq * SCALE >= (r * r) * SCALE) by (nonlinear_arith)
        requires r * r <= ssq,
    ;
    lemma_div_is_ordered((r * r) * SCALE, ssq as int * SCALE, (r * r) as int);
    lemma_div_multiples_vanish(SCALE as int, (r * r) as int);
    assert((r * r) * SCALE == SCALE * (r * r)) by (nonlinear_arith);
    assert(spec_dot(a, a) * SCALE / ((r * r) as int) >= SCALE);
}

} // verus!
