//! Fixed-point arithmetic for the comparison pipeline.
//!
//! A ratio in [0, 1] is held as an integer number of parts per `SCALE`.
//! Every operation is exact integer arithmetic, so no value in the pipeline
//! can ever be not-a-number or infinite.

use vstd::prelude::*;
use vstd::arithmetic::div_mod::{lemma_div_is_ordered, lemma_div_multiples_vanish};

verus! {

/// The fixed-point unit: the integer that stands for the real number 1.0.
pub const SCALE: u64 = 1_000_000;

/// Largest token count the pipeline accepts; keeps `count * SCALE` within `u64`.
pub const MAX_TOKENS: u64 = 1_000_000_000_000;

/// What `clamp` returns: `value` pulled into `[lo, hi]`.
pub open spec fn spec_clamp(value: int, lo: int, hi: int) -> int {
    if value > hi {
        hi
    } else if value < lo {
        lo
    } else {
        value
    }
}

/// Clamps `value` into the interval `[lo, hi]`.
pub fn clamp(value: u64, lo: u64, hi: u64) -> (r: u64)
    requires
        lo <= hi,
    ensures
        r == spec_clamp(value as int, lo as int, hi as int),
{
    if value > hi {
        hi
    } else if value < lo {
        lo
    } else {
        value
    }
}

/// The scaled quotient `num / den`, and 0 on a zero denominator, so that a
/// degenerate input yields a defined value instead of a division fault.
pub open spec fn spec_ratio(num: int, den: int) -> int {
    if den <= 0 {
        0
    } else {
        num * SCALE / den
    }
}

/// The scaled quotient of two counts: `num / den` in parts per `SCALE`,
/// and 0 on a zero denominator.
pub fn ratio_of(num: u64, den: u64) -> (r: u64)
    requires
        spec_ratio(num as int, den as int) <= u64::MAX,
    ensures
        r == spec_ratio(num as int, den as int),
{
    if den == 0 {
        0
    } else {
        let q: u128 = (num as u128) * (SCALE as u128) / (den as u128);
        q as u64
    }
}

/// A scaled ratio of a part to a whole never exceeds `SCALE`.
pub proof fn lemma_ratio_le_scale(num: int, den: int)
    requires
        0 <= num <= den,
    ensures
        0 <= spec_ratio(num, den) <= SCALE,
{
    if den > 0 {
        assert(num * SCALE <= den * SCALE) by (nonlinear_arith)
            requires 0 <= num <= den,
        ;
        lemma_div_is_ordered(num * SCALE, den * SCALE, den);
        lemma_div_multiples_vanish(SCALE as int, den);
        assert(num * SCALE / den >= 0) by (nonlinear_arith)
            requires num >= 0 && den > 0,
        ;
    }
}

/// A scaled ratio never exceeds `num * SCALE`, whatever the denominator.
pub proof fn lemma_ratio_le_numerator(num: int, den: int)
    requires
        0 <= num,
    ensures
        0 <= spec_ratio(num, den) <= num * SCALE,
{
    if den > 0 {
        vstd::arithmetic::div_mod::lemma_div_nonincreasing(num * SCALE, den);
        assert(num * SCALE >= 0) by (nonlinear_arith)
            requires num >= 0,
        ;
        assert(num * SCALE / den >= 0) by (nonlinear_arith)
            requires num >= 0 && den > 0,
        ;
    } else {
        assert(num * SCALE >= 0) by (nonlinear_arith)
            requires num >= 0,
        ;
    }
}

/// The integer square root: the largest `r` with `r * r <= n`.
pub open spec fn spec_isqrt(n: nat) -> nat
    decreases n,
{
    if n == 0 {
        0
    } else {
        let r = spec_isqrt((n - 1) as nat);
        if (r + 1) * (r + 1) <= n {
            r + 1
        } else {
            r
        }
    }
}

/// `spec_isqrt(n)` squared is at most `n`, and the next square is above `n`.
pub proof fn lemma_isqrt_bounds(n: nat)
    ensures
        spec_isqrt(n) * spec_isqrt(n) <= n,
        n < (spec_isqrt(n) + 1) * (spec_isqrt(n) + 1),
    decreases n,
{
    if n == 0 {
        let s = spec_isqrt(n);
        assert(s == 0);
        assert(n < (s + 1) * (s + 1)) by (nonlinear_arith)
            requires s == 0 && n == 0,
        ;
    } else {
        lemma_isqrt_bounds((n - 1) as nat);
        let p = spec_isqrt((n - 1) as nat);
        if (p + 1) * (p + 1) <= n {
            assert(spec_isqrt(n) == p + 1);
            assert(n == (p + 1) * (p + 1));
            assert((p + 2) * (p + 2) > (p + 1) * (p + 1)) by (nonlinear_arith);
            assert(spec_isqrt(n) * spec_isqrt(n) <= n);
            assert(n < (spec_isqrt(n) + 1) * (spec_isqrt(n) + 1));
        } else {
            assert(spec_isqrt(n) == p);
            assert(spec_isqrt(n) * spec_isqrt(n) <= n);
            assert(n < (spec_isqrt(n) + 1) * (spec_isqrt(n) + 1));
        }
    }
}

/// Any `r` whose square brackets `n` is the integer square root of `n`.
pub proof fn lemma_isqrt_unique(n: nat, r: nat)
    requires
        r * r <= n,
        n < (r + 1) * (r + 1),
    ensures
        r == spec_isqrt(n),
{
    let s = spec_isqrt(n);
    lemma_isqrt_bounds(n);
    if r < s {
        assert((r + 1) * (r + 1) <= s * s) by (nonlinear_arith)
            requires r + 1 <= s,
        ;
    }
    if s < r {
        assert((s + 1) * (s + 1) <= r * r) by (nonlinear_arith)
            requires s + 1 <= r,
        ;
    }
}

/// The integer square root of `n` is zero exactly when `n` is zero.
pub proof fn lemma_isqrt_zero(n: nat)
    ensures
        (spec_isqrt(n) == 0) <==> (n == 0),
{
    lemma_isqrt_bounds(n);
    let s = spec_isqrt(n);
    if s == 0 {
        assert((s + 1) * (s + 1) == 1) by (nonlinear_arith)
            requires s == 0,
        ;
    }
}

/// The integer square root, by binary search on the root.
pub fn isqrt(n: u128) -> (r: u128)
    ensures
        r == spec_isqrt(n as nat),
        r <= u64::MAX,
{
    let mut lo: u128 = 0;
    let mut hi: u128 = if n < u64::MAX as u128 {
        n
    } else {
        u64::MAX as u128
    };
    proof {
        assert((hi as int + 1) * (hi as int + 1) > n) by (nonlinear_arith)
            requires
                hi == n && n < u64::MAX || hi == u64::MAX && n <= u128::MAX,
        ;
    }
    while lo < hi
        invariant
            lo <= hi <= u64::MAX,
            lo * lo <= n,
            (hi as int + 1) * (hi as int + 1) > n,
        decreases hi - lo,
    {
        let mid: u128 = lo + (hi - lo + 1) / 2;
        proof {
            assert(lo < mid <= hi);
            assert(mid * mid <= u128::MAX) by (nonlinear_arith)
                requires mid <= u64::MAX,
            ;
        }
        if mid * mid <= n {
            lo = mid;
        } else {
            hi = mid - 1;
        }
    }
    proof {
        lemma_isqrt_unique(n as nat, lo as nat);
    }
    lo
}

} // verus!
