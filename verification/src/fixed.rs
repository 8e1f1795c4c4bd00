//! Fixed-point arithmetic: truncating division and integer square root.
//!
//! Coordinates, velocities and parameters are `i64` values in thousandths of
//! a world unit. Division here truncates toward zero, as the hardware does,
//! and the spec functions model exactly that, so every executable result is
//! pinned by its spec-level counterpart.

use vstd::prelude::*;
use vstd::arithmetic::div_mod::{lemma_div_is_ordered, lemma_div_nonincreasing, lemma_div_pos_is_pos};

verus! {

/// One world unit, in millis.
pub const SCALE: i64 = 1000;

/// Largest magnitude of a coordinate or world bound, in millis.
pub const COORD_LIMIT: i64 = 1_000_000_000;

/// Largest magnitude of a force parameter (pointer force, max attraction).
pub const FORCE_LIMIT: i64 = 1_000_000;

/// Largest pointer influence radius, in millis.
pub const RADIUS_LIMIT: i64 = 1_000_000;

/// Largest magnitude of a particle's base drift velocity, in millis per frame.
pub const VEL_LIMIT: i64 = 1_000_000;

/// Largest orbit radius a particle can hold, in millis.
pub const ORBIT_RADIUS_LIMIT: i64 = 2_000_000;

/// Largest particle count a store accepts.
pub const COUNT_LIMIT: usize = 100_000_000;

/// Division truncating toward zero, the rounding the executable code uses.
pub open spec fn tdiv(a: int, b: int) -> int
    recommends
        b > 0,
{
    if a >= 0 {
        a / b
    } else {
        -((-a) / b)
    }
}

/// Truncating division shrinks the magnitude: `|a / b| <= cap / b <= cap`
/// whenever `|a| <= cap`.
pub proof fn lemma_tdiv_bounds(a: int, b: int, cap: int)
    requires
        b > 0,
        0 <= cap,
        -cap <= a <= cap,
    ensures
        -(cap / b) <= tdiv(a, b) <= cap / b,
        cap / b <= cap,
{
    lemma_div_nonincreasing(cap, b);
    lemma_div_pos_is_pos(cap, b);
    if a >= 0 {
        lemma_div_pos_is_pos(a, b);
        lemma_div_is_ordered(a, cap, b);
    } else {
        lemma_div_pos_is_pos(-a, b);
        lemma_div_is_ordered(-a, cap, b);
    }
}

/// The magnitude of an integer.
pub open spec fn abs_i(a: int) -> int {
    if a >= 0 {
        a
    } else {
        -a
    }
}

/// The magnitude of an `i64`.
pub fn abs64(a: i64) -> (r: i64)
    requires
        a > i64::MIN,
    ensures
        r as int == abs_i(a as int),
        0 <= r,
{
    if a >= 0 {
        a
    } else {
        -a
    }
}

/// Dividing a value of magnitude at most `b * c` by `b` gives magnitude at
/// most `c`.
pub proof fn lemma_tdiv_cap(a: int, b: int, c: int)
    requires
        b > 0,
        0 <= c,
        -(b * c) <= a <= b * c,
    ensures
        -c <= tdiv(a, b) <= c,
{
    if a >= 0 {
        vstd::arithmetic::div_mod::lemma_multiply_divide_le(a, b, c);
        lemma_div_pos_is_pos(a, b);
    } else {
        vstd::arithmetic::div_mod::lemma_multiply_divide_le(-a, b, c);
        lemma_div_pos_is_pos(-a, b);
    }
}

/// Truncating division keeps the sign of the dividend.
pub proof fn lemma_tdiv_sign(a: int, b: int)
    requires
        b > 0,
    ensures
        a >= 0 ==> tdiv(a, b) >= 0,
        a <= 0 ==> tdiv(a, b) <= 0,
{
    if a >= 0 {
        lemma_div_pos_is_pos(a, b);
    } else {
        lemma_div_pos_is_pos(-a, b);
    }
}

/// Truncating division of an `i64` by a positive `i64`.
pub fn tdiv64(a: i64, b: i64) -> (r: i64)
    requires
        0 < b,
        a > i64::MIN,
    ensures
        r as int == tdiv(a as int, b as int),
{
    if a >= 0 {
        let q: u64 = (a as u64) / (b as u64);
        proof {
            lemma_div_nonincreasing(a as int, b as int);
            lemma_div_pos_is_pos(a as int, b as int);
        }
        q as i64
    } else {
        let q: u64 = ((-a) as u64) / (b as u64);
        proof {
            lemma_div_nonincreasing(-a as int, b as int);
            lemma_div_pos_is_pos(-a as int, b as int);
        }
        -(q as i64)
    }
}

/// The integer square root: the greatest `r` with `r * r <= n`.
pub open spec fn isqrt_spec(n: int) -> int
    decreases n,
{
    if n <= 0 {
        0
    } else {
        let r = isqrt_spec(n - 1);
        if (r + 1) * (r + 1) <= n {
            r + 1
        } else {
            r
        }
    }
}

/// `isqrt_spec(n)` is the floor of the square root of `n`.
pub proof fn lemma_isqrt_props(n: int)
    requires
        0 <= n,
    ensures
        0 <= isqrt_spec(n),
        isqrt_spec(n) * isqrt_spec(n) <= n,
        n < (isqrt_spec(n) + 1) * (isqrt_spec(n) + 1),
    decreases n,
{
    if n == 0 {
        assert(isqrt_spec(0) == 0);
    } else {
        lemma_isqrt_props(n - 1);
        let r = isqrt_spec(n - 1);
        if (r + 1) * (r + 1) <= n {
            assert((r + 1 + 1) * (r + 1 + 1) > n) by (nonlinear_arith)
                requires
                    0 <= r,
                    n - 1 < (r + 1) * (r + 1),
            ;
        }
    }
}

/// Any `r` in the square-root window equals `isqrt_spec(n)`.
pub proof fn lemma_isqrt_unique(n: int, r: int)
    requires
        0 <= r,
        r * r <= n,
        n < (r + 1) * (r + 1),
    ensures
        r == isqrt_spec(n),
{
    lemma_isqrt_props(n);
    let s = isqrt_spec(n);
    assert(r == s) by (nonlinear_arith)
        requires
            0 <= r,
            0 <= s,
            r * r <= n,
            n < (r + 1) * (r + 1),
            s * s <= n,
            n < (s + 1) * (s + 1),
    ;
}

/// A square below `n` has its root below `isqrt_spec(n)`.
pub proof fn lemma_isqrt_ge_abs(d: int, n: int)
    requires
        d * d <= n,
    ensures
        -isqrt_spec(n) <= d <= isqrt_spec(n),
{
    assert(0 <= n) by (nonlinear_arith)
        requires
            d * d <= n,
    ;
    lemma_isqrt_props(n);
    let s = isqrt_spec(n);
    assert(-s <= d <= s) by (nonlinear_arith)
        requires
            0 <= s,
            d * d <= n,
            n < (s + 1) * (s + 1),
    ;
}

/// `n < b * b` puts the root strictly below `b`.
pub proof fn lemma_isqrt_below(n: int, b: int)
    requires
        0 <= n,
        0 <= b,
        n < b * b,
    ensures
        isqrt_spec(n) < b,
{
    lemma_isqrt_props(n);
    let s = isqrt_spec(n);
    assert(s < b) by (nonlinear_arith)
        requires
            0 <= s,
            0 <= b,
            s * s <= n,
            n < b * b,
    ;
}

/// Integer square root of an `i64`, by binary search.
pub fn isqrt64(n: i64) -> (r: i64)
    requires
        0 <= n <= 8_100_000_000_000_000_000,
    ensures
        r as int == isqrt_spec(n as int),
        0 <= r <= 3_000_000_000,
        r * r <= n,
{
    let nn: u64 = n as u64;
    let mut lo: u64 = 0;
    let mut hi: u64 = 3_000_000_000;
    assert(3_000_000_000int * 3_000_000_000int > n as int);
    while lo + 1 < hi
        invariant
            lo < hi <= 3_000_000_000,
            nn == n,
            (lo * lo) as int <= n as int,
            (n as int) < (hi * hi) as int,
        decreases hi - lo,
    {
        let mid: u64 = lo + (hi - lo) / 2;
        proof {
            assert(mid < hi);
            assert((mid as int) * (mid as int) <= 9_000_000_000_000_000_000int) by (nonlinear_arith)
                requires
                    0 <= mid as int <= 3_000_000_000int,
            ;
        }
        if mid * mid <= nn {
            lo = mid;
        } else {
            hi = mid;
        }
    }
    proof {
        assert(hi == lo + 1);
        lemma_isqrt_unique(n as int, lo as int);
        assert((lo as int) * (lo as int) <= n as int);
    }
    lo as i64
}

} // verus!
