//! Fixed-point circle functions for the orbit policy.
//!
//! Angles are in milliradians; a full turn is `TURN == 6284`. The sine uses
//! the classic rational approximation `16x(pi - x) / (5 pi^2 - 4x(pi - x))`
//! on the half wave, and the arctangent a quadratic correction of the linear
//! ramp. Both are exact integer formulas, so each executable function equals
//! its spec mirror and stays within `[-SCALE, SCALE]`.

use vstd::prelude::*;
use vstd::arithmetic::div_mod::{
    lemma_div_is_ordered, lemma_div_multiples_vanish, lemma_div_pos_is_pos,
    lemma_mod_sub_multiples_vanish, lemma_small_mod,
};

verus! {

/// A full turn, in milliradians.
pub const TURN: i64 = 6284;

/// Half a turn.
pub const HALF_TURN: i64 = 3142;

/// A quarter turn.
pub const QUARTER_TURN: i64 = 1571;

/// The half-wave sine: for `x` in `[0, HALF_TURN]`, a value in `[0, 1000]`.
pub open spec fn half_sin(x: int) -> int {
    let p = x * (3142 - x);
    (16000 * p) / (49360820 - 4 * p)
}

/// The sine of an angle in `[0, TURN)`, scaled by 1000.
pub open spec fn sin_milli(a: int) -> int {
    if a < 3142 {
        half_sin(a)
    } else {
        -half_sin(a - 3142)
    }
}

/// The cosine of an angle in `[0, TURN)`, scaled by 1000.
pub open spec fn cos_milli(a: int) -> int {
    sin_milli((a + 1571) % 6284)
}

/// The arctangent of `z / 1000` for `z` in `[0, 1000]`, in milliradians.
pub open spec fn atan_unit(z: int) -> int {
    (785 * z) / 1000 + (273 * (z * (1000 - z))) / 1000000
}

/// The angle of the vector `(dx, dy)`, in `[0, TURN)`.
pub open spec fn atan2_milli(dy: int, dx: int) -> int {
    let ax = if dx >= 0 { dx } else { -dx };
    let ay = if dy >= 0 { dy } else { -dy };
    if ax == 0 && ay == 0 {
        0
    } else {
        let base = if ay <= ax {
            atan_unit((1000 * ay) / ax)
        } else {
            1571 - atan_unit((1000 * ax) / ay)
        };
        if dx >= 0 && dy >= 0 {
            base
        } else if dx < 0 && dy >= 0 {
            3142 - base
        } else if dx < 0 {
            3142 + base
        } else if base == 0 {
            0
        } else {
            6284 - base
        }
    }
}

/// The product `x * (w - x)` peaks at the midpoint `m` of `[0, w]`.
proof fn lemma_parabola_bounds(x: int, w: int, m: int)
    requires
        0 <= x <= w,
        w == 2 * m,
    ensures
        0 <= x * (w - x) <= m * m,
{
    assert(x * (w - x) >= 0) by (nonlinear_arith)
        requires
            0 <= x <= w,
    ;
    assert((x - m) * (x - m) >= 0) by (nonlinear_arith);
    assert(x * (w - x) == m * m - (x - m) * (x - m)) by (nonlinear_arith)
        requires
            w == 2 * m,
    ;
}
pub proof fn lemma_half_sin_bounds(x: int)
    requires
        0 <= x <= 3142,
    ensures
        0 <= half_sin(x) <= 1000,
{
    let p = x * (3142 - x);
    lemma_parabola_bounds(x, 3142, 1571);
    assert(1571int * 1571int == 2468041int) by (nonlinear_arith);
    let den = 49360820 - 4 * p;
    lemma_div_pos_is_pos(16000 * p, den);
    assert(16000 * p <= 1000 * den) by (nonlinear_arith)
        requires
            0 <= p <= 2468041,
            den == 49360820 - 4 * p,
    ;
    lemma_div_is_ordered(16000 * p, 1000 * den, den);
    lemma_div_multiples_vanish(1000, den);
    assert(den * 1000 == 1000 * den) by (nonlinear_arith);
}

/// The half-wave sine, executable.
fn half_sin_exec(x: i64) -> (r: i64)
    requires
        0 <= x <= 3142,
    ensures
        r as int == half_sin(x as int),
        0 <= r <= 1000,
{
    proof {
        lemma_half_sin_bounds(x as int);
        lemma_parabola_bounds(x as int, 3142, 1571);
        assert(1571int * 1571int == 2468041int) by (nonlinear_arith);
    }
    let p: u64 = (x as u64) * ((3142 - x) as u64);
    let num: u64 = 16000 * p;
    let den: u64 = 49360820 - 4 * p;
    proof {
        lemma_div_pos_is_pos(num as int, den as int);
        lemma_div_is_ordered(num as int, 49360820000int, den as int);
    }
    (num / den) as i64
}

/// The sine, executable: equals the spec mirror and lies in `[-1000, 1000]`.
pub fn sin_exec(a: i64) -> (r: i64)
    requires
        0 <= a < TURN,
    ensures
        r as int == sin_milli(a as int),
        -1000 <= r <= 1000,
{
    if a < 3142 {
        half_sin_exec(a)
    } else {
        let s = half_sin_exec(a - 3142);
        -s
    }
}

/// The cosine, executable: equals the spec mirror and lies in `[-1000, 1000]`.
pub fn cos_exec(a: i64) -> (r: i64)
    requires
        0 <= a < TURN,
    ensures
        r as int == cos_milli(a as int),
        -1000 <= r <= 1000,
{
    let b: i64 = a + 1571;
    let c: i64 = if b >= 6284 { b - 6284 } else { b };
    proof {
        if b >= 6284 {
            lemma_mod_sub_multiples_vanish(b as int, 6284int);
            lemma_small_mod((b - 6284) as nat, 6284nat);
        } else {
            lemma_small_mod(b as nat, 6284nat);
        }
        assert(c as int == (a as int + 1571) % 6284);
    }
    sin_exec(c)
}

/// The unit arctangent lands in `[0, 1571]`.
pub proof fn lemma_atan_unit_bounds(z: int)
    requires
        0 <= z <= 1000,
    ensures
        0 <= atan_unit(z) <= 1000,
{
    let p = z * (1000 - z);
    lemma_parabola_bounds(z, 1000, 500);
    assert(500int * 500int == 250000int) by (nonlinear_arith);
    assert(0 <= 785 * z <= 785000);
    lemma_div_pos_is_pos(785 * z, 1000);
    lemma_div_is_ordered(785 * z, 785000, 1000);
    lemma_div_pos_is_pos(273 * p, 1000000);
    lemma_div_is_ordered(273 * p, 68250000, 1000000);
}

/// The unit arctangent, executable.
fn atan_unit_exec(z: i64) -> (r: i64)
    requires
        0 <= z <= 1000,
    ensures
        r as int == atan_unit(z as int),
        0 <= r <= 1000,
{
    proof {
        lemma_atan_unit_bounds(z as int);
        lemma_parabola_bounds(z as int, 1000, 500);
        assert(500int * 500int == 250000int) by (nonlinear_arith);
        lemma_div_pos_is_pos(785 * z as int, 1000);
        lemma_div_is_ordered(785 * z as int, 785000, 1000);
        lemma_div_pos_is_pos(273 * ((z as int) * (1000 - z as int)), 1000000);
        lemma_div_is_ordered(273 * ((z as int) * (1000 - z as int)), 68250000, 1000000);
    }
    let t1: u64 = (785 * (z as u64)) / 1000;
    let p: u64 = (z as u64) * ((1000 - z) as u64);
    let t2: u64 = (273 * p) / 1000000;
    (t1 as i64) + (t2 as i64)
}

/// The executable `atan2`: equals the spec mirror and lies in `[0, TURN)`.
pub fn atan2_exec(dy: i64, dx: i64) -> (r: i64)
    requires
        -2_000_000_000 <= dy <= 2_000_000_000,
        -2_000_000_000 <= dx <= 2_000_000_000,
    ensures
        r as int == atan2_milli(dy as int, dx as int),
        0 <= r < TURN,
{
    let ax: i64 = if dx >= 0 { dx } else { -dx };
    let ay: i64 = if dy >= 0 { dy } else { -dy };
    if ax == 0 && ay == 0 {
        return 0;
    }
    let base: i64 = if ay <= ax {
        proof {
            lemma_div_pos_is_pos(1000 * ay as int, ax as int);
            assert(1000 * ay as int <= 1000 * ax as int) by (nonlinear_arith)
                requires
                    ay as int <= ax as int,
            ;
            lemma_div_is_ordered(1000 * ay as int, 1000 * ax as int, ax as int);
            lemma_div_multiples_vanish(1000, ax as int);
            assert((ax as int) * 1000 == 1000 * (ax as int)) by (nonlinear_arith);
        }
        let z: u64 = (1000 * (ay as u64)) / (ax as u64);
        atan_unit_exec(z as i64)
    } else {
        proof {
            lemma_div_pos_is_pos(1000 * ax as int, ay as int);
            assert(1000 * ax as int <= 1000 * ay as int) by (nonlinear_arith)
                requires
                    ax as int <= ay as int,
            ;
            lemma_div_is_ordered(1000 * ax as int, 1000 * ay as int, ay as int);
            lemma_div_multiples_vanish(1000, ay as int);
            assert((ay as int) * 1000 == 1000 * (ay as int)) by (nonlinear_arith);
        }
        let z: u64 = (1000 * (ax as u64)) / (ay as u64);
        1571 - atan_unit_exec(z as i64)
    };
    if dx >= 0 && dy >= 0 {
        base
    } else if dx < 0 && dy >= 0 {
        3142 - base
    } else if dx < 0 {
        3142 + base
    } else if base == 0 {
        0
    } else {
        6284 - base
    }
}

} // verus!
