//! One simulation step of a single particle.
//!
//! The spec functions here are the mathematical model of a step: velocity
//! from pointer influence, integration, and border handling, for both motion
//! policies. `step_particle` is the executable twin; its contract pins every
//! field of the particle it returns, the recorded pointer link, and the
//! random-source state, so a whole frame is a function of the prior state.

use vstd::prelude::*;
use crate::fixed::{
    abs_i, abs64, isqrt_spec, isqrt64, lemma_isqrt_below, lemma_isqrt_ge_abs, lemma_tdiv_cap,
    lemma_tdiv_sign, tdiv, tdiv64, COORD_LIMIT, SCALE, VEL_LIMIT,
};
use crate::particle::{
    params_wf, particle_wf, pointer_active, MotionPolicy, Particle, SimParams,
};
use crate::rng::{lcg_in_range, lcg_next, Lcg};
use crate::trig::{atan2_milli, atan2_exec, cos_milli, cos_exec, sin_milli, sin_exec, TURN};

verus! {

/// Squared distance from the particle to the pointer.
pub open spec fn dist_sq_to_pointer(p: Particle, ps: SimParams) -> int {
    (p.x - ps.mouse_x) * (p.x - ps.mouse_x) + (p.y - ps.mouse_y) * (p.y - ps.mouse_y)
}

/// Whether the pointer influences this particle: the pointer is on screen,
/// has a positive radius (the zero-radius guard), and the particle is within
/// it.
pub open spec fn pointer_near(p: Particle, ps: SimParams) -> bool {
    &&& pointer_active(ps)
    &&& ps.mouse_radius > 0
    &&& dist_sq_to_pointer(p, ps) < ps.mouse_radius * ps.mouse_radius
}

/// Distance from the particle to the pointer (floor of the square root).
pub open spec fn dist_to_pointer(p: Particle, ps: SimParams) -> int {
    isqrt_spec(dist_sq_to_pointer(p, ps))
}

/// The pointer link strength under the bounce policy:
/// `edge_factor^2 * mouse_force`, all in millis.
pub open spec fn bounce_strength(p: Particle, ps: SimParams) -> int {
    let ef = 1000 - tdiv(1000 * dist_to_pointer(p, ps), ps.mouse_radius as int);
    tdiv(ef * ef * ps.mouse_force, 1000000)
}

/// The pointer link strength under the orbit policy:
/// `1 - distance / mouse_radius`, in millis.
pub open spec fn orbit_strength(p: Particle, ps: SimParams) -> int {
    1000 - tdiv(1000 * dist_to_pointer(p, ps), ps.mouse_radius as int)
}

/// Whether this step records a pointer link for the particle.
pub open spec fn has_link(p: Particle, ps: SimParams) -> bool {
    pointer_near(p, ps)
}

/// The strength the recorded link carries, per policy.
pub open spec fn link_strength(p: Particle, ps: SimParams) -> int {
    match ps.policy {
        MotionPolicy::Bounce => bounce_strength(p, ps),
        MotionPolicy::Orbit => orbit_strength(p, ps),
    }
}

/// The step velocity under the bounce policy: the base drift, plus an inward
/// pull when the pointer is near (guarded against the zero-distance
/// division).
pub open spec fn bounce_vel_x(p: Particle, ps: SimParams) -> int {
    if pointer_near(p, ps) && dist_to_pointer(p, ps) > 0 {
        let t = tdiv(bounce_strength(p, ps) * ps.max_attraction_force, 1000);
        p.base_vx - tdiv((p.x - ps.mouse_x) * t, dist_to_pointer(p, ps))
    } else {
        p.base_vx as int
    }
}

/// As `bounce_vel_x`, for the vertical axis.
pub open spec fn bounce_vel_y(p: Particle, ps: SimParams) -> int {
    if pointer_near(p, ps) && dist_to_pointer(p, ps) > 0 {
        let t = tdiv(bounce_strength(p, ps) * ps.max_attraction_force, 1000);
        p.base_vy - tdiv((p.y - ps.mouse_y) * t, dist_to_pointer(p, ps))
    } else {
        p.base_vy as int
    }
}

/// Border handling on one axis under the bounce policy: clamp the tentative
/// position into `[0, bound]` and reflect the base drift away from the
/// violated edge, scaled by the restitution.
pub open spec fn bounce_axis(t: int, bound: int, bv: int, rest: int) -> (int, int) {
    if t < 0 {
        (0, tdiv(abs_i(bv) * rest, 1000))
    } else if t > bound {
        (bound, -tdiv(abs_i(bv) * rest, 1000))
    } else {
        (t, bv)
    }
}

/// Border handling on one axis under the orbit policy: teleport to the
/// opposite edge; the flag reports the crossing.
pub open spec fn wrap_axis(t: int, bound: int) -> (int, bool) {
    if t < 0 {
        (bound, true)
    } else if t > bound {
        (0, true)
    } else {
        (t, false)
    }
}

/// Whether the orbit policy draws from the random source this step: only a
/// particle that stays captured redraws its target radius.
pub open spec fn orbit_ease_branch(p: Particle, ps: SimParams) -> bool {
    pointer_near(p, ps) && p.is_orbiting
}

/// The random-source state after one particle's step.
pub open spec fn step_rng(p: Particle, ps: SimParams, rng0: u64) -> u64 {
    if ps.policy == MotionPolicy::Orbit && orbit_ease_branch(p, ps) {
        lcg_next(rng0)
    } else {
        rng0
    }
}

/// The orbit angle after the pointer phase: advanced while captured,
/// acquired by `atan2` at capture, untouched otherwise.
pub open spec fn orbit_angle_after(p: Particle, ps: SimParams) -> int {
    if pointer_near(p, ps) {
        if p.is_orbiting {
            let a = p.orbit_angle + p.orbit_speed;
            if a >= TURN {
                a - TURN
            } else {
                a
            }
        } else {
            atan2_milli(p.y - ps.mouse_y, p.x - ps.mouse_x)
        }
    } else {
        p.orbit_angle as int
    }
}

/// The orbit radius after the pointer phase: eased toward a fresh random
/// target in `[0.6, 1.5) * mouse_radius` while captured, set to the current
/// distance at capture, decayed by 0.95 on release, untouched when the
/// pointer is away.
pub open spec fn orbit_radius_after(p: Particle, ps: SimParams, rng0: u64) -> int {
    if pointer_near(p, ps) {
        if p.is_orbiting {
            let lo = tdiv(6 * ps.mouse_radius, 10);
            let hi = tdiv(15 * ps.mouse_radius, 10);
            if lo < hi {
                let tgt = lcg_in_range(lcg_next(rng0), lo, hi);
                p.orbit_radius + tdiv(tgt - p.orbit_radius, 20)
            } else {
                p.orbit_radius as int
            }
        } else {
            dist_to_pointer(p, ps)
        }
    } else if pointer_active(ps) {
        tdiv(p.orbit_radius * 95, 100)
    } else {
        p.orbit_radius as int
    }
}

/// The step velocity under the orbit policy: while the pointer is near,
/// velocity eases toward the point on the orbit circle, blended with the
/// base drift by the attraction strength; otherwise the base drift alone.
pub open spec fn orbit_vel_x(p: Particle, ps: SimParams, rng0: u64) -> int {
    if pointer_near(p, ps) {
        let ang = orbit_angle_after(p, ps);
        let rad = orbit_radius_after(p, ps, rng0);
        let tx = ps.mouse_x + tdiv(rad * cos_milli(ang), 1000);
        let s = orbit_strength(p, ps);
        tdiv(tdiv(tx - p.x, 10) * s + p.base_vx * (1000 - s), 1000)
    } else {
        p.base_vx as int
    }
}

/// As `orbit_vel_x`, for the vertical axis (the sine side of the circle).
pub open spec fn orbit_vel_y(p: Particle, ps: SimParams, rng0: u64) -> int {
    if pointer_near(p, ps) {
        let ang = orbit_angle_after(p, ps);
        let rad = orbit_radius_after(p, ps, rng0);
        let ty = ps.mouse_y + tdiv(rad * sin_milli(ang), 1000);
        let s = orbit_strength(p, ps);
        tdiv(tdiv(ty - p.y, 10) * s + p.base_vy * (1000 - s), 1000)
    } else {
        p.base_vy as int
    }
}

/// The full effect of one bounce-policy step on one particle.
pub open spec fn step_bounce_rel(p: Particle, ps: SimParams, q: Particle, link: Option<i64>) -> bool {
    let vx = bounce_vel_x(p, ps);
    let vy = bounce_vel_y(p, ps);
    let bx = bounce_axis(p.x + vx, ps.width as int, p.base_vx as int, ps.border_restitution as int);
    let by = bounce_axis(p.y + vy, ps.height as int, p.base_vy as int, ps.border_restitution as int);
    &&& q.x == bx.0
    &&& q.y == by.0
    &&& q.base_vx == bx.1
    &&& q.base_vy == by.1
    &&& q.vx == vx
    &&& q.vy == vy
    &&& q.size == p.size
    &&& q.orbit_angle == p.orbit_angle
    &&& q.orbit_speed == p.orbit_speed
    &&& q.orbit_radius == p.orbit_radius
    &&& q.is_orbiting == p.is_orbiting
    &&& link == (if has_link(p, ps) {
        Some(bounce_strength(p, ps) as i64)
    } else {
        None::<i64>
    })
}

/// The full effect of one orbit-policy step on one particle.
pub open spec fn step_orbit_rel(
    p: Particle,
    ps: SimParams,
    rng0: u64,
    q: Particle,
    link: Option<i64>,
) -> bool {
    let vx = orbit_vel_x(p, ps, rng0);
    let vy = orbit_vel_y(p, ps, rng0);
    let wx = wrap_axis(p.x + vx, ps.width as int);
    let wy = wrap_axis(p.y + vy, ps.height as int);
    &&& q.x == wx.0
    &&& q.y == wy.0
    &&& q.base_vx == p.base_vx
    &&& q.base_vy == p.base_vy
    &&& q.vx == vx
    &&& q.vy == vy
    &&& q.size == p.size
    &&& q.orbit_angle == orbit_angle_after(p, ps)
    &&& q.orbit_speed == p.orbit_speed
    &&& q.orbit_radius == orbit_radius_after(p, ps, rng0)
    &&& q.is_orbiting == (pointer_near(p, ps) && !wx.1 && !wy.1)
    &&& link == (if has_link(p, ps) {
        Some(orbit_strength(p, ps) as i64)
    } else {
        None::<i64>
    })
}

/// One particle's step, both policies, with the random source threaded.
pub open spec fn step_particle_rel(
    p: Particle,
    ps: SimParams,
    rng0: u64,
    q: Particle,
    link: Option<i64>,
    rng1: u64,
) -> bool {
    &&& rng1 == step_rng(p, ps, rng0)
    &&& match ps.policy {
        MotionPolicy::Bounce => step_bounce_rel(p, ps, q, link),
        MotionPolicy::Orbit => step_orbit_rel(p, ps, rng0, q, link),
    }
}

/// The squared distance and its root, with the bounds the step needs.
fn pointer_distance(p: Particle, ps: SimParams) -> (r: (i64, i64))
    requires
        particle_wf(p),
        params_wf(ps),
    ensures
        r.0 as int == dist_sq_to_pointer(p, ps),
        r.1 as int == dist_to_pointer(p, ps),
        0 <= r.1 <= 3_000_000_000,
        (r.1 as int) * (r.1 as int) <= r.0 as int,
{
    let dx = p.x - ps.mouse_x;
    let dy = p.y - ps.mouse_y;
    proof {
        assert(0 <= (dx as int) * (dx as int) <= 4_000_000_000_000_000_000int) by (nonlinear_arith)
            requires
                -2_000_000_000 <= dx as int <= 2_000_000_000,
        ;
        assert(0 <= (dy as int) * (dy as int) <= 4_000_000_000_000_000_000int) by (nonlinear_arith)
            requires
                -2_000_000_000 <= dy as int <= 2_000_000_000,
        ;
    }
    let dsq = dx * dx + dy * dy;
    let d = isqrt64(dsq);
    (dsq, d)
}

/// Advance one particle by one frame.
///
/// The contract is functional: every field of the returned particle, the
/// returned link, and the random-source state are pinned by the spec model,
/// the particle keeps its well-formedness bounds, and it lands inside the
/// world whenever the bounds are non-negative.
pub fn step_particle(p: Particle, ps: SimParams, rng: &mut Lcg) -> (r: (Particle, Option<i64>))
    requires
        particle_wf(p),
        params_wf(ps),
    ensures
        step_particle_rel(p, ps, old(rng).state, r.0, r.1, final(rng).state),
        particle_wf(r.0),
        ps.width >= 0 && ps.height >= 0 ==> 0 <= r.0.x <= ps.width && 0 <= r.0.y <= ps.height,
{
    let active = ps.mouse_x >= 0 && ps.mouse_y >= 0 && ps.mouse_x <= ps.width
        && ps.mouse_y <= ps.height;
    proof {
        assert(active == pointer_active(ps));
        assert(0 <= (ps.mouse_radius as int) * (ps.mouse_radius as int)
            <= 1_000_000_000_000int) by (nonlinear_arith)
            requires
                0 <= ps.mouse_radius as int <= 1_000_000,
        ;
    }
    let near = if active && ps.mouse_radius > 0 {
        let dx = p.x - ps.mouse_x;
        let dy = p.y - ps.mouse_y;
        proof {
            assert(0 <= (dx as int) * (dx as int) <= 4_000_000_000_000_000_000int)
                by (nonlinear_arith)
                requires
                    -2_000_000_000 <= dx as int <= 2_000_000_000,
            ;
            assert(0 <= (dy as int) * (dy as int) <= 4_000_000_000_000_000_000int)
                by (nonlinear_arith)
                requires
                    -2_000_000_000 <= dy as int <= 2_000_000_000,
            ;
        }
        dx * dx + dy * dy < ps.mouse_radius * ps.mouse_radius
    } else {
        false
    };
    proof {
        assert(near == pointer_near(p, ps));
    }
    match ps.policy {
        MotionPolicy::Bounce => step_bounce(p, ps, near),
        MotionPolicy::Orbit => step_orbit(p, ps, near, rng),
    }
}

/// The bounce-policy body of `step_particle`.
fn step_bounce(p: Particle, ps: SimParams, near: bool) -> (r: (Particle, Option<i64>))
    requires
        particle_wf(p),
        params_wf(ps),
        near == pointer_near(p, ps),
    ensures
        step_bounce_rel(p, ps, r.0, r.1),
        particle_wf(r.0),
        ps.width >= 0 && ps.height >= 0 ==> 0 <= r.0.x <= ps.width && 0 <= r.0.y <= ps.height,
{
    let mut vx = p.base_vx;
    let mut vy = p.base_vy;
    let mut link: Option<i64> = None;
    if near {
        let (dsq, d) = pointer_distance(p, ps);
        proof {
            lemma_isqrt_below(dsq as int, ps.mouse_radius as int);
            lemma_tdiv_sign(1000 * d as int, ps.mouse_radius as int);
            assert(1000 * (d as int) < (ps.mouse_radius as int) * 1000) by (nonlinear_arith)
                requires
                    0 <= d as int,
                    (d as int) < ps.mouse_radius as int,
            ;
            vstd::arithmetic::div_mod::lemma_multiply_divide_lt(
                1000 * d as int,
                ps.mouse_radius as int,
                1000,
            );
        }
        let ef = 1000 - tdiv64(1000 * d, ps.mouse_radius);
        proof {
            assert(1 <= ef as int <= 1000);
            assert(0 <= (ef as int) * (ef as int) <= 1_000_000int) by (nonlinear_arith)
                requires
                    0 <= ef as int <= 1000,
            ;
            assert(-1_000_000_000_000int <= (ef as int) * (ef as int) * (ps.mouse_force as int)
                <= 1_000_000_000_000int) by (nonlinear_arith)
                requires
                    0 <= ef as int <= 1000,
                    -1_000_000 <= ps.mouse_force as int <= 1_000_000,
            ;
            lemma_tdiv_cap((ef as int) * (ef as int) * (ps.mouse_force as int), 1000000, 1000000);
        }
        let strength = tdiv64(ef * ef * ps.mouse_force, 1000000);
        link = Some(strength);
        if d > 0 {
            proof {
                assert(-1_000_000_000_000int
                    <= (strength as int) * (ps.max_attraction_force as int)
                    <= 1_000_000_000_000int) by (nonlinear_arith)
                    requires
                        -1_000_000 <= strength as int <= 1_000_000,
                        -1_000_000 <= ps.max_attraction_force as int <= 1_000_000,
                ;
                lemma_tdiv_cap(
                    (strength as int) * (ps.max_attraction_force as int),
                    1000,
                    1_000_000_000,
                );
            }
            let t = tdiv64(strength * ps.max_attraction_force, 1000);
            let dx = p.x - ps.mouse_x;
            let dy = p.y - ps.mouse_y;
            proof {
                assert((dx as int) * (dx as int) <= dsq as int
                    && (dy as int) * (dy as int) <= dsq as int) by (nonlinear_arith)
                    requires
                        dsq as int == (dx as int) * (dx as int) + (dy as int) * (dy as int),
                ;
                lemma_isqrt_ge_abs(dx as int, dsq as int);
                lemma_isqrt_ge_abs(dy as int, dsq as int);
                assert(-(d as int) * 1_000_000_000 <= (dx as int) * (t as int)
                    <= (d as int) * 1_000_000_000) by (nonlinear_arith)
                    requires
                        -(d as int) <= dx as int <= d as int,
                        -1_000_000_000 <= t as int <= 1_000_000_000,
                        0 < d as int,
                ;
                assert(-(d as int) * 1_000_000_000 <= (dy as int) * (t as int)
                    <= (d as int) * 1_000_000_000) by (nonlinear_arith)
                    requires
                        -(d as int) <= dy as int <= d as int,
                        -1_000_000_000 <= t as int <= 1_000_000_000,
                        0 < d as int,
                ;
                lemma_tdiv_cap((dx as int) * (t as int), d as int, 1_000_000_000);
                lemma_tdiv_cap((dy as int) * (t as int), d as int, 1_000_000_000);
            }
            let fx = tdiv64(dx * t, d);
            let fy = tdiv64(dy * t, d);
            vx = p.base_vx - fx;
            vy = p.base_vy - fy;
        }
    }
    let (qx, qbvx) = bounce_axis_exec(p.x + vx, ps.width, p.base_vx, ps.border_restitution);
    let (qy, qbvy) = bounce_axis_exec(p.y + vy, ps.height, p.base_vy, ps.border_restitution);
    let q = Particle {
        x: qx,
        y: qy,
        vx,
        vy,
        size: p.size,
        base_vx: qbvx,
        base_vy: qbvy,
        orbit_angle: p.orbit_angle,
        orbit_speed: p.orbit_speed,
        orbit_radius: p.orbit_radius,
        is_orbiting: p.is_orbiting,
    };
    (q, link)
}

/// Border handling on one axis under the bounce policy, executable.
fn bounce_axis_exec(t: i64, bound: i64, bv: i64, rest: i64) -> (r: (i64, i64))
    requires
        -3_000_000_000 <= t as int <= 3_000_000_000,
        -COORD_LIMIT <= bound <= COORD_LIMIT,
        -VEL_LIMIT <= bv <= VEL_LIMIT,
        0 <= rest <= SCALE,
    ensures
        (r.0 as int, r.1 as int) == bounce_axis(t as int, bound as int, bv as int, rest as int),
        -COORD_LIMIT <= r.0 <= COORD_LIMIT,
        -VEL_LIMIT <= r.1 <= VEL_LIMIT,
        bound >= 0 ==> 0 <= r.0 <= bound,
{
    proof {
        assert(0 <= abs_i(bv as int) * (rest as int) <= 1000 * abs_i(bv as int))
            by (nonlinear_arith)
            requires
                0 <= rest as int <= 1000,
                0 <= abs_i(bv as int),
        ;
        lemma_tdiv_cap(abs_i(bv as int) * (rest as int), 1000, abs_i(bv as int));
        lemma_tdiv_sign(abs_i(bv as int) * (rest as int), 1000);
    }
    let flip = tdiv64(abs64(bv) * rest, 1000);
    if t < 0 {
        (0, flip)
    } else if t > bound {
        (bound, -flip)
    } else {
        (t, bv)
    }
}

/// The orbit-policy body of `step_particle`.
fn step_orbit(p: Particle, ps: SimParams, near: bool, rng: &mut Lcg) -> (r: (Particle, Option<i64>))
    requires
        particle_wf(p),
        params_wf(ps),
        near == pointer_near(p, ps),
    ensures
        step_orbit_rel(p, ps, old(rng).state, r.0, r.1),
        final(rng).state == (if orbit_ease_branch(p, ps) {
            lcg_next(old(rng).state)
        } else {
            old(rng).state
        }),
        particle_wf(r.0),
        ps.width >= 0 && ps.height >= 0 ==> 0 <= r.0.x <= ps.width && 0 <= r.0.y <= ps.height,
{
    let mut vx = p.base_vx;
    let mut vy = p.base_vy;
    let mut link: Option<i64> = None;
    let mut angle = p.orbit_angle;
    let mut radius = p.orbit_radius;
    let mut orbiting = false;
    if near {
        let (dsq, d) = pointer_distance(p, ps);
        proof {
            lemma_isqrt_below(dsq as int, ps.mouse_radius as int);
            lemma_tdiv_sign(1000 * d as int, ps.mouse_radius as int);
            assert(1000 * (d as int) < (ps.mouse_radius as int) * 1000) by (nonlinear_arith)
                requires
                    0 <= d as int,
                    (d as int) < ps.mouse_radius as int,
            ;
            vstd::arithmetic::div_mod::lemma_multiply_divide_lt(
                1000 * d as int,
                ps.mouse_radius as int,
                1000,
            );
        }
        let s = 1000 - tdiv64(1000 * d, ps.mouse_radius);
        link = Some(s);
        orbiting = true;
        if p.is_orbiting {
            proof {
                lemma_tdiv_sign(6 * ps.mouse_radius as int, 10);
                lemma_tdiv_cap(6 * ps.mouse_radius as int, 10, 600_000);
                lemma_tdiv_sign(15 * ps.mouse_radius as int, 10);
                lemma_tdiv_cap(15 * ps.mouse_radius as int, 10, 1_500_000);
            }
            let lo = tdiv64(6 * ps.mouse_radius, 10);
            let hi = tdiv64(15 * ps.mouse_radius, 10);
            if lo < hi {
                let tgt = rng.next_in_range(lo, hi);
                proof {
                    lemma_tdiv_cap(
                        tgt as int - radius as int,
                        20,
                        abs_i(tgt as int - radius as int),
                    );
                    lemma_tdiv_sign(tgt as int - radius as int, 20);
                }
                radius = radius + tdiv64(tgt - radius, 20);
            } else {
                let _spent: u64 = rng.next_u64();
            }
            angle = angle + p.orbit_speed;
            if angle >= TURN {
                angle = angle - TURN;
            }
        } else {
            let dx = p.x - ps.mouse_x;
            let dy = p.y - ps.mouse_y;
            angle = atan2_exec(dy, dx);
            radius = d;
        }
        let c = cos_exec(angle);
        let si = sin_exec(angle);
        proof {
            assert(-2_000_000_000int <= (radius as int) * (c as int) <= 2_000_000_000int)
                by (nonlinear_arith)
                requires
                    0 <= radius as int <= 2_000_000,
                    -1000 <= c as int <= 1000,
            ;
            assert(-2_000_000_000int <= (radius as int) * (si as int) <= 2_000_000_000int)
                by (nonlinear_arith)
                requires
                    0 <= radius as int <= 2_000_000,
                    -1000 <= si as int <= 1000,
            ;
            lemma_tdiv_cap((radius as int) * (c as int), 1000, 2_000_000);
            lemma_tdiv_cap((radius as int) * (si as int), 1000, 2_000_000);
        }
        let tx = ps.mouse_x + tdiv64(radius * c, 1000);
        let ty = ps.mouse_y + tdiv64(radius * si, 1000);
        proof {
            lemma_tdiv_cap(tx as int - p.x as int, 10, 2_003_000_000);
            lemma_tdiv_cap(ty as int - p.y as int, 10, 2_003_000_000);
        }
        let dvx = tdiv64(tx - p.x, 10);
        let dvy = tdiv64(ty - p.y, 10);
        proof {
            assert(1 <= s as int <= 1000);
            assert(-2_003_000_000_000int <= (dvx as int) * (s as int) <= 2_003_000_000_000int)
                by (nonlinear_arith)
                requires
                    -2_003_000_000 <= dvx as int <= 2_003_000_000,
                    0 <= s as int <= 1000,
            ;
            assert(-1_000_000_000int <= (p.base_vx as int) * (1000 - s as int)
                <= 1_000_000_000int) by (nonlinear_arith)
                requires
                    -1_000_000 <= p.base_vx as int <= 1_000_000,
                    0 <= 1000 - s as int <= 1000,
            ;
            lemma_tdiv_cap(
                (dvx as int) * (s as int) + (p.base_vx as int) * (1000 - s as int),
                1000,
                2_004_000_000,
            );
            assert(-2_003_000_000_000int <= (dvy as int) * (s as int) <= 2_003_000_000_000int)
                by (nonlinear_arith)
                requires
                    -2_003_000_000 <= dvy as int <= 2_003_000_000,
                    0 <= s as int <= 1000,
            ;
            assert(-1_000_000_000int <= (p.base_vy as int) * (1000 - s as int)
                <= 1_000_000_000int) by (nonlinear_arith)
                requires
                    -1_000_000 <= p.base_vy as int <= 1_000_000,
                    0 <= 1000 - s as int <= 1000,
            ;
            lemma_tdiv_cap(
                (dvy as int) * (s as int) + (p.base_vy as int) * (1000 - s as int),
                1000,
                2_004_000_000,
            );
        }
        vx = tdiv64(dvx * s + p.base_vx * (1000 - s), 1000);
        vy = tdiv64(dvy * s + p.base_vy * (1000 - s), 1000);
    } else if active_exec(ps) {
        proof {
            lemma_tdiv_cap(95 * p.orbit_radius as int, 100, p.orbit_radius as int);
            lemma_tdiv_sign(95 * p.orbit_radius as int, 100);
            assert(95 * p.orbit_radius as int == (p.orbit_radius as int) * 95);
        }
        radius = tdiv64(p.orbit_radius * 95, 100);
    }
    let (qx, crossed_x) = wrap_axis_exec(p.x + vx, ps.width);
    let (qy, crossed_y) = wrap_axis_exec(p.y + vy, ps.height);
    let q = Particle {
        x: qx,
        y: qy,
        vx,
        vy,
        size: p.size,
        base_vx: p.base_vx,
        base_vy: p.base_vy,
        orbit_angle: angle,
        orbit_speed: p.orbit_speed,
        orbit_radius: radius,
        is_orbiting: orbiting && !crossed_x && !crossed_y,
    };
    (q, link)
}

/// The pointer-active test, executable.
fn active_exec(ps: SimParams) -> (r: bool)
    ensures
        r == pointer_active(ps),
{
    ps.mouse_x >= 0 && ps.mouse_y >= 0 && ps.mouse_x <= ps.width && ps.mouse_y <= ps.height
}

/// Border handling on one axis under the orbit policy, executable.
fn wrap_axis_exec(t: i64, bound: i64) -> (r: (i64, bool))
    requires
        -3_100_000_000 <= t as int <= 3_100_000_000,
        -COORD_LIMIT <= bound <= COORD_LIMIT,
    ensures
        (r.0 as int, r.1) == wrap_axis(t as int, bound as int),
        -COORD_LIMIT <= r.0 <= COORD_LIMIT,
        bound >= 0 ==> 0 <= r.0 <= bound,
{
    if t < 0 {
        (bound, true)
    } else if t > bound {
        (0, true)
    } else {
        (t, false)
    }
}

} // verus!
