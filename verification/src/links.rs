//! Connectivity extraction: which links a renderer should draw this frame.
//!
//! Both extractors apply the seam guard: a link whose horizontal or vertical
//! span exceeds half the world is dropped, so no line is drawn across a wrap
//! boundary. Pair opacity fades linearly with distance and is raised by 1.3
//! near the pointer, deliberately without an upper clamp.

use vstd::prelude::*;
use crate::fixed::{
    abs_i, abs64, isqrt_spec, isqrt64, lemma_tdiv_cap, lemma_tdiv_sign, tdiv, tdiv64,
    COUNT_LIMIT,
};
use crate::particle::{params_wf, particle_wf, Particle, SimParams};
use crate::step::dist_sq_to_pointer;
use crate::system::ParticleSystem;

verus! {

/// The seam guard for a particle pair: both offsets within half the world.
pub open spec fn pair_seam_ok(p1: Particle, p2: Particle, ps: SimParams) -> bool {
    &&& abs_i(p1.x - p2.x) <= tdiv(ps.width as int, 2)
    &&& abs_i(p1.y - p2.y) <= tdiv(ps.height as int, 2)
}

/// Squared distance between two particles.
pub open spec fn pair_dist_sq(p1: Particle, p2: Particle) -> int {
    (p1.x - p2.x) * (p1.x - p2.x) + (p1.y - p2.y) * (p1.y - p2.y)
}

/// Distance between two particles (floor of the square root).
pub open spec fn pair_dist(p1: Particle, p2: Particle) -> int {
    isqrt_spec(pair_dist_sq(p1, p2))
}

/// Whether a pair is drawn: it passes the seam guard and sits closer than
/// the connection distance. A non-positive connection distance links
/// nothing, since distances are never negative.
pub open spec fn pair_linked(p1: Particle, p2: Particle, ps: SimParams) -> bool {
    &&& pair_seam_ok(p1, p2, ps)
    &&& pair_dist(p1, p2) < ps.connection_distance
}

/// Whether an endpoint sits within the pointer radius (the pointer-proximity
/// opacity boost; no on-screen test here, matching the draw rule).
pub open spec fn endpoint_near(p: Particle, ps: SimParams) -> bool {
    dist_sq_to_pointer(p, ps) < ps.mouse_radius * ps.mouse_radius
}

/// Opacity before the pointer boost: `1 - distance / connection_distance`,
/// in millis; exactly 1000 for a pair at distance zero.
pub open spec fn pair_base_opacity(p1: Particle, p2: Particle, ps: SimParams) -> int {
    1000 - tdiv(1000 * pair_dist(p1, p2), ps.connection_distance as int)
}

/// The drawn opacity: the base, raised by 1.3 when either endpoint is near
/// the pointer. Deliberately unclamped, so it can exceed 1000.
pub open spec fn pair_opacity(p1: Particle, p2: Particle, ps: SimParams) -> int {
    if endpoint_near(p1, ps) || endpoint_near(p2, ps) {
        tdiv(pair_base_opacity(p1, p2, ps) * 13, 10)
    } else {
        pair_base_opacity(p1, p2, ps)
    }
}

/// The five values a drawn pair contributes.
pub open spec fn pair_entry(p1: Particle, p2: Particle, ps: SimParams) -> Seq<i64> {
    seq![p1.x, p1.y, p2.x, p2.y, pair_opacity(p1, p2, ps) as i64]
}

/// The entries of pairs `(i, i+1) .. (i, j-1)`.
pub open spec fn pairs_inner(parts: Seq<Particle>, ps: SimParams, i: int, j: int) -> Seq<i64>
    decreases j - i,
{
    if j <= i + 1 {
        Seq::empty()
    } else {
        let rest = pairs_inner(parts, ps, i, j - 1);
        if pair_linked(parts[i], parts[j - 1], ps) {
            rest + pair_entry(parts[i], parts[j - 1], ps)
        } else {
            rest
        }
    }
}

/// The entries of all pairs whose first index is below `i`.
pub open spec fn pairs_upto(parts: Seq<Particle>, ps: SimParams, i: int) -> Seq<i64>
    decreases i,
{
    if i <= 0 {
        Seq::empty()
    } else {
        pairs_upto(parts, ps, i - 1) + pairs_inner(parts, ps, i - 1, parts.len() as int)
    }
}

/// The seam guard for a particle-pointer link.
pub open spec fn pointer_seam_ok(p: Particle, ps: SimParams) -> bool {
    &&& abs_i(p.x - ps.mouse_x) <= tdiv(ps.width as int, 2)
    &&& abs_i(p.y - ps.mouse_y) <= tdiv(ps.height as int, 2)
}

/// The flat values of the first `n` recorded pointer links that survive the
/// seam guard: current position and recorded strength, in recording order.
pub open spec fn pointer_links_upto(
    links: Seq<(usize, i64)>,
    parts: Seq<Particle>,
    ps: SimParams,
    n: int,
) -> Seq<i64>
    decreases n,
{
    if n <= 0 {
        Seq::empty()
    } else {
        let rest = pointer_links_upto(links, parts, ps, n - 1);
        let p = parts[links[n - 1].0 as int];
        if pointer_seam_ok(p, ps) {
            rest + seq![p.x, p.y, links[n - 1].1]
        } else {
            rest
        }
    }
}

/// Squared distance of a pair, executable, with the bound the caller needs.
fn pair_dist_exec(p1: Particle, p2: Particle) -> (r: (i64, i64))
    requires
        particle_wf(p1),
        particle_wf(p2),
    ensures
        r.0 as int == pair_dist_sq(p1, p2),
        r.1 as int == pair_dist(p1, p2),
        0 <= r.1 <= 3_000_000_000,
{
    let dx = p1.x - p2.x;
    let dy = p1.y - p2.y;
    proof {
        assert(0 <= (dx as int) * (dx as int) <= 4_000_000_000_000_000_000int)
            by (nonlinear_arith)
            requires
                -2_000_000_000 <= dx as int <= 2_000_000_000,
        ;
        assert(0 <= (dy as int) * (dy as int) <= 4_000_000_000_000_000_000int)
            by (nonlinear_arith)
            requires
                -2_000_000_000 <= dy as int <= 2_000_000_000,
        ;
    }
    let dsq = dx * dx + dy * dy;
    let d = isqrt64(dsq);
    (dsq, d)
}

/// Whether the particle sits within the pointer radius, executable.
fn endpoint_near_exec(p: Particle, ps: SimParams) -> (r: bool)
    requires
        particle_wf(p),
        params_wf(ps),
    ensures
        r == endpoint_near(p, ps),
{
    let dx = p.x - ps.mouse_x;
    let dy = p.y - ps.mouse_y;
    proof {
        assert(0 <= (dx as int) * (dx as int) <= 4_000_000_000_000_000_000int)
            by (nonlinear_arith)
            requires
                -2_000_000_000 <= dx as int <= 2_000_000_000,
        ;
        assert(0 <= (dy as int) * (dy as int) <= 4_000_000_000_000_000_000int)
            by (nonlinear_arith)
            requires
                -2_000_000_000 <= dy as int <= 2_000_000_000,
        ;
        assert(0 <= (ps.mouse_radius as int) * (ps.mouse_radius as int) <= 1_000_000_000_000int)
            by (nonlinear_arith)
            requires
                0 <= ps.mouse_radius as int <= 1_000_000,
        ;
    }
    dx * dx + dy * dy < ps.mouse_radius * ps.mouse_radius
}

impl ParticleSystem {
    /// The pairwise link buffer: `x1, y1, x2, y2, opacity` for every drawn
    /// pair `(i, j)` with `i < j`, outer index ascending.
    pub fn calculate_connections(&self) -> (r: Vec<i64>)
        requires
            self.wf(),
        ensures
            r@ == pairs_upto(self.particles@, self.params, self.particles@.len() as int),
    {
        let ps = self.params;
        let n = self.particles.len();
        let mut out: Vec<i64> = Vec::new();
        let mut i: usize = 0;
        while i < n
            invariant
                i <= n,
                n == self.particles@.len(),
                n <= COUNT_LIMIT,
                ps == self.params,
                params_wf(ps),
                forall|j: int| 0 <= j < n ==> particle_wf(#[trigger] self.particles@[j]),
                out@ == pairs_upto(self.particles@, ps, i as int),
            decreases n - i,
        {
            let p1 = self.particles[i];
            let mut j: usize = i + 1;
            while j < n
                invariant
                    i < n,
                    i + 1 <= j <= n,
                    n == self.particles@.len(),
                    ps == self.params,
                    params_wf(ps),
                    forall|k: int| 0 <= k < n ==> particle_wf(#[trigger] self.particles@[k]),
                    p1 == self.particles@[i as int],
                    out@ == pairs_upto(self.particles@, ps, i as int) + pairs_inner(
                        self.particles@,
                        ps,
                        i as int,
                        j as int,
                    ),
                decreases n - j,
            {
                let p2 = self.particles[j];
                let ghost out_before = out@;
                let sx = abs64(p1.x - p2.x);
                let sy = abs64(p1.y - p2.y);
                if sx <= tdiv64(ps.width, 2) && sy <= tdiv64(ps.height, 2) {
                    let (dsq, d) = pair_dist_exec(p1, p2);
                    if d < ps.connection_distance {
                        proof {
                            lemma_tdiv_sign(1000 * (d as int), ps.connection_distance as int);
                            assert(1000 * (d as int) < (ps.connection_distance as int) * 1000)
                                by (nonlinear_arith)
                                requires
                                    0 <= d as int,
                                    (d as int) < ps.connection_distance as int,
                            ;
                            vstd::arithmetic::div_mod::lemma_multiply_divide_lt(
                                1000 * (d as int),
                                ps.connection_distance as int,
                                1000,
                            );
                        }
                        let base = 1000 - tdiv64(1000 * d, ps.connection_distance);
                        proof {
                            assert(1 <= base as int <= 1000);
                            lemma_tdiv_cap((base as int) * 13, 10, 1300);
                            lemma_tdiv_sign((base as int) * 13, 10);
                        }
                        let near = endpoint_near_exec(p1, ps) || endpoint_near_exec(p2, ps);
                        let opacity = if near {
                            tdiv64(base * 13, 10)
                        } else {
                            base
                        };
                        out.push(p1.x);
                        out.push(p1.y);
                        out.push(p2.x);
                        out.push(p2.y);
                        out.push(opacity);
                        proof {
                            assert(out@ =~= out_before + pair_entry(
                                self.particles@[i as int],
                                self.particles@[j as int],
                                ps,
                            ));
                        }
                    }
                }
                proof {
                    assert(out@ == pairs_upto(self.particles@, ps, i as int) + pairs_inner(
                        self.particles@,
                        ps,
                        i as int,
                        j + 1int,
                    ));
                }
                j = j + 1;
            }
            i = i + 1;
        }
        out
    }

    /// The pointer link buffer: `x, y, strength` for every link of the last
    /// step that survives the seam guard, in recording order.
    pub fn get_mouse_connections(&self) -> (r: Vec<i64>)
        requires
            self.wf(),
        ensures
            r@ == pointer_links_upto(
                self.mouse_connections@,
                self.particles@,
                self.params,
                self.mouse_connections@.len() as int,
            ),
    {
        let ps = self.params;
        let m = self.mouse_connections.len();
        let mut out: Vec<i64> = Vec::new();
        let mut k: usize = 0;
        while k < m
            invariant
                k <= m,
                m == self.mouse_connections@.len(),
                ps == self.params,
                params_wf(ps),
                forall|j: int| 0 <= j < self.particles@.len() ==> particle_wf(
                    #[trigger] self.particles@[j],
                ),
                forall|j: int| 0 <= j < m ==> (#[trigger] self.mouse_connections@[j]).0
                    < self.particles@.len(),
                out@ == pointer_links_upto(self.mouse_connections@, self.particles@, ps, k as int),
            decreases m - k,
        {
            let (idx, strength) = self.mouse_connections[k];
            let p = self.particles[idx];
            let ghost out_before = out@;
            let sx = abs64(p.x - ps.mouse_x);
            let sy = abs64(p.y - ps.mouse_y);
            if sx <= tdiv64(ps.width, 2) && sy <= tdiv64(ps.height, 2) {
                out.push(p.x);
                out.push(p.y);
                out.push(strength);
                proof {
                    assert(out@ =~= out_before + seq![p.x, p.y, strength]);
                }
            }
            proof {
                assert(out@ == pointer_links_upto(
                    self.mouse_connections@,
                    self.particles@,
                    ps,
                    k + 1int,
                ));
            }
            k = k + 1;
        }
        out
    }
}

} // verus!
