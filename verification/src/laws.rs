//! The engine's global guarantees, stated and proved over the step model.

use vstd::prelude::*;
use vstd::arithmetic::div_mod::lemma_div_of0;
use crate::particle::{pointer_active, MotionPolicy, Particle, SimParams};
use crate::step::{
    bounce_vel_x, bounce_vel_y, orbit_vel_x, orbit_vel_y, step_bounce_rel, step_orbit_rel,
    step_particle_rel,
};
use crate::system::{link_of, links_upto, rng_after};
use crate::links::{pair_base_opacity, pair_dist, pair_dist_sq, pairs_inner, pairs_upto};

verus! {

/// Determinism of one step: the step relation pins every output, so two
/// steps from the same particle, parameters and random state agree on the
/// new particle, the recorded link, and the next random state.
pub proof fn lemma_step_deterministic(
    p: Particle,
    ps: SimParams,
    rng0: u64,
    q1: Particle,
    l1: Option<i64>,
    r1: u64,
    q2: Particle,
    l2: Option<i64>,
    r2: u64,
)
    requires
        step_particle_rel(p, ps, rng0, q1, l1, r1),
        step_particle_rel(p, ps, rng0, q2, l2, r2),
    ensures
        q1 == q2,
        l1 == l2,
        r1 == r2,
{
}

/// Determinism of a whole frame: two particle sequences that both satisfy
/// the step relation against the same snapshot are equal.
pub proof fn lemma_frame_deterministic(
    pre: Seq<Particle>,
    ps: SimParams,
    rng0: u64,
    post1: Seq<Particle>,
    post2: Seq<Particle>,
)
    requires
        post1.len() == pre.len(),
        post2.len() == pre.len(),
        forall|i: int|
            0 <= i < pre.len() ==> step_particle_rel(
                pre[i],
                ps,
                rng_after(pre, ps, rng0, i),
                #[trigger] post1[i],
                link_of(pre[i], ps),
                rng_after(pre, ps, rng0, i + 1),
            ),
        forall|i: int|
            0 <= i < pre.len() ==> step_particle_rel(
                pre[i],
                ps,
                rng_after(pre, ps, rng0, i),
                #[trigger] post2[i],
                link_of(pre[i], ps),
                rng_after(pre, ps, rng0, i + 1),
            ),
    ensures
        post1 == post2,
{
    assert forall|i: int| 0 <= i < pre.len() implies post1[i] == post2[i] by {
        lemma_step_deterministic(
            pre[i],
            ps,
            rng_after(pre, ps, rng0, i),
            post1[i],
            link_of(pre[i], ps),
            rng_after(pre, ps, rng0, i + 1),
            post2[i],
            link_of(pre[i], ps),
            rng_after(pre, ps, rng0, i + 1),
        );
    }
    assert(post1 =~= post2);
}

/// Boundary containment under the bounce policy: whatever the incoming
/// position and velocity, a stepped particle lies inside non-negative world
/// bounds.
pub proof fn lemma_bounce_containment(p: Particle, ps: SimParams, q: Particle, link: Option<i64>)
    requires
        step_bounce_rel(p, ps, q, link),
        ps.width >= 0,
        ps.height >= 0,
    ensures
        0 <= q.x <= ps.width,
        0 <= q.y <= ps.height,
{
}

/// The wrap invariant of the orbit policy: a particle whose tentative
/// position leaves an edge reappears at the opposite edge, and any crossing
/// clears its capture, so it must re-acquire the pointer from scratch.
pub proof fn lemma_wrap_invariant(
    p: Particle,
    ps: SimParams,
    rng0: u64,
    q: Particle,
    link: Option<i64>,
)
    requires
        step_orbit_rel(p, ps, rng0, q, link),
        ps.width >= 0,
        ps.height >= 0,
    ensures
        p.x + orbit_vel_x(p, ps, rng0) < 0 ==> q.x == ps.width && !q.is_orbiting,
        p.x + orbit_vel_x(p, ps, rng0) > ps.width ==> q.x == 0 && !q.is_orbiting,
        p.y + orbit_vel_y(p, ps, rng0) < 0 ==> q.y == ps.height && !q.is_orbiting,
        p.y + orbit_vel_y(p, ps, rng0) > ps.height ==> q.y == 0 && !q.is_orbiting,
{
}

/// Pointer inactivity, per particle: with the pointer off screen a step
/// records no link, leaves the random state alone, and the stored velocity
/// is exactly the base drift.
pub proof fn lemma_pointer_inactive_particle(
    p: Particle,
    ps: SimParams,
    rng0: u64,
    q: Particle,
    link: Option<i64>,
    rng1: u64,
)
    requires
        step_particle_rel(p, ps, rng0, q, link, rng1),
        !pointer_active(ps),
    ensures
        link is None,
        q.vx == p.base_vx,
        q.vy == p.base_vy,
        rng1 == rng0,
{
}

/// Pointer inactivity, per frame: with the pointer off screen no link at
/// all is recorded.
pub proof fn lemma_pointer_inactive_no_links(parts: Seq<Particle>, ps: SimParams, n: int)
    requires
        !pointer_active(ps),
    ensures
        links_upto(parts, ps, n).len() == 0,
    decreases n,
{
    if n > 0 {
        lemma_pointer_inactive_no_links(parts, ps, n - 1);
    }
}

/// The number of unordered pairs over `n` particles with first index below
/// `i`: the partial sum `(n-1) + (n-2) + ...`.
pub open spec fn pair_cap(n: int, i: int) -> int
    decreases i,
{
    if i <= 0 {
        0
    } else {
        pair_cap(n, i - 1) + (n - i)
    }
}

/// Each inner sweep contributes at most five values per partner.
pub proof fn lemma_pairs_inner_len(parts: Seq<Particle>, ps: SimParams, i: int, j: int)
    ensures
        pairs_inner(parts, ps, i, j).len() <= if j - i - 1 >= 0 {
            5 * (j - i - 1)
        } else {
            0
        },
    decreases j - i,
{
    if j > i + 1 {
        lemma_pairs_inner_len(parts, ps, i, j - 1);
    }
}

/// The pair buffer holds at most five values per unordered pair.
pub proof fn lemma_pairs_upto_len(parts: Seq<Particle>, ps: SimParams, i: int)
    requires
        i <= parts.len(),
    ensures
        pairs_upto(parts, ps, i).len() <= 5 * pair_cap(parts.len() as int, i),
    decreases i,
{
    if i > 0 {
        lemma_pairs_upto_len(parts, ps, i - 1);
        lemma_pairs_inner_len(parts, ps, i - 1, parts.len() as int);
    }
}

/// The closed form of the pair count: `2 * pair_cap(n, n) == n * (n - 1)`.
pub proof fn lemma_pair_cap_closed(n: int, i: int)
    requires
        0 <= i <= n,
    ensures
        2 * pair_cap(n, i) == i * (2 * n - i - 1),
    decreases i,
{
    if i == 0 {
        assert(i * (2 * n - i - 1) == 0) by (nonlinear_arith)
            requires
                i == 0,
        ;
    } else {
        lemma_pair_cap_closed(n, i - 1);
        assert(2 * pair_cap(n, i) == i * (2 * n - i - 1)) by (nonlinear_arith)
            requires
                2 * pair_cap(n, i - 1) == (i - 1) * (2 * n - (i - 1) - 1),
                pair_cap(n, i) == pair_cap(n, i - 1) + (n - i),
        ;
    }
}

/// Connection symmetry's count half: every unordered pair is considered at
/// most once, so the buffer holds at most `n * (n - 1) / 2` entries of five
/// values each. (That no pair appears under both orders is structural:
/// `pairs_upto` enumerates each pair exactly once, with the lower index
/// first.)
pub proof fn lemma_pair_count(parts: Seq<Particle>, ps: SimParams)
    ensures
        2 * pairs_upto(parts, ps, parts.len() as int).len() <= 5 * ((parts.len() as int) * (
        parts.len() as int - 1)),
{
    let n = parts.len() as int;
    lemma_pairs_upto_len(parts, ps, n);
    lemma_pair_cap_closed(n, n);
}

/// Opacity at zero distance: a pair of coincident particles has base
/// opacity exactly 1.0 (1000 millis), before any pointer boost. The
/// connection distance must be positive for such a pair to be linked at
/// all.
pub proof fn lemma_zero_distance_opacity(p1: Particle, p2: Particle, ps: SimParams)
    requires
        p1.x == p2.x,
        p1.y == p2.y,
        ps.connection_distance > 0,
    ensures
        pair_base_opacity(p1, p2, ps) == 1000,
{
    assert(pair_dist_sq(p1, p2) == 0) by (nonlinear_arith)
        requires
            p1.x == p2.x,
            p1.y == p2.y,
            pair_dist_sq(p1, p2) == (p1.x - p2.x) * (p1.x - p2.x) + (p1.y - p2.y) * (p1.y
                - p2.y),
    ;
    assert(pair_dist(p1, p2) == 0);
    lemma_div_of0(ps.connection_distance as int);
}

} // verus!
