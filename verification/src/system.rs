//! The particle store and its per-frame operations.
//!
//! `ParticleSystem` owns the particles, the simulation parameters, the
//! per-frame pointer links, and the random source. `update` advances every
//! particle one frame; `get_particles`, `get_mouse_connections` and
//! `calculate_connections` extract the flat numeric buffers a renderer
//! consumes (three values per particle, three per pointer link, five per
//! particle pair).

use vstd::prelude::*;
use rand::Rng;
use crate::fixed::{COORD_LIMIT, COUNT_LIMIT, FORCE_LIMIT, SCALE};
use crate::particle::{
    params_wf, particle_wf, pointer_active, MotionPolicy, Particle, SimParams,
};
use crate::rng::Lcg;
use crate::step::{
    dist_sq_to_pointer, has_link, link_strength, step_particle, step_particle_rel, step_rng,
};
use crate::trig::TURN;

verus! {

/// Relies on `rand::Rng::gen_range` on `rand::thread_rng`: it returns a
/// uniformly distributed value of the half-open range and panics only when
/// the range is empty.
#[verifier::external_body]
fn rand_range_i64(lo: i64, hi: i64) -> (r: i64)
    requires
        lo < hi,
    ensures
        lo <= r < hi,
{
    rand::thread_rng().gen_range(lo..hi)
}

/// The value the pointer position takes while no pointer is present: far
/// off screen, so the active test always fails.
pub const POINTER_AWAY: i64 = -1_000_000;

/// The random-source state after the first `n` particles have stepped.
pub open spec fn rng_after(parts: Seq<Particle>, ps: SimParams, rng0: u64, n: int) -> u64
    decreases n,
{
    if n <= 0 {
        rng0
    } else {
        step_rng(parts[n - 1], ps, rng_after(parts, ps, rng0, n - 1))
    }
}

/// The link a stepped particle contributes, if any.
pub open spec fn link_of(p: Particle, ps: SimParams) -> Option<i64> {
    if has_link(p, ps) {
        Some(link_strength(p, ps) as i64)
    } else {
        None
    }
}

/// The pointer links recorded by the first `n` particles, in store order.
pub open spec fn links_upto(parts: Seq<Particle>, ps: SimParams, n: int) -> Seq<(usize, i64)>
    decreases n,
{
    if n <= 0 {
        Seq::empty()
    } else {
        let rest = links_upto(parts, ps, n - 1);
        if has_link(parts[n - 1], ps) {
            rest.push((((n - 1) as usize), link_strength(parts[n - 1], ps) as i64))
        } else {
            rest
        }
    }
}

/// The particle store.
pub struct ParticleSystem {
    /// The particles, in creation order; the count never changes.
    pub particles: Vec<Particle>,
    /// The global simulation parameters.
    pub params: SimParams,
    /// The pointer links of the last step: particle index and strength,
    /// rebuilt from scratch every step.
    pub mouse_connections: Vec<(usize, i64)>,
    /// The injectable random source of the orbit policy.
    pub rng: Lcg,
}

impl ParticleSystem {
    /// The store's invariant: parameters and particles in their fixed-point
    /// ranges, and every recorded link naming a live particle.
    pub open spec fn wf(self) -> bool {
        &&& params_wf(self.params)
        &&& self.particles@.len() <= COUNT_LIMIT
        &&& forall|i: int|
            0 <= i < self.particles@.len() ==> particle_wf(#[trigger] self.particles@[i])
        &&& forall|i: int|
            0 <= i < self.mouse_connections@.len() ==> (
            #[trigger] self.mouse_connections@[i]).0 < self.particles@.len()
    }

    /// Build a store with `num_particles` randomly seeded particles: position
    /// inside the world, drift in `[-0.4, 0.4)`, size in `[1, 3)`, orbit
    /// angle over the full turn, orbit speed in `[0.002, 0.008)`, orbit
    /// radius in `[5, 60)` — all in millis of their unit.
    pub fn new(width: i64, height: i64, num_particles: usize, connection_distance: i64) -> (r:
        ParticleSystem)
        requires
            -COORD_LIMIT <= width <= COORD_LIMIT,
            -COORD_LIMIT <= height <= COORD_LIMIT,
            -COORD_LIMIT <= connection_distance <= COORD_LIMIT,
            num_particles <= COUNT_LIMIT,
        ensures
            r.wf(),
            r.params == (SimParams {
                width,
                height,
                connection_distance,
                mouse_x: POINTER_AWAY,
                mouse_y: POINTER_AWAY,
                mouse_radius: 150_000,
                mouse_force: 1000,
                max_attraction_force: 400,
                border_restitution: 1000,
                policy: MotionPolicy::Bounce,
            }),
            r.particles@.len() == num_particles,
            r.mouse_connections@.len() == 0,
            forall|i: int|
                0 <= i < num_particles ==> {
                    let p = #[trigger] r.particles@[i];
                    &&& 0 <= p.x && (width > 0 ==> p.x < width) && (width <= 0 ==> p.x == 0)
                    &&& 0 <= p.y && (height > 0 ==> p.y < height) && (height <= 0 ==> p.y == 0)
                    &&& -400 <= p.base_vx < 400 && p.vx == p.base_vx
                    &&& -400 <= p.base_vy < 400 && p.vy == p.base_vy
                    &&& 1000 <= p.size < 3000
                    &&& 0 <= p.orbit_angle < TURN
                    &&& 2 <= p.orbit_speed < 8
                    &&& 5000 <= p.orbit_radius < 60000
                    &&& !p.is_orbiting
                },
    {
        let mut particles: Vec<Particle> = Vec::new();
        let mut i: usize = 0;
        while i < num_particles
            invariant
                i <= num_particles,
                -COORD_LIMIT <= width <= COORD_LIMIT,
                -COORD_LIMIT <= height <= COORD_LIMIT,
                particles@.len() == i,
                forall|j: int|
                    0 <= j < i ==> {
                        let p = #[trigger] particles@[j];
                        &&& 0 <= p.x && (width > 0 ==> p.x < width) && (width <= 0 ==> p.x == 0)
                        &&& 0 <= p.y && (height > 0 ==> p.y < height) && (height <= 0 ==> p.y
                            == 0)
                        &&& -400 <= p.base_vx < 400 && p.vx == p.base_vx
                        &&& -400 <= p.base_vy < 400 && p.vy == p.base_vy
                        &&& 1000 <= p.size < 3000
                        &&& 0 <= p.orbit_angle < TURN
                        &&& 2 <= p.orbit_speed < 8
                        &&& 5000 <= p.orbit_radius < 60000
                        &&& !p.is_orbiting
                    },
                forall|j: int| 0 <= j < i ==> particle_wf(#[trigger] particles@[j]),
            decreases num_particles - i,
        {
            let x = if width > 0 {
                rand_range_i64(0, width)
            } else {
                0
            };
            let y = if height > 0 {
                rand_range_i64(0, height)
            } else {
                0
            };
            let base_vx = rand_range_i64(-400, 400);
            let base_vy = rand_range_i64(-400, 400);
            let p = Particle {
                x,
                y,
                vx: base_vx,
                vy: base_vy,
                size: rand_range_i64(1000, 3000),
                base_vx,
                base_vy,
                orbit_angle: rand_range_i64(0, TURN),
                orbit_speed: rand_range_i64(2, 8),
                orbit_radius: rand_range_i64(5000, 60000),
                is_orbiting: false,
            };
            particles.push(p);
            i = i + 1;
        }
        let seed = rand_range_i64(0, i64::MAX);
        ParticleSystem {
            particles,
            params: SimParams {
                width,
                height,
                connection_distance,
                mouse_x: POINTER_AWAY,
                mouse_y: POINTER_AWAY,
                mouse_radius: 150_000,
                mouse_force: 1000,
                max_attraction_force: 400,
                border_restitution: 1000,
                policy: MotionPolicy::Bounce,
            },
            mouse_connections: Vec::new(),
            rng: Lcg::new(seed as u64),
        }
    }

    /// Build a store from given particles and a given random seed, so a
    /// caller can replay a snapshot exactly. Returns `None` iff some value
    /// is outside the fixed-point ranges.
    pub fn with_particles(
        width: i64,
        height: i64,
        connection_distance: i64,
        policy: MotionPolicy,
        particles: Vec<Particle>,
        seed: u64,
    ) -> (r: Option<ParticleSystem>)
        ensures
            r is Some <==> {
                &&& -COORD_LIMIT <= width <= COORD_LIMIT
                &&& -COORD_LIMIT <= height <= COORD_LIMIT
                &&& -COORD_LIMIT <= connection_distance <= COORD_LIMIT
                &&& particles@.len() <= COUNT_LIMIT
                &&& forall|i: int|
                    0 <= i < particles@.len() ==> particle_wf(#[trigger] particles@[i])
            },
            r is Some ==> {
                let sys = r->0;
                &&& sys.wf()
                &&& sys.particles@ == particles@
                &&& sys.rng.state == seed
                &&& sys.mouse_connections@.len() == 0
                &&& sys.params == (SimParams {
                    width,
                    height,
                    connection_distance,
                    mouse_x: POINTER_AWAY,
                    mouse_y: POINTER_AWAY,
                    mouse_radius: 150_000,
                    mouse_force: 1000,
                    max_attraction_force: 400,
                    border_restitution: 1000,
                    policy,
                })
            },
    {
        if width < -COORD_LIMIT || width > COORD_LIMIT {
            return None;
        }
        if height < -COORD_LIMIT || height > COORD_LIMIT {
            return None;
        }
        if connection_distance < -COORD_LIMIT || connection_distance > COORD_LIMIT {
            return None;
        }
        if particles.len() > COUNT_LIMIT {
            return None;
        }
        let mut i: usize = 0;
        while i < particles.len()
            invariant
                i <= particles@.len(),
                forall|j: int| 0 <= j < i ==> particle_wf(#[trigger] particles@[j]),
            decreases particles@.len() - i,
        {
            if !particle_ok(&particles[i]) {
                return None;
            }
            i = i + 1;
        }
        Some(ParticleSystem {
            particles,
            params: SimParams {
                width,
                height,
                connection_distance,
                mouse_x: POINTER_AWAY,
                mouse_y: POINTER_AWAY,
                mouse_radius: 150_000,
                mouse_force: 1000,
                max_attraction_force: 400,
                border_restitution: 1000,
                policy,
            },
            mouse_connections: Vec::new(),
            rng: Lcg::new(seed),
        })
    }

    /// Move the pointer. A far off-screen position (`POINTER_AWAY`) means no
    /// pointer input this frame.
    pub fn update_mouse_position(&mut self, x: i64, y: i64)
        requires
            old(self).wf(),
            -COORD_LIMIT <= x <= COORD_LIMIT,
            -COORD_LIMIT <= y <= COORD_LIMIT,
        ensures
            final(self).wf(),
            final(self).params == (SimParams { mouse_x: x, mouse_y: y, ..old(self).params }),
            final(self).particles == old(self).particles,
            final(self).mouse_connections == old(self).mouse_connections,
            final(self).rng == old(self).rng,
    {
        self.params.mouse_x = x;
        self.params.mouse_y = y;
    }

    /// Set the pointer force multiplier (millis; 1000 is 1.0).
    pub fn set_mouse_force(&mut self, force: i64)
        requires
            old(self).wf(),
            -FORCE_LIMIT <= force <= FORCE_LIMIT,
        ensures
            final(self).wf(),
            final(self).params == (SimParams { mouse_force: force, ..old(self).params }),
            final(self).particles == old(self).particles,
            final(self).mouse_connections == old(self).mouse_connections,
            final(self).rng == old(self).rng,
    {
        self.params.mouse_force = force;
    }

    /// Set the strongest inward pull the bounce policy applies.
    pub fn set_max_attraction_force(&mut self, force: i64)
        requires
            old(self).wf(),
            -FORCE_LIMIT <= force <= FORCE_LIMIT,
        ensures
            final(self).wf(),
            final(self).params == (SimParams {
                max_attraction_force: force,
                ..old(self).params
            }),
            final(self).particles == old(self).particles,
            final(self).mouse_connections == old(self).mouse_connections,
            final(self).rng == old(self).rng,
    {
        self.params.max_attraction_force = force;
    }

    /// Set how much of the drift survives a border reflection (millis, at
    /// most 1000 so drift can never grow).
    pub fn set_border_restitution(&mut self, restitution: i64)
        requires
            old(self).wf(),
            0 <= restitution <= SCALE,
        ensures
            final(self).wf(),
            final(self).params == (SimParams {
                border_restitution: restitution,
                ..old(self).params
            }),
            final(self).particles == old(self).particles,
            final(self).mouse_connections == old(self).mouse_connections,
            final(self).rng == old(self).rng,
    {
        self.params.border_restitution = restitution;
    }

    /// Choose the motion policy.
    pub fn set_policy(&mut self, policy: MotionPolicy)
        requires
            old(self).wf(),
        ensures
            final(self).wf(),
            final(self).params == (SimParams { policy, ..old(self).params }),
            final(self).particles == old(self).particles,
            final(self).mouse_connections == old(self).mouse_connections,
            final(self).rng == old(self).rng,
    {
        self.params.policy = policy;
    }

    /// Change the world bounds. A particle beyond the new bounds is clamped
    /// down to them; nothing else moves.
    pub fn resize(&mut self, width: i64, height: i64)
        requires
            old(self).wf(),
            -COORD_LIMIT <= width <= COORD_LIMIT,
            -COORD_LIMIT <= height <= COORD_LIMIT,
        ensures
            final(self).wf(),
            final(self).params == (SimParams { width, height, ..old(self).params }),
            final(self).particles@.len() == old(self).particles@.len(),
            forall|i: int|
                0 <= i < old(self).particles@.len() ==> #[trigger] final(self).particles@[i]
                    == (Particle {
                    x: if old(self).particles@[i].x > width {
                        width
                    } else {
                        old(self).particles@[i].x
                    },
                    y: if old(self).particles@[i].y > height {
                        height
                    } else {
                        old(self).particles@[i].y
                    },
                    ..old(self).particles@[i]
                }),
            final(self).mouse_connections == old(self).mouse_connections,
            final(self).rng == old(self).rng,
    {
        self.params.width = width;
        self.params.height = height;
        let n = self.particles.len();
        let mut updated: Vec<Particle> = Vec::new();
        let mut i: usize = 0;
        while i < n
            invariant
                i <= n,
                n == self.particles@.len(),
                self.particles@ == old(self).particles@,
                -COORD_LIMIT <= width <= COORD_LIMIT,
                -COORD_LIMIT <= height <= COORD_LIMIT,
                forall|j: int| 0 <= j < n ==> particle_wf(#[trigger] self.particles@[j]),
                updated@.len() == i,
                forall|j: int|
                    0 <= j < i ==> #[trigger] updated@[j] == (Particle {
                        x: if old(self).particles@[j].x > width {
                            width
                        } else {
                            old(self).particles@[j].x
                        },
                        y: if old(self).particles@[j].y > height {
                            height
                        } else {
                            old(self).particles@[j].y
                        },
                        ..old(self).particles@[j]
                    }),
                forall|j: int| 0 <= j < i ==> particle_wf(#[trigger] updated@[j]),
            decreases n - i,
        {
            let mut p = self.particles[i];
            if p.x > width {
                p.x = width;
            }
            if p.y > height {
                p.y = height;
            }
            updated.push(p);
            i = i + 1;
        }
        self.particles = updated;
    }

    /// Advance every particle one frame and rebuild the pointer links.
    ///
    /// The whole step is a function of the prior state: each particle's new
    /// fields satisfy the step relation, the links are exactly those of the
    /// particles the pointer reached, in store order, and the random source
    /// advances once per captured particle.
    pub fn update(&mut self)
        requires
            old(self).wf(),
        ensures
            final(self).wf(),
            final(self).params == old(self).params,
            final(self).particles@.len() == old(self).particles@.len(),
            forall|i: int|
                0 <= i < old(self).particles@.len() ==> #[trigger] step_particle_rel(
                    old(self).particles@[i],
                    old(self).params,
                    rng_after(old(self).particles@, old(self).params, old(self).rng.state, i),
                    final(self).particles@[i],
                    link_of(old(self).particles@[i], old(self).params),
                    rng_after(old(self).particles@, old(self).params, old(self).rng.state, i + 1),
                ),
            final(self).mouse_connections@ == links_upto(
                old(self).particles@,
                old(self).params,
                old(self).particles@.len() as int,
            ),
            final(self).rng.state == rng_after(
                old(self).particles@,
                old(self).params,
                old(self).rng.state,
                old(self).particles@.len() as int,
            ),
            old(self).params.width >= 0 && old(self).params.height >= 0 ==> forall|i: int|
                0 <= i < old(self).particles@.len()
                    ==> 0 <= (#[trigger] final(self).particles@[i]).x <= old(self).params.width
                    && 0 <= final(self).particles@[i].y <= old(self).params.height,
    {
        let ps = self.params;
        let n = self.particles.len();
        let ghost parts0 = self.particles@;
        let ghost rng0 = self.rng.state;
        let mut stepped: Vec<Particle> = Vec::new();
        let mut links: Vec<(usize, i64)> = Vec::new();
        let mut i: usize = 0;
        while i < n
            invariant
                i <= n,
                n == self.particles@.len(),
                self.particles@ == parts0,
                self.params == ps,
                ps == old(self).params,
                parts0 == old(self).particles@,
                rng0 == old(self).rng.state,
                params_wf(ps),
                n <= COUNT_LIMIT,
                forall|j: int| 0 <= j < n ==> particle_wf(#[trigger] parts0[j]),
                stepped@.len() == i,
                forall|j: int|
                    0 <= j < i ==> #[trigger] step_particle_rel(
                        parts0[j],
                        ps,
                        rng_after(parts0, ps, rng0, j),
                        stepped@[j],
                        link_of(parts0[j], ps),
                        rng_after(parts0, ps, rng0, j + 1),
                    ),
                forall|j: int| 0 <= j < i ==> particle_wf(#[trigger] stepped@[j]),
                ps.width >= 0 && ps.height >= 0 ==> forall|j: int|
                    0 <= j < i ==> 0 <= (#[trigger] stepped@[j]).x <= ps.width && 0 <= stepped@[
                        j].y <= ps.height,
                links@ == links_upto(parts0, ps, i as int),
                forall|k: int| 0 <= k < links@.len() ==> (#[trigger] links@[k]).0 < n,
                self.rng.state == rng_after(parts0, ps, rng0, i as int),
            decreases n - i,
        {
            let p = self.particles[i];
            let (q, link) = step_particle(p, ps, &mut self.rng);
            stepped.push(q);
            proof {
                assert(rng_after(parts0, ps, rng0, i + 1int) == step_rng(
                    parts0[i as int],
                    ps,
                    rng_after(parts0, ps, rng0, i as int),
                ));
                assert(link == link_of(parts0[i as int], ps));
            }
            match link {
                Some(s) => {
                    links.push((i, s));
                },
                None => {},
            }
            proof {
                assert(links@ == links_upto(parts0, ps, i + 1int));
            }
            i = i + 1;
        }
        self.particles = stepped;
        self.mouse_connections = links;
    }

    /// The render snapshot: `x, y, size` per particle, in store order.
    pub fn get_particles(&self) -> (r: Vec<i64>)
        requires
            self.wf(),
        ensures
            r@.len() == 3 * self.particles@.len(),
            forall|i: int|
                0 <= i < self.particles@.len() ==> r@[3 * i] == (
                #[trigger] self.particles@[i]).x && r@[3 * i + 1] == self.particles@[i].y && r@[3
                    * i + 2] == self.particles@[i].size,
    {
        let n = self.particles.len();
        let mut out: Vec<i64> = Vec::new();
        let mut i: usize = 0;
        while i < n
            invariant
                i <= n,
                n == self.particles@.len(),
                n <= COUNT_LIMIT,
                out@.len() == 3 * i,
                forall|j: int|
                    0 <= j < i ==> out@[3 * j] == (#[trigger] self.particles@[j]).x && out@[3 * j
                        + 1] == self.particles@[j].y && out@[3 * j + 2] == self.particles@[
                        j].size,
            decreases n - i,
        {
            let p = self.particles[i];
            out.push(p.x);
            out.push(p.y);
            out.push(p.size);
            i = i + 1;
        }
        out
    }
}

/// Whether every field of the particle is inside the fixed-point ranges.
fn particle_ok(p: &Particle) -> (r: bool)
    ensures
        r == particle_wf(*p),
{
    -COORD_LIMIT <= p.x && p.x <= COORD_LIMIT && -COORD_LIMIT <= p.y && p.y <= COORD_LIMIT
        && -1_000_000 <= p.base_vx && p.base_vx <= 1_000_000 && -1_000_000 <= p.base_vy
        && p.base_vy <= 1_000_000 && 0 <= p.orbit_angle && p.orbit_angle < TURN && 0
        <= p.orbit_speed && p.orbit_speed <= SCALE && 0 <= p.orbit_radius && p.orbit_radius
        <= 2_000_000
}

} // verus!
