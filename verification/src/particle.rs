//! The particle value type and the global simulation parameters.

use vstd::prelude::*;
use crate::fixed::{
    COORD_LIMIT, FORCE_LIMIT, ORBIT_RADIUS_LIMIT, RADIUS_LIMIT, SCALE, VEL_LIMIT,
};
use crate::trig::TURN;

verus! {

/// How a particle reacts to the world border and to the pointer.
#[derive(Clone, Copy, PartialEq, Eq, Structural, Debug)]
pub enum MotionPolicy {
    /// Reflect the base velocity at the border; the pointer attracts radially.
    Bounce,
    /// Wrap to the opposite edge at the border; the pointer captures
    /// particles into an orbit.
    Orbit,
}

/// One point particle. All coordinates and velocities are in millis
/// (thousandths of a world unit); angles are in milliradians.
#[derive(Clone, Copy, PartialEq, Eq, Structural, Debug)]
pub struct Particle {
    /// Position, kept inside the world after every step.
    pub x: i64,
    /// Position, kept inside the world after every step.
    pub y: i64,
    /// Instantaneous velocity of the last step, pointer influence included.
    pub vx: i64,
    /// Instantaneous velocity of the last step, pointer influence included.
    pub vy: i64,
    /// Rendering radius; set at creation and never mutated.
    pub size: i64,
    /// Intrinsic drift; only this is reflected at borders under `Bounce`.
    pub base_vx: i64,
    /// Intrinsic drift; only this is reflected at borders under `Bounce`.
    pub base_vy: i64,
    /// Orbit-policy state: current angle around the pointer, in `[0, TURN)`.
    pub orbit_angle: i64,
    /// Orbit-policy state: angular speed per frame; never mutated.
    pub orbit_speed: i64,
    /// Orbit-policy state: current orbit radius.
    pub orbit_radius: i64,
    /// Whether the particle is currently captured by the pointer.
    pub is_orbiting: bool,
}

/// The bounds every particle keeps, so that each step's arithmetic fits.
pub open spec fn particle_wf(p: Particle) -> bool {
    &&& -COORD_LIMIT <= p.x <= COORD_LIMIT
    &&& -COORD_LIMIT <= p.y <= COORD_LIMIT
    &&& -VEL_LIMIT <= p.base_vx <= VEL_LIMIT
    &&& -VEL_LIMIT <= p.base_vy <= VEL_LIMIT
    &&& 0 <= p.orbit_angle < TURN
    &&& 0 <= p.orbit_speed <= SCALE
    &&& 0 <= p.orbit_radius <= ORBIT_RADIUS_LIMIT
}

/// The global simulation parameters, mutable by the host through setters.
#[derive(Clone, Copy, PartialEq, Eq, Structural, Debug)]
pub struct SimParams {
    /// World width, in millis.
    pub width: i64,
    /// World height, in millis.
    pub height: i64,
    /// Largest distance at which two particles are linked.
    pub connection_distance: i64,
    /// Pointer position; a far off-screen value means "no pointer".
    pub mouse_x: i64,
    /// Pointer position; a far off-screen value means "no pointer".
    pub mouse_y: i64,
    /// Pointer influence radius.
    pub mouse_radius: i64,
    /// Pointer force multiplier, in millis (1000 is 1.0).
    pub mouse_force: i64,
    /// Scales the inward pull under `Bounce`, in millis.
    pub max_attraction_force: i64,
    /// Scales the reflected base velocity at a border, in millis; at most
    /// 1000, so drift can never grow.
    pub border_restitution: i64,
    /// The selected motion policy.
    pub policy: MotionPolicy,
}

/// The bounds every parameter set keeps.
pub open spec fn params_wf(ps: SimParams) -> bool {
    &&& -COORD_LIMIT <= ps.width <= COORD_LIMIT
    &&& -COORD_LIMIT <= ps.height <= COORD_LIMIT
    &&& -COORD_LIMIT <= ps.connection_distance <= COORD_LIMIT
    &&& -COORD_LIMIT <= ps.mouse_x <= COORD_LIMIT
    &&& -COORD_LIMIT <= ps.mouse_y <= COORD_LIMIT
    &&& 0 <= ps.mouse_radius <= RADIUS_LIMIT
    &&& -FORCE_LIMIT <= ps.mouse_force <= FORCE_LIMIT
    &&& -FORCE_LIMIT <= ps.max_attraction_force <= FORCE_LIMIT
    &&& 0 <= ps.border_restitution <= SCALE
}

/// The pointer counts as present iff it lies inside the world bounds.
pub open spec fn pointer_active(ps: SimParams) -> bool {
    &&& 0 <= ps.mouse_x <= ps.width
    &&& 0 <= ps.mouse_y <= ps.height
}

} // verus!
