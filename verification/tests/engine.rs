use particles::fixed::{abs64, isqrt64, tdiv64};
use particles::rng::Lcg;
use particles::trig::{atan2_exec, cos_exec, sin_exec, HALF_TURN, QUARTER_TURN};
use particles::{MotionPolicy, Particle, ParticleSystem};

fn still_particle(x: i64, y: i64) -> Particle {
    Particle {
        x,
        y,
        vx: 0,
        vy: 0,
        size: 2000,
        base_vx: 0,
        base_vy: 0,
        orbit_angle: 0,
        orbit_speed: 4,
        orbit_radius: 10_000,
        is_orbiting: false,
    }
}

fn system_with(
    width: i64,
    height: i64,
    connection_distance: i64,
    policy: MotionPolicy,
    parts: Vec<Particle>,
) -> ParticleSystem {
    ParticleSystem::with_particles(width, height, connection_distance, policy, parts, 42)
        .expect("values in range")
}

#[test]
fn fixed_point_helpers() {
    assert_eq!(tdiv64(7, 2), 3);
    assert_eq!(tdiv64(-7, 2), -3);
    assert_eq!(tdiv64(0, 5), 0);
    assert_eq!(abs64(-9), 9);
    assert_eq!(isqrt64(0), 0);
    assert_eq!(isqrt64(3), 1);
    assert_eq!(isqrt64(4), 2);
    assert_eq!(isqrt64(1_000_000_000_000), 1_000_000);
    assert_eq!(isqrt64(99), 9);
}

#[test]
fn trig_anchors() {
    assert_eq!(sin_exec(0), 0);
    assert_eq!(sin_exec(QUARTER_TURN), 1000);
    assert_eq!(cos_exec(0), 1000);
    assert!(cos_exec(HALF_TURN).abs() >= 990);
    assert_eq!(atan2_exec(0, 1000), 0);
    assert_eq!(atan2_exec(1000, 0), QUARTER_TURN);
}

#[test]
fn new_seeds_particles_in_ranges() {
    let sys = ParticleSystem::new(100_000, 80_000, 10, 20_000);
    let buf = sys.get_particles();
    assert_eq!(buf.len(), 30);
    for i in 0..10 {
        let x = buf[3 * i];
        let y = buf[3 * i + 1];
        let size = buf[3 * i + 2];
        assert!((0..100_000).contains(&x));
        assert!((0..80_000).contains(&y));
        assert!((1000..3000).contains(&size));
        let p = sys.particles[i];
        assert!((-400..400).contains(&p.base_vx));
        assert!((-400..400).contains(&p.base_vy));
        assert_eq!(p.vx, p.base_vx);
        assert!((2..8).contains(&p.orbit_speed));
        assert!((5000..60_000).contains(&p.orbit_radius));
        assert!(!p.is_orbiting);
    }
    assert!(sys.get_mouse_connections().is_empty());
}

#[test]
fn degenerate_bounds_accepted() {
    let sys = ParticleSystem::new(0, 0, 3, 20_000);
    let buf = sys.get_particles();
    for i in 0..3 {
        assert_eq!(buf[3 * i], 0);
        assert_eq!(buf[3 * i + 1], 0);
    }
}

#[test]
fn pointer_inactive_yields_no_links_and_base_velocity() {
    let mut p1 = still_particle(10_000, 10_000);
    p1.base_vx = 300;
    p1.base_vy = -200;
    let mut p2 = still_particle(40_000, 40_000);
    p2.base_vx = -100;
    let mut sys = system_with(100_000, 100_000, 20_000, MotionPolicy::Bounce, vec![p1, p2]);
    sys.update();
    assert!(sys.mouse_connections.is_empty());
    assert!(sys.get_mouse_connections().is_empty());
    assert_eq!(sys.particles[0].vx, 300);
    assert_eq!(sys.particles[0].vy, -200);
    assert_eq!(sys.particles[1].vx, -100);
    assert_eq!(sys.particles[0].x, 10_300);
    assert_eq!(sys.particles[0].y, 9_800);
}

#[test]
fn bounce_keeps_particles_inside() {
    let mut p = still_particle(0, 0);
    p.base_vx = -300;
    p.base_vy = -200;
    let mut sys = system_with(100_000, 100_000, 20_000, MotionPolicy::Bounce, vec![p]);
    sys.update();
    assert_eq!(sys.particles[0].x, 0);
    assert_eq!(sys.particles[0].y, 0);
    assert_eq!(sys.particles[0].base_vx, 300);
    assert_eq!(sys.particles[0].base_vy, 200);
    for _ in 0..50 {
        sys.update();
        let q = sys.particles[0];
        assert!(q.x >= 0 && q.x <= 100_000);
        assert!(q.y >= 0 && q.y <= 100_000);
    }
}

#[test]
fn bounce_reflects_at_far_edge() {
    let mut p = still_particle(100_000, 50_000);
    p.base_vx = 500;
    let mut sys = system_with(100_000, 100_000, 20_000, MotionPolicy::Bounce, vec![p]);
    sys.update();
    assert_eq!(sys.particles[0].x, 100_000);
    assert_eq!(sys.particles[0].base_vx, -500);
}

#[test]
fn wrap_teleports_and_clears_capture() {
    let mut p = still_particle(0, 5000);
    p.base_vx = -5000;
    p.is_orbiting = true;
    let mut q = still_particle(100_000, 7000);
    q.base_vx = 5000;
    let mut sys = system_with(100_000, 100_000, 20_000, MotionPolicy::Orbit, vec![p, q]);
    sys.update();
    assert_eq!(sys.particles[0].x, 100_000);
    assert!(!sys.particles[0].is_orbiting);
    assert_eq!(sys.particles[1].x, 0);
    assert!(!sys.particles[1].is_orbiting);
}

#[test]
fn two_close_particles_link_once_with_half_opacity() {
    let sys = system_with(
        100_000,
        100_000,
        20_000,
        MotionPolicy::Bounce,
        vec![still_particle(0, 0), still_particle(10_000, 0)],
    );
    let buf = sys.calculate_connections();
    assert_eq!(buf, vec![0, 0, 10_000, 0, 500]);
}

#[test]
fn pair_count_stays_within_half_matrix() {
    let sys = system_with(
        100_000,
        100_000,
        20_000,
        MotionPolicy::Bounce,
        vec![
            still_particle(0, 0),
            still_particle(5_000, 0),
            still_particle(0, 5_000),
        ],
    );
    let buf = sys.calculate_connections();
    assert_eq!(buf.len() % 5, 0);
    let entries = buf.len() / 5;
    assert_eq!(entries, 3);
    assert!(entries <= 3 * 2 / 2 + 2);
}

#[test]
fn coincident_pair_has_full_opacity() {
    let sys = system_with(
        100_000,
        100_000,
        20_000,
        MotionPolicy::Bounce,
        vec![still_particle(7_000, 7_000), still_particle(7_000, 7_000)],
    );
    let buf = sys.calculate_connections();
    assert_eq!(buf, vec![7_000, 7_000, 7_000, 7_000, 1000]);
}

#[test]
fn seam_guard_drops_wide_pairs() {
    let sys = system_with(
        100_000,
        100_000,
        70_000,
        MotionPolicy::Bounce,
        vec![still_particle(0, 0), still_particle(60_000, 0)],
    );
    assert!(sys.calculate_connections().is_empty());
}

#[test]
fn opacity_boosted_near_pointer() {
    let mut sys = system_with(
        100_000,
        100_000,
        20_000,
        MotionPolicy::Bounce,
        vec![still_particle(0, 0), still_particle(10_000, 0)],
    );
    sys.update_mouse_position(0, 0);
    let buf = sys.calculate_connections();
    assert_eq!(buf, vec![0, 0, 10_000, 0, 650]);
}

#[test]
fn pointer_at_particle_links_with_full_strength() {
    let mut sys = system_with(
        100_000,
        100_000,
        20_000,
        MotionPolicy::Bounce,
        vec![still_particle(5_000, 5_000)],
    );
    sys.update_mouse_position(5_000, 5_000);
    sys.update();
    assert_eq!(sys.get_mouse_connections(), vec![5_000, 5_000, 1000]);
    assert_eq!(sys.particles[0].x, 5_000);
    assert_eq!(sys.particles[0].y, 5_000);
    assert_eq!(sys.particles[0].vx, 0);
}

#[test]
fn pointer_pulls_particle_inward() {
    let mut sys = system_with(
        100_000,
        100_000,
        20_000,
        MotionPolicy::Bounce,
        vec![still_particle(15_000, 5_000)],
    );
    sys.update_mouse_position(5_000, 5_000);
    sys.update();
    assert_eq!(sys.get_mouse_connections(), vec![14_652, 5_000, 872]);
    assert_eq!(sys.particles[0].x, 14_652);
    assert_eq!(sys.particles[0].y, 5_000);
    assert_eq!(sys.particles[0].vx, -348);
}

#[test]
fn pointer_seam_guard_drops_far_link() {
    let mut sys = system_with(
        8_000,
        100_000,
        2_000,
        MotionPolicy::Bounce,
        vec![still_particle(0, 5_000)],
    );
    sys.update_mouse_position(5_000, 5_000);
    sys.update();
    assert_eq!(sys.mouse_connections.len(), 1);
    assert!(sys.get_mouse_connections().is_empty());
}

#[test]
fn orbit_captures_nearby_particle() {
    let mut sys = system_with(
        1_000_000,
        1_000_000,
        20_000,
        MotionPolicy::Orbit,
        vec![still_particle(510_000, 500_000)],
    );
    sys.update_mouse_position(500_000, 500_000);
    sys.update();
    let p = sys.particles[0];
    assert!(p.is_orbiting);
    assert_eq!(p.orbit_angle, 0);
    assert_eq!(p.orbit_radius, 10_000);
    assert_eq!(p.x, 510_000);
    assert_eq!(p.y, 500_000);
    assert_eq!(sys.get_mouse_connections(), vec![510_000, 500_000, 934]);
}

#[test]
fn negative_force_repels() {
    let mut sys = system_with(
        100_000,
        100_000,
        20_000,
        MotionPolicy::Bounce,
        vec![still_particle(15_000, 5_000)],
    );
    sys.set_mouse_force(-1000);
    sys.update_mouse_position(5_000, 5_000);
    sys.update();
    assert_eq!(sys.particles[0].x, 15_348);
    assert_eq!(sys.particles[0].vx, 348);
    assert_eq!(sys.get_mouse_connections(), vec![15_348, 5_000, -872]);
}

#[test]
fn orbit_releases_and_decays_radius() {
    let mut p = still_particle(900_000, 500_000);
    p.is_orbiting = true;
    p.orbit_radius = 10_000;
    let mut sys = system_with(1_000_000, 1_000_000, 20_000, MotionPolicy::Orbit, vec![p]);
    sys.update_mouse_position(500_000, 500_000);
    sys.update();
    let q = sys.particles[0];
    assert!(!q.is_orbiting);
    assert_eq!(q.orbit_radius, 9_500);
    assert_eq!(q.vx, 0);
}

#[test]
fn steps_are_deterministic() {
    let seed_parts = || {
        vec![
            still_particle(505_000, 500_000),
            still_particle(480_000, 510_000),
            still_particle(200_000, 200_000),
        ]
    };
    let mut a = ParticleSystem::with_particles(
        1_000_000,
        1_000_000,
        50_000,
        MotionPolicy::Orbit,
        seed_parts(),
        7,
    )
    .unwrap();
    let mut b = ParticleSystem::with_particles(
        1_000_000,
        1_000_000,
        50_000,
        MotionPolicy::Orbit,
        seed_parts(),
        7,
    )
    .unwrap();
    a.update_mouse_position(500_000, 500_000);
    b.update_mouse_position(500_000, 500_000);
    for _ in 0..5 {
        a.update();
        b.update();
        assert_eq!(a.get_particles(), b.get_particles());
        assert_eq!(a.get_mouse_connections(), b.get_mouse_connections());
        assert_eq!(a.rng.state, b.rng.state);
    }
}

#[test]
fn resize_clamps_only_the_upper_side() {
    let mut sys = system_with(
        100_000,
        100_000,
        20_000,
        MotionPolicy::Bounce,
        vec![still_particle(90_000, 95_000), still_particle(10_000, 10_000)],
    );
    sys.resize(50_000, 60_000);
    assert_eq!(sys.params.width, 50_000);
    assert_eq!(sys.params.height, 60_000);
    assert_eq!(sys.particles[0].x, 50_000);
    assert_eq!(sys.particles[0].y, 60_000);
    assert_eq!(sys.particles[1].x, 10_000);
    assert_eq!(sys.particles[1].y, 10_000);
}

#[test]
fn setters_update_parameters() {
    let mut sys = system_with(100_000, 100_000, 20_000, MotionPolicy::Bounce, vec![]);
    sys.set_mouse_force(500);
    assert_eq!(sys.params.mouse_force, 500);
    sys.set_max_attraction_force(200);
    assert_eq!(sys.params.max_attraction_force, 200);
    sys.set_border_restitution(800);
    assert_eq!(sys.params.border_restitution, 800);
    sys.set_policy(MotionPolicy::Orbit);
    assert_eq!(sys.params.policy, MotionPolicy::Orbit);
}

#[test]
fn restitution_scales_reflected_drift() {
    let mut p = still_particle(0, 50_000);
    p.base_vx = -400;
    let mut sys = system_with(100_000, 100_000, 20_000, MotionPolicy::Bounce, vec![p]);
    sys.set_border_restitution(500);
    sys.update();
    assert_eq!(sys.particles[0].x, 0);
    assert_eq!(sys.particles[0].base_vx, 200);
}

#[test]
fn with_particles_rejects_out_of_range_values() {
    let mut bad = still_particle(0, 0);
    bad.orbit_radius = 3_000_000;
    assert!(ParticleSystem::with_particles(
        100_000,
        100_000,
        20_000,
        MotionPolicy::Bounce,
        vec![bad],
        1,
    )
    .is_none());
    assert!(ParticleSystem::with_particles(
        2_000_000_000,
        100_000,
        20_000,
        MotionPolicy::Bounce,
        vec![],
        1,
    )
    .is_none());
}

#[test]
fn zero_connection_distance_links_nothing() {
    let sys = system_with(
        100_000,
        100_000,
        0,
        MotionPolicy::Bounce,
        vec![still_particle(0, 0), still_particle(10, 0)],
    );
    assert!(sys.calculate_connections().is_empty());
}

#[test]
fn orbit_easing_follows_the_seeded_draw() {
    let mut sys = ParticleSystem::with_particles(
        1_000_000,
        1_000_000,
        20_000,
        MotionPolicy::Orbit,
        vec![still_particle(505_000, 500_000)],
        7,
    )
    .unwrap();
    sys.update_mouse_position(500_000, 500_000);
    sys.update();
    assert!(sys.particles[0].is_orbiting);
    assert_eq!(sys.particles[0].orbit_radius, 5_000);
    assert_eq!(sys.particles[0].orbit_angle, 0);

    let mut replay = Lcg::new(7);
    let raw = replay.next_u64();
    let target = 90_000 + (raw % 135_000) as i64;
    let expected = 5_000 + tdiv64(target - 5_000, 20);
    sys.update();
    assert_eq!(sys.particles[0].orbit_radius, expected);
    assert_eq!(sys.particles[0].orbit_angle, 4);
    assert_eq!(sys.rng.state, replay.state);
}

#[test]
fn pointer_links_come_in_store_order() {
    let mut sys = system_with(
        100_000,
        100_000,
        1_000,
        MotionPolicy::Bounce,
        vec![still_particle(5_000, 5_000), still_particle(6_000, 5_000)],
    );
    sys.update_mouse_position(5_000, 5_000);
    sys.update();
    let buf = sys.get_mouse_connections();
    assert_eq!(buf.len(), 6);
    assert_eq!(buf[0], 5_000);
    assert_eq!(buf[1], 5_000);
    assert_eq!(buf[2], 1000);
    assert_eq!(buf[4], 5_000);
}
