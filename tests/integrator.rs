use rod_dynamics::{Boundary, MassPoint, MassSpringSystem, RodError, Spring, Vec3, Wide3, UNIT};

fn speed2(v: Vec3) -> i128 {
    let (x, y, z) = (v.x as i128, v.y as i128, v.z as i128);
    x * x + y * y + z * z
}

/// Point 0 fixed at the origin, point 1 free `height` above it, one spring.
fn pendulum(gravity_y: i64, mass: i64, height: i64, rest: i64, stiffness: i64, damping: i64) -> MassSpringSystem {
    let mut sys = MassSpringSystem::new(Vec3::new(0, gravity_y, 0), 20 * UNIT).unwrap();
    assert_eq!(sys.add_mass(MassPoint::new(Vec3::zero(), mass, true)), Ok(0));
    assert_eq!(sys.add_mass(MassPoint::new(Vec3::new(0, height, 0), mass, false)), Ok(1));
    assert_eq!(sys.add_spring(Spring::new(0, 1, rest, stiffness, damping)), Ok(()));
    sys
}

#[test]
fn hanging_mass_settles_below_rest() {
    // 0.1 kg on a 1 m spring of 100 N/m and 5 N s/m under 9.81 m/s^2.
    let mut sys = pendulum(-9_810_000, 100_000, UNIT, UNIT, 100 * UNIT, 5 * UNIT);
    let start = sys.masses[1].velocity;
    assert_eq!(speed2(start), 0);
    for _ in 0..500 {
        assert_eq!(sys.advance(16_000, 8), Ok(()));
    }
    let p = sys.masses[1];
    // Spring force balances gravity 0.00981 m below the rest position.
    assert!((p.position.y - 990_190).abs() < 100, "y = {}", p.position.y);
    assert_eq!(p.position.x, 0);
    assert_eq!(p.position.z, 0);
    // Under a millimetre per second.
    assert!(speed2(p.velocity) < 1_000 * 1_000);
    assert_eq!(sys.masses[0].position, Vec3::zero());
}

#[test]
fn one_substep_exact_values() {
    // 1 kg, 2 m away from the fixed point on a 1 m spring of 10 N/m, 0.1 s.
    let mut sys = pendulum(0, UNIT, 2 * UNIT, UNIT, 10 * UNIT, 0);
    assert_eq!(sys.advance(100_000, 1), Ok(()));
    // 10 N pulls it back: 10 m/s^2 for 0.1 s.
    assert_eq!(sys.masses[1].velocity, Vec3::new(0, -1_000_000, 0));
    assert_eq!(sys.masses[1].position, Vec3::new(0, 1_900_000, 0));
    assert_eq!(sys.last_forces[1], Wide3 { x: 0, y: -10_000_000, z: 0 });
    assert_eq!(sys.last_forces[0], Wide3 { x: 0, y: 0, z: 0 });
    assert_eq!(sys.acceleration(1), Wide3 { x: 0, y: -10_000_000, z: 0 });
}

#[test]
fn spring_forces_are_equal_and_opposite() {
    let mut sys = MassSpringSystem::new(Vec3::zero(), 20 * UNIT).unwrap();
    sys.add_mass(MassPoint::new(Vec3::zero(), UNIT, false)).unwrap();
    sys.add_mass(MassPoint::new(Vec3::new(0, 2 * UNIT, 0), UNIT, false)).unwrap();
    sys.add_spring(Spring::new(0, 1, UNIT, 10 * UNIT, 2 * UNIT)).unwrap();
    assert_eq!(sys.advance(100_000, 4), Ok(()));
    let (a, b) = (sys.last_forces[0], sys.last_forces[1]);
    assert_eq!(a, Wide3 { x: 0, y: 6_643_604, z: 0 });
    assert_eq!((a.x + b.x, a.y + b.y, a.z + b.z), (0, 0, 0));
    // Equal masses: equal and opposite velocities.
    assert_eq!(sys.masses[0].velocity, Vec3::new(0, 831_754, 0));
    assert_eq!(sys.masses[1].velocity, Vec3::new(0, -831_754, 0));
    assert_eq!(sys.masses[0].position, Vec3::new(0, 55_480, 0));
    assert_eq!(sys.masses[1].position, Vec3::new(0, 1_944_520, 0));
}

#[test]
fn rest_state_stays_at_rest() {
    let mut sys = MassSpringSystem::new(Vec3::zero(), 20 * UNIT).unwrap();
    for i in 0..4 {
        sys.add_mass(MassPoint::new(Vec3::new(0, 0, 250_000 * i), 200_000, i == 0)).unwrap();
    }
    for i in 0..3 {
        sys.add_spring(Spring::new(i, i + 1, 250_000, 50 * UNIT, 3 * UNIT)).unwrap();
    }
    let before = sys.masses.clone();
    for _ in 0..50 {
        sys.advance(16_000, 8).unwrap();
    }
    assert_eq!(sys.masses, before);
}

#[test]
fn coincident_points_feel_no_spring() {
    let mut sys = MassSpringSystem::new(Vec3::zero(), 20 * UNIT).unwrap();
    sys.add_mass(MassPoint::new(Vec3::new(5, 5, 5), UNIT, false)).unwrap();
    sys.add_mass(MassPoint::new(Vec3::new(5, 5, 5), UNIT, false)).unwrap();
    sys.add_spring(Spring::new(0, 1, UNIT, 100 * UNIT, 10 * UNIT)).unwrap();
    sys.advance(16_000, 8).unwrap();
    assert_eq!(sys.masses[0].velocity, Vec3::zero());
    assert_eq!(sys.masses[1].velocity, Vec3::zero());
    assert_eq!(sys.masses[0].position, Vec3::new(5, 5, 5));
}

#[test]
fn external_force_acts_once_then_clears() {
    let mut sys = MassSpringSystem::new(Vec3::zero(), 20 * UNIT).unwrap();
    sys.add_mass(MassPoint::new(Vec3::zero(), UNIT, false)).unwrap();
    // 1 N on 1 kg, first of 4 sub-steps of 25 ms: 0.025 m/s.
    sys.apply_force(0, Vec3::new(UNIT, 0, 0)).unwrap();
    sys.advance(100_000, 4).unwrap();
    assert_eq!(sys.masses[0].velocity, Vec3::new(25_000, 0, 0));
    assert_eq!(sys.masses[0].position, Vec3::new(2_500, 0, 0));
    assert_eq!(sys.external_forces[0], Vec3::zero());
    sys.advance(100_000, 4).unwrap();
    assert_eq!(sys.masses[0].velocity, Vec3::new(25_000, 0, 0));
    assert_eq!(sys.masses[0].position, Vec3::new(5_000, 0, 0));
}

#[test]
fn forces_superpose() {
    let build = || {
        let mut sys = pendulum(-9_810_000, 300_000, UNIT, 900_000, 40 * UNIT, 2 * UNIT);
        sys.add_mass(MassPoint::new(Vec3::new(0, 2 * UNIT, 0), 300_000, false)).unwrap();
        sys.add_spring(Spring::new(1, 2, UNIT, 40 * UNIT, 2 * UNIT)).unwrap();
        sys
    };
    let mut twice = build();
    twice.apply_force(2, Vec3::new(3 * UNIT, -UNIT, 7)).unwrap();
    twice.apply_force(2, Vec3::new(-UNIT, 4 * UNIT, 5)).unwrap();
    let mut once = build();
    once.apply_force(2, Vec3::new(2 * UNIT, 3 * UNIT, 12)).unwrap();
    assert_eq!(twice.external_forces, once.external_forces);
    twice.advance(16_000, 8).unwrap();
    once.advance(16_000, 8).unwrap();
    assert_eq!(twice.masses, once.masses);
    assert_ne!(once.masses[2].velocity, Vec3::zero());
}

#[test]
fn velocity_clamp_holds_under_huge_force() {
    let mut sys = MassSpringSystem::new(Vec3::zero(), 20 * UNIT).unwrap();
    sys.add_mass(MassPoint::new(Vec3::zero(), 1, false)).unwrap();
    sys.apply_force(0, Vec3::new(1_000_000_000_000_000, -1_000_000_000_000_000, 3)).unwrap();
    sys.advance(10_000_000, 1).unwrap();
    let v = sys.masses[0].velocity;
    let max2 = (20 * UNIT as i128) * (20 * UNIT as i128);
    assert!(speed2(v) <= max2);
    // Scaled down to the clamp, not below it, keeping the direction.
    assert!(speed2(v) >= (19_999_990i128 * 19_999_990));
    assert_eq!(v.x, -v.y);
}

#[test]
fn velocity_clamp_does_not_touch_slow_points() {
    let mut sys = MassSpringSystem::new(Vec3::zero(), 2 * UNIT).unwrap();
    sys.add_mass(MassPoint::new(Vec3::zero(), UNIT, false)).unwrap();
    // Exactly the clamp: kept.
    sys.apply_force(0, Vec3::new(20 * UNIT, 0, 0)).unwrap();
    sys.advance(100_000, 1).unwrap();
    assert_eq!(sys.masses[0].velocity, Vec3::new(2 * UNIT, 0, 0));
    // One more unit of speed: scaled back.
    let mut fast = MassSpringSystem::new(Vec3::zero(), 2 * UNIT).unwrap();
    fast.add_mass(MassPoint::new(Vec3::zero(), UNIT, false)).unwrap();
    fast.apply_force(0, Vec3::new(20 * UNIT + 10, 0, 0)).unwrap();
    fast.advance(100_000, 1).unwrap();
    assert_eq!(fast.masses[0].velocity, Vec3::new(2 * UNIT, 0, 0));
}

#[test]
fn fixed_point_never_moves() {
    let mut sys = pendulum(-9_810_000, 100_000, UNIT, 500_000, 100 * UNIT, UNIT);
    for _ in 0..100 {
        sys.advance(16_000, 8).unwrap();
        assert_eq!(sys.masses[0].position, Vec3::zero());
        assert_eq!(sys.masses[0].velocity, Vec3::zero());
        assert_eq!(sys.masses[0].boundary, Boundary::Fixed);
    }
}

#[test]
fn gravity_accelerates_free_fall() {
    let mut sys = MassSpringSystem::new(Vec3::new(0, -10 * UNIT, 0), 20 * UNIT).unwrap();
    sys.add_mass(MassPoint::new(Vec3::new(0, 100 * UNIT, 0), 2 * UNIT, false)).unwrap();
    sys.advance(100_000, 2).unwrap();
    // Two sub-steps of 50 ms: -0.5 then -1 m/s; drops 25 mm then 50 mm.
    assert_eq!(sys.masses[0].velocity, Vec3::new(0, -UNIT, 0));
    assert_eq!(sys.masses[0].position, Vec3::new(0, 100 * UNIT - 75_000, 0));
}

#[test]
fn position_stops_at_world_wall() {
    let mut sys = MassSpringSystem::new(Vec3::zero(), 1_000 * UNIT).unwrap();
    let mut p = MassPoint::new(Vec3::new(999 * UNIT, 0, 0), UNIT, false);
    p.velocity = Vec3::new(1_000 * UNIT, 0, 0);
    sys.add_mass(p).unwrap();
    sys.advance(10 * UNIT, 1).unwrap();
    assert_eq!(sys.masses[0].position.x, 1_000 * UNIT);
}

#[test]
fn advance_rejects_bad_steps() {
    let mut sys = pendulum(-9_810_000, 100_000, UNIT, UNIT, 100 * UNIT, 5 * UNIT);
    let before = sys.masses.clone();
    assert_eq!(sys.advance(-1, 8), Err(RodError::InvalidTimeStep));
    assert_eq!(sys.advance(16_000, 0), Err(RodError::InvalidTimeStep));
    assert_eq!(sys.advance(10 * UNIT + 1, 8), Err(RodError::InvalidTimeStep));
    assert_eq!(sys.masses, before);
    assert_eq!(sys.advance(10 * UNIT, 8), Ok(()));
}

#[test]
fn apply_force_rejects_bad_requests() {
    let mut sys = pendulum(0, 100_000, UNIT, UNIT, 100 * UNIT, 5 * UNIT);
    assert_eq!(sys.apply_force(2, Vec3::new(1, 1, 1)), Err(RodError::IndexOutOfRange));
    let big = 1_000_000_000_000_000;
    assert_eq!(sys.apply_force(1, Vec3::new(big, 0, 0)), Ok(()));
    assert_eq!(sys.apply_force(1, Vec3::new(1, 0, 0)), Err(RodError::ValueOutOfRange));
    assert_eq!(sys.external_forces[1], Vec3::new(big, 0, 0));
    assert_eq!(sys.external_forces[0], Vec3::zero());
}

#[test]
fn construction_rejects_bad_parts() {
    assert_eq!(MassSpringSystem::new(Vec3::new(0, -1_000_000_001, 0), UNIT).err(), Some(RodError::ValueOutOfRange));
    assert_eq!(MassSpringSystem::new(Vec3::zero(), -1).err(), Some(RodError::ValueOutOfRange));
    let mut sys = MassSpringSystem::new(Vec3::zero(), UNIT).unwrap();
    assert_eq!(sys.add_mass(MassPoint::new(Vec3::zero(), 0, false)), Err(RodError::NonPositiveMass));
    assert_eq!(sys.add_mass(MassPoint::new(Vec3::zero(), -5, false)), Err(RodError::NonPositiveMass));
    assert_eq!(
        sys.add_mass(MassPoint::new(Vec3::new(0, 1_000_000_001, 0), 1, false)),
        Err(RodError::ValueOutOfRange)
    );
    let mut fast = MassPoint::new(Vec3::zero(), 1, false);
    fast.velocity = Vec3::new(UNIT, 1, 0);
    assert_eq!(sys.add_mass(fast), Err(RodError::ValueOutOfRange));
    assert_eq!(sys.add_mass(MassPoint::new(Vec3::zero(), 1, false)), Ok(0));
    assert_eq!(sys.add_mass(MassPoint::new(Vec3::new(0, UNIT, 0), 1, false)), Ok(1));
    assert_eq!(sys.add_spring(Spring::new(0, 2, 1, 1, 1)), Err(RodError::IndexOutOfRange));
    assert_eq!(sys.add_spring(Spring::new(1, 1, 1, 1, 1)), Err(RodError::IndexOutOfRange));
    assert_eq!(sys.add_spring(Spring::new(0, 1, -1, 1, 1)), Err(RodError::NegativeRestLength));
    assert_eq!(sys.add_spring(Spring::new(0, 1, 1, -1, 1)), Err(RodError::ValueOutOfRange));
    assert_eq!(sys.add_spring(Spring::new(0, 1, 1, 1, 10_000_000_001)), Err(RodError::ValueOutOfRange));
    assert_eq!(sys.springs.len(), 0);
    assert_eq!(sys.add_spring(Spring::new(1, 0, 1, 1, 1)), Ok(()));
    assert_eq!(sys.springs.len(), 1);
}
