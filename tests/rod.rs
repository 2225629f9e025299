use rod_dynamics::{
    build_chain, default_zones, Boundary, FishingRod, RodError, Vec3, Zone, UNIT, WHOLE,
};

fn speed2(v: Vec3) -> i128 {
    let (x, y, z) = (v.x as i128, v.y as i128, v.z as i128);
    x * x + y * y + z * z
}

fn zone(upper: u64, stiffness: i64, damping: i64) -> Zone {
    Zone { upper, stiffness, damping }
}

#[test]
fn chain_is_evenly_spaced() {
    let base = Vec3::new(UNIT, 2 * UNIT, -UNIT);
    let sys = build_chain(base, 3 * UNIT, 15, &default_zones(), 300_000, Vec3::zero(), 20 * UNIT).unwrap();
    let pos = sys.positions();
    assert_eq!(pos.len(), 16);
    for (i, p) in pos.iter().enumerate() {
        assert_eq!(*p, Vec3::new(UNIT, 2 * UNIT + 200_000 * i as i64, -UNIT));
    }
    assert_eq!(sys.masses[0].boundary, Boundary::Fixed);
    assert!(sys.masses[1..].iter().all(|m| m.boundary == Boundary::Free && m.mass == 300_000));
    assert!(sys.masses.iter().all(|m| m.velocity == Vec3::zero()));
    assert_eq!(sys.springs.len(), 15);
    for (j, s) in sys.springs.iter().enumerate() {
        assert_eq!((s.point_a, s.point_b, s.rest_length), (j, j + 1, 200_000));
    }
}

#[test]
fn chain_springs_follow_zones() {
    let sys = build_chain(Vec3::zero(), 3 * UNIT, 15, &default_zones(), 300_000, Vec3::zero(), 20 * UNIT).unwrap();
    let stiff: Vec<i64> = sys.springs.iter().map(|s| s.stiffness).collect();
    let damp: Vec<i64> = sys.springs.iter().map(|s| s.damping).collect();
    let mut want_stiff = vec![5_000_000; 9];
    want_stiff.extend(vec![2_500_000; 3]);
    want_stiff.extend(vec![1_250_000; 3]);
    let mut want_damp = vec![1_000_000_000; 9];
    want_damp.extend(vec![800_000_000; 3]);
    want_damp.extend(vec![600_000_000; 3]);
    assert_eq!(stiff, want_stiff);
    assert_eq!(damp, want_damp);
}

#[test]
fn chain_zones_go_by_fraction_of_rod() {
    // 16 springs: 9/16 < 0.6 <= 10/16, 12/16 < 0.8 <= 13/16.
    let sys = build_chain(Vec3::zero(), 1_600_000, 16, &default_zones(), 300_000, Vec3::zero(), 20 * UNIT).unwrap();
    let stiff: Vec<i64> = sys.springs.iter().map(|s| s.stiffness).collect();
    assert_eq!(stiff[9], 5_000_000);
    assert_eq!(stiff[10], 2_500_000);
    assert_eq!(stiff[12], 2_500_000);
    assert_eq!(stiff[13], 1_250_000);
    // A single zone covers everything.
    let one = vec![zone(WHOLE, 7, 8)];
    let sys = build_chain(Vec3::zero(), UNIT, 4, &one, 1, Vec3::zero(), UNIT).unwrap();
    assert!(sys.springs.iter().all(|s| s.stiffness == 7 && s.damping == 8));
}

#[test]
fn chain_rejects_bad_parameters() {
    let z = default_zones();
    let g = Vec3::zero();
    let o = Vec3::zero();
    assert_eq!(build_chain(o, UNIT, 0, &z, 1, g, UNIT).err(), Some(RodError::NoSegments));
    assert_eq!(build_chain(o, -1, 3, &z, 1, g, UNIT).err(), Some(RodError::NegativeRestLength));
    assert_eq!(build_chain(o, UNIT, 3, &z, 0, g, UNIT).err(), Some(RodError::NonPositiveMass));
    assert_eq!(build_chain(o, UNIT, 3, &vec![], 1, g, UNIT).err(), Some(RodError::MalformedZones));
    let short = vec![zone(500_000, 1, 1), zone(900_000, 1, 1)];
    assert_eq!(build_chain(o, UNIT, 3, &short, 1, g, UNIT).err(), Some(RodError::MalformedZones));
    let backwards = vec![zone(500_000, 1, 1), zone(400_000, 1, 1), zone(WHOLE, 1, 1)];
    assert_eq!(build_chain(o, UNIT, 3, &backwards, 1, g, UNIT).err(), Some(RodError::MalformedZones));
    let empty_first = vec![zone(0, 1, 1), zone(WHOLE, 1, 1)];
    assert_eq!(build_chain(o, UNIT, 3, &empty_first, 1, g, UNIT).err(), Some(RodError::MalformedZones));
    let too_stiff = vec![zone(WHOLE, 10_000_000_001, 1)];
    assert_eq!(build_chain(o, UNIT, 3, &too_stiff, 1, g, UNIT).err(), Some(RodError::ValueOutOfRange));
    let high = Vec3::new(0, 999 * UNIT, 0);
    assert_eq!(build_chain(high, 2 * UNIT, 3, &z, 1, g, UNIT).err(), Some(RodError::ValueOutOfRange));
    assert_eq!(build_chain(o, UNIT, 1_000_000, &z, 1, g, UNIT).err(), Some(RodError::CapacityExceeded));
}

#[test]
fn chain_under_gravity_stays_finite() {
    let mut sys =
        build_chain(Vec3::new(0, UNIT, 0), 3 * UNIT, 15, &default_zones(), 300_000, Vec3::new(0, -9_810_000, 0), 20 * UNIT)
            .unwrap();
    let max2 = (20 * UNIT as i128) * (20 * UNIT as i128);
    for _ in 0..1000 {
        sys.advance(16_000, 8).unwrap();
        assert_eq!(sys.positions().len(), 16);
        for m in &sys.masses {
            assert!(speed2(m.velocity) <= max2);
            for c in [m.position.x, m.position.y, m.position.z] {
                assert!(c.abs() <= 1_000 * UNIT);
            }
        }
    }
    assert_eq!(sys.masses[0].position, Vec3::new(0, UNIT, 0));
}

#[test]
fn rod_grips_are_driven() {
    let rod = FishingRod::new(Vec3::new(0, UNIT, 0), 3 * UNIT, 15).unwrap();
    assert_eq!(rod.bottom_grip_index, 0);
    assert_eq!(rod.top_grip_index, 10);
    assert_eq!(rod.get_positions().len(), 16);
    for (i, m) in rod.system.masses.iter().enumerate() {
        let want = if i == 0 || i == 10 { Boundary::Driven } else { Boundary::Free };
        assert_eq!(m.boundary, want);
    }
    assert_eq!(rod.system.gravity, Vec3::zero());
    assert_eq!(rod.system.max_velocity, 20 * UNIT);
    assert_eq!(FishingRod::new(Vec3::zero(), UNIT, 0).err(), Some(RodError::NoSegments));
    assert_eq!(FishingRod::new(Vec3::zero(), -UNIT, 3).err(), Some(RodError::NegativeRestLength));
    assert_eq!(FishingRod::new(Vec3::new(0, 999 * UNIT, 0), 2 * UNIT, 3).err(), Some(RodError::ValueOutOfRange));
}

#[test]
fn rod_tip_push_is_clamped() {
    let mut rod = FishingRod::new(Vec3::new(0, UNIT, 0), 3 * UNIT, 15).unwrap();
    rod.apply_force_to_tip(Vec3::new(0, 0, 10 * UNIT)).unwrap();
    rod.update(16_000, 16).unwrap();
    let tip = rod.system.masses[15].velocity;
    assert!(speed2(tip) <= (20 * UNIT as i128) * (20 * UNIT as i128));
    assert_eq!(rod.system.external_forces[15], Vec3::zero());
}

#[test]
fn rod_grips_follow_their_targets() {
    let mut rod = FishingRod::new(Vec3::new(0, UNIT, 0), 3 * UNIT, 15).unwrap();
    for frame in 0..60i64 {
        let bottom = Vec3::new(5_000 * frame, UNIT - 3_000 * frame, 10_000 * frame);
        let top = Vec3::new(-5_000 * frame, 3 * UNIT + 8_000 * frame, -8_000 * frame);
        rod.set_grip_positions(bottom, top).unwrap();
        rod.update(16_000, 16).unwrap();
        let pos = rod.get_positions();
        assert_eq!(pos[0], bottom);
        assert_eq!(pos[10], top);
        assert_eq!(rod.system.masses[0].velocity, Vec3::zero());
        assert_eq!(rod.system.masses[10].velocity, Vec3::zero());
        assert_eq!(rod.system.masses[10].boundary, Boundary::Free);
    }
    let before = rod.system.masses.clone();
    assert_eq!(
        rod.set_grip_positions(Vec3::new(0, 1_000_000_001, 0), Vec3::zero()),
        Err(RodError::ValueOutOfRange)
    );
    assert_eq!(rod.system.masses, before);
}

#[test]
fn rod_update_holds_grips_without_new_targets() {
    let mut rod = FishingRod::new(Vec3::new(0, UNIT, 0), 3 * UNIT, 15).unwrap();
    rod.apply_force_to_tip(Vec3::new(UNIT, 0, 0)).unwrap();
    for _ in 0..20 {
        rod.update(16_000, 16).unwrap();
        assert_eq!(rod.system.masses[0].position, Vec3::new(0, UNIT, 0));
        assert_eq!(rod.system.masses[10].position, Vec3::new(0, 3 * UNIT, 0));
    }
    assert_eq!(rod.update(16_000, 0), Err(RodError::InvalidTimeStep));
}

#[test]
fn driven_point_is_placed_then_released() {
    let mut sys = build_chain(Vec3::zero(), 3 * UNIT, 3, &default_zones(), 300_000, Vec3::new(0, -9_810_000, 0), 20 * UNIT)
        .unwrap();
    assert_eq!(sys.set_driven(4, Vec3::zero()), Err(RodError::IndexOutOfRange));
    assert_eq!(sys.set_driven(2, Vec3::new(1_000_000_001, 0, 0)), Err(RodError::ValueOutOfRange));
    assert_eq!(sys.set_driven(2, Vec3::new(UNIT, 2 * UNIT, 0)), Ok(()));
    assert_eq!(sys.masses[2].boundary, Boundary::Driven);
    sys.advance(16_000, 8).unwrap();
    assert_eq!(sys.masses[2].position, Vec3::new(UNIT, 2 * UNIT, 0));
    assert_eq!(sys.masses[2].velocity, Vec3::zero());
    assert_eq!(sys.masses[2].boundary, Boundary::Free);
    sys.advance(16_000, 8).unwrap();
    assert_ne!(sys.masses[2].position, Vec3::new(UNIT, 2 * UNIT, 0));
    // A fixed point moved from outside stays fixed.
    assert_eq!(sys.set_driven(0, Vec3::new(0, 5, 0)), Ok(()));
    assert_eq!(sys.masses[0].boundary, Boundary::Fixed);
    assert_eq!(sys.hold(7), Err(RodError::IndexOutOfRange));
    assert_eq!(sys.hold(3), Ok(()));
    assert_eq!(sys.masses[3].boundary, Boundary::Driven);
}
