//! Building a rod as a straight chain of points and springs whose stiffness
//! and damping change by zones along it, and the two-handed rod driven by grips.
use vstd::prelude::*;
use crate::fixed::{add3, zero3, Vec3, Wide3};
use crate::model::{
    STEP_LIMIT,
    external_ok, gravity_ok, max_speed_ok, norm2, point_ok, position_ok, spring_ok, Boundary,
    MassPoint, RodError, Spring, CAPACITY, DAMPING_LIMIT, GRAVITY_LIMIT, MASS_LIMIT,
    POSITION_LIMIT, SPEED_LIMIT, STIFFNESS_LIMIT,
};
use crate::system::{held, placed, MassSpringSystem};
use crate::engine::{release, run};

verus! {

/// Zone boundaries are given in millionths of the rod's length.
pub const WHOLE: u64 = 1_000_000;

/// A stretch of the rod, from the previous zone's `upper` boundary up to its
/// own, with the stiffness and damping of the springs that start in it.
#[derive(Clone, Copy, Debug, PartialEq, Eq, Structural)]
pub struct Zone {
    /// Upper boundary, in millionths of the rod's length.
    pub upper: u64,
    pub stiffness: i64,
    pub damping: i64,
}

/// Zones that partition the rod: at least one, boundaries rising strictly
/// from above zero to the whole rod.
pub open spec fn zones_ok(z: Seq<Zone>) -> bool {
    &&& z.len() >= 1
    &&& z[0].upper > 0
    &&& z[z.len() - 1].upper == WHOLE
    &&& forall|a: int, b: int| 0 <= a < b < z.len() ==> #[trigger] z[a].upper < #[trigger] z[b].upper
}

/// Every zone's stiffness and damping are in range.
pub open spec fn zone_values_ok(z: Seq<Zone>) -> bool {
    forall|k: int| 0 <= k < z.len() ==> {
        &&& 0 <= #[trigger] z[k].stiffness <= STIFFNESS_LIMIT
        &&& 0 <= z[k].damping <= DAMPING_LIMIT
    }
}

/// Spring `j` of `n` starts in zone `k`: its fraction `j / n` of the rod lies
/// at or above the previous zone's boundary and below zone `k`'s.
pub open spec fn in_zone(z: Seq<Zone>, j: int, n: int, k: int) -> bool {
    &&& 0 <= k < z.len()
    &&& (k == 0 || z[k - 1].upper * n <= j * WHOLE)
    &&& j * WHOLE < z[k].upper * n
}

/// Where point `i` of a chain of `n` segments stands: `i / n` of the way from
/// `base` to `length` above it.
pub open spec fn chain_position(base: Vec3, length: int, n: int, i: int) -> Vec3 {
    Vec3 { x: base.x, y: (base.y + length * i / n) as i64, z: base.z }
}

/// Point `i` of a chain of `n` segments as built: at rest, the first fixed.
pub open spec fn chain_point(base: Vec3, length: int, n: int, point_mass: i64, i: int) -> MassPoint {
    MassPoint {
        position: chain_position(base, length, n, i),
        velocity: Vec3 { x: 0, y: 0, z: 0 },
        mass: point_mass,
        boundary: if i == 0 { Boundary::Fixed } else { Boundary::Free },
    }
}

/// The building parameters are in range.
pub open spec fn chain_values_ok(
    base: Vec3,
    length: int,
    zones: Seq<Zone>,
    point_mass: int,
    gravity: Vec3,
    max_velocity: int,
) -> bool {
    &&& position_ok(base@)
    &&& position_ok((base.x as int, base.y + length, base.z as int))
    &&& point_mass <= MASS_LIMIT
    &&& zone_values_ok(zones)
    &&& gravity_ok(gravity@)
    &&& max_speed_ok(max_velocity)
}

/// Whether `zones` partition the rod.
fn zones_valid(zones: &Vec<Zone>) -> (r: bool)
    ensures
        r == zones_ok(zones@),
{
    let len = zones.len();
    if len == 0 || zones[0].upper == 0 || zones[len - 1].upper != WHOLE {
        return false;
    }
    let mut k: usize = 1;
    while k < len
        invariant
            1 <= k <= len,
            len == zones@.len(),
            forall|a: int, b: int| 0 <= a < b < k ==> #[trigger] zones@[a].upper < #[trigger] zones@[b].upper,
        decreases len - k,
    {
        if zones[k - 1].upper >= zones[k].upper {
            return false;
        }
        proof {
            assert forall|a: int, b: int| 0 <= a < b < k + 1 implies #[trigger] zones@[a].upper < #[trigger] zones@[b].upper by {
                if b == k && a < k - 1 {
                    assert(zones@[a].upper < zones@[k - 1].upper);
                }
            }
        }
        k += 1;
    }
    true
}

/// Whether every zone's stiffness and damping are in range.
fn zone_values_valid(zones: &Vec<Zone>) -> (r: bool)
    ensures
        r == zone_values_ok(zones@),
{
    let mut k: usize = 0;
    while k < zones.len()
        invariant
            k <= zones@.len(),
            forall|a: int| 0 <= a < k ==> {
                &&& 0 <= #[trigger] zones@[a].stiffness <= STIFFNESS_LIMIT
                &&& 0 <= zones@[a].damping <= DAMPING_LIMIT
            },
        decreases zones@.len() - k,
    {
        let z = zones[k];
        if z.stiffness < 0 || z.stiffness > STIFFNESS_LIMIT || z.damping < 0 || z.damping > DAMPING_LIMIT {
            return false;
        }
        k += 1;
    }
    true
}

/// `c` lies in `[-bound, bound]`.
fn within(c: i128, bound: i128) -> (r: bool)
    requires
        bound >= 0,
    ensures
        r == (-bound <= c <= bound),
{
    -bound <= c && c <= bound
}

/// Whether spring `j` of `n` starts below the boundary `upper`.
fn starts_below(j: usize, n: usize, upper: u64) -> (r: bool)
    requires
        j < n < CAPACITY,
        upper <= WHOLE,
    ensures
        r == (j * WHOLE < upper * n),
{
    proof {
        vstd::arithmetic::mul::lemma_mul_upper_bound(upper as int, WHOLE as int, n as int, CAPACITY as int);
    }
    (j as u64) * WHOLE < upper * (n as u64)
}

/// Builds a straight chain of `segment_count + 1` points of mass `point_mass`,
/// evenly spaced from `base` to `length` above it, joined in order by
/// `segment_count` springs of rest length `length / segment_count` whose
/// stiffness and damping come from the zone each spring starts in. The first
/// point is fixed, the others free, all at rest.
///
/// Fails with `NoSegments`, then `NegativeRestLength` for a negative length,
/// then `NonPositiveMass`, then `MalformedZones`, then `ValueOutOfRange` when
/// an end of the rod, the mass, a zone's values, gravity or the speed clamp is
/// out of range, then `CapacityExceeded` for more points than a system holds.
pub fn build_chain(
    base: Vec3,
    length: i64,
    segment_count: usize,
    zones: &Vec<Zone>,
    point_mass: i64,
    gravity: Vec3,
    max_velocity: i64,
) -> (r: Result<MassSpringSystem, RodError>)
    ensures
        r == Err::<MassSpringSystem, RodError>(RodError::NoSegments) <==> segment_count == 0,
        r == Err::<MassSpringSystem, RodError>(RodError::NegativeRestLength) <==> segment_count > 0 && length < 0,
        r == Err::<MassSpringSystem, RodError>(RodError::NonPositiveMass) <==> segment_count > 0 && length >= 0
            && point_mass <= 0,
        r == Err::<MassSpringSystem, RodError>(RodError::MalformedZones) <==> segment_count > 0 && length >= 0
            && point_mass > 0 && !zones_ok(zones@),
        r == Err::<MassSpringSystem, RodError>(RodError::ValueOutOfRange) <==> segment_count > 0 && length >= 0
            && point_mass > 0 && zones_ok(zones@)
            && !chain_values_ok(base, length as int, zones@, point_mass as int, gravity, max_velocity as int),
        r == Err::<MassSpringSystem, RodError>(RodError::CapacityExceeded) <==> segment_count > 0 && length >= 0
            && point_mass > 0 && zones_ok(zones@)
            && chain_values_ok(base, length as int, zones@, point_mass as int, gravity, max_velocity as int)
            && segment_count >= CAPACITY,
        r is Ok <==> segment_count > 0 && length >= 0 && point_mass > 0 && zones_ok(zones@)
            && chain_values_ok(base, length as int, zones@, point_mass as int, gravity, max_velocity as int)
            && segment_count < CAPACITY,
        r matches Ok(s) ==> {
            let n = segment_count as int;
            &&& s.wf()
            &&& s.masses@.len() == n + 1
            &&& s.springs@.len() == n
            &&& s.gravity == gravity
            &&& s.max_velocity == max_velocity
            &&& s.externals() == Seq::new((n + 1) as nat, |i: int| zero3())
            &&& forall|i: int| 0 <= i <= n ==> #[trigger] s.masses@[i] == chain_point(base, length as int, n, point_mass, i)
            &&& forall|j: int| 0 <= j < n ==> {
                &&& (#[trigger] s.springs@[j]).point_a == j
                &&& s.springs@[j].point_b == j + 1
                &&& s.springs@[j].rest_length == length / (segment_count as i64)
            }
            &&& forall|j: int, k: int| 0 <= j < n && #[trigger] in_zone(zones@, j, n, k) ==> {
                &&& s.springs@[j].stiffness == zones@[k].stiffness
                &&& s.springs@[j].damping == zones@[k].damping
            }
        },
{
    if segment_count == 0 {
        return Err(RodError::NoSegments);
    }
    if length < 0 {
        return Err(RodError::NegativeRestLength);
    }
    if point_mass <= 0 {
        return Err(RodError::NonPositiveMass);
    }
    if !zones_valid(zones) {
        return Err(RodError::MalformedZones);
    }
    let lim = POSITION_LIMIT as i128;
    let top = base.y as i128 + length as i128;
    if !within(base.x as i128, lim) || !within(base.y as i128, lim) || !within(base.z as i128, lim)
        || !within(top, lim) || point_mass > MASS_LIMIT || !zone_values_valid(zones)
        || !within(gravity.x as i128, GRAVITY_LIMIT as i128) || !within(gravity.y as i128, GRAVITY_LIMIT as i128)
        || !within(gravity.z as i128, GRAVITY_LIMIT as i128) || max_velocity < 0 || max_velocity > SPEED_LIMIT {
        return Err(RodError::ValueOutOfRange);
    }
    if segment_count >= CAPACITY {
        return Err(RodError::CapacityExceeded);
    }
    let n = segment_count;
    let mut masses: Vec<MassPoint> = Vec::new();
    let mut external_forces: Vec<Vec3> = Vec::new();
    let mut last_forces: Vec<Wide3> = Vec::new();
    let mut i: usize = 0;
    while i <= n
        invariant
            n == segment_count,
            0 < n < CAPACITY,
            0 <= length,
            chain_values_ok(base, length as int, zones@, point_mass as int, gravity, max_velocity as int),
            1 <= point_mass,
            i <= n + 1,
            masses@.len() == i,
            external_forces@.len() == i,
            last_forces@.len() == i,
            forall|k: int| 0 <= k < i ==> #[trigger] masses@[k] == chain_point(base, length as int, n as int, point_mass, k),
            forall|k: int| 0 <= k < i ==> point_ok(#[trigger] masses@[k], max_velocity as int),
            forall|k: int| 0 <= k < i ==> (#[trigger] external_forces@[k])@ == zero3(),
            forall|k: int| 0 <= k < i ==> (#[trigger] last_forces@[k])@ == zero3(),
        decreases n + 1 - i,
    {
        proof {
            vstd::arithmetic::mul::lemma_mul_upper_bound(length as int, length as int, i as int, n as int);
            vstd::arithmetic::mul::lemma_mul_nonnegative(length as int, i as int);
            vstd::arithmetic::div_mod::lemma_div_is_ordered(length * i, length * n, n as int);
            vstd::arithmetic::div_mod::lemma_div_by_multiple(length as int, n as int);
            vstd::arithmetic::div_mod::lemma_div_pos_is_pos(length * i, n as int);
            vstd::arithmetic::mul::lemma_mul_upper_bound(length as int, 2_000_000_000, i as int, CAPACITY as int);
        }
        let rise: i128 = (length as i128 * i as i128) / (n as i128);
        let position = Vec3 { x: base.x, y: (base.y as i128 + rise) as i64, z: base.z };
        let boundary = if i == 0 { Boundary::Fixed } else { Boundary::Free };
        let p = MassPoint { position, velocity: Vec3::zero(), mass: point_mass, boundary };
        proof {
            assert(norm2(p.velocity@) == 0);
        }
        masses.push(p);
        external_forces.push(Vec3::zero());
        last_forces.push(Wide3 { x: 0, y: 0, z: 0 });
        i += 1;
    }
    let rest = length / (n as i64);
    proof {
        assert forall|a: int| 0 <= a < zones@.len() implies #[trigger] zones@[a].upper <= WHOLE by {
            if a < zones@.len() - 1 {
                assert(zones@[a].upper < zones@[zones@.len() - 1].upper);
            }
        }
    }
    let zone_count = zones.len();
    let mut springs: Vec<Spring> = Vec::new();
    let mut j: usize = 0;
    let mut k: usize = 0;
    while j < n
        invariant
            n == segment_count,
            0 < n < CAPACITY,
            0 <= length,
            chain_values_ok(base, length as int, zones@, point_mass as int, gravity, max_velocity as int),
            zones_ok(zones@),
            rest == length / (n as i64),
            zone_count == zones@.len(),
            j <= n,
            k < zones@.len(),
            k == 0 || zones@[k - 1].upper * n <= j * WHOLE,
            forall|a: int| 0 <= a < zones@.len() ==> #[trigger] zones@[a].upper <= WHOLE,
            springs@.len() == j,
            forall|a: int| 0 <= a < j ==> {
                &&& (#[trigger] springs@[a]).point_a == a
                &&& springs@[a].point_b == a + 1
                &&& springs@[a].rest_length == rest
            },
            forall|a: int| 0 <= a < j ==> spring_ok(#[trigger] springs@[a], n + 1),
            forall|a: int, b: int| 0 <= a < j && #[trigger] in_zone(zones@, a, n as int, b) ==> {
                &&& springs@[a].stiffness == zones@[b].stiffness
                &&& springs@[a].damping == zones@[b].damping
            },
        decreases n - j,
    {
        while !starts_below(j, n, zones[k].upper)
            invariant
                zone_count == zones@.len(),
                forall|a: int| 0 <= a < zones@.len() ==> #[trigger] zones@[a].upper <= WHOLE,
                n == segment_count,
                0 < n < CAPACITY,
                j < n,
                zones_ok(zones@),
                k < zones@.len(),
                k == 0 || zones@[k - 1].upper * n <= j * WHOLE,
            decreases zones@.len() - k,
        {
            proof {
                if k == zones@.len() - 1 {
                    assert(zones@[k as int].upper == WHOLE);
                    assert(zones@[k as int].upper * n == WHOLE * n);
                    assert(j * WHOLE < WHOLE * n);
                    assert(false);
                }
            }
            k += 1;
        }
        let z = zones[k];
        proof {
            assert(in_zone(zones@, j as int, n as int, k as int));
            assert forall|b: int| #[trigger] in_zone(zones@, j as int, n as int, b) implies b == k by {
                if b < k {
                    assert(zones@[b].upper <= zones@[k - 1].upper);
                    vstd::arithmetic::mul::lemma_mul_inequality(zones@[b].upper as int, zones@[k - 1].upper as int, n as int);
                } else if b > k {
                    assert(zones@[k as int].upper <= zones@[b - 1].upper);
                    vstd::arithmetic::mul::lemma_mul_inequality(zones@[k as int].upper as int, zones@[b - 1].upper as int, n as int);
                }
            }
            vstd::arithmetic::div_mod::lemma_div_is_ordered_by_denominator(length as int, 1, n as int);
        }
        springs.push(Spring { point_a: j, point_b: j + 1, rest_length: rest, stiffness: z.stiffness, damping: z.damping });
        j += 1;
    }
    let sys = MassSpringSystem { masses, springs, gravity, external_forces, max_velocity, last_forces };
    proof {
        assert(sys.externals() =~= Seq::new((n + 1) as nat, |i: int| zero3()));
    }
    Ok(sys)
}

/// Mass of each point of a fishing rod (0.3 kg).
pub const ROD_POINT_MASS: i64 = 300_000;

/// Speed clamp of a fishing rod (20 m/s).
pub const ROD_MAX_VELOCITY: i64 = 20_000_000;

/// The fishing rod's zones: a stiff lower three fifths, a medium fifth and a
/// supple tip, all heavily damped.
pub open spec fn rod_zones() -> Seq<Zone> {
    seq![
        Zone { upper: 600_000, stiffness: 5_000_000, damping: 1_000_000_000 },
        Zone { upper: 800_000, stiffness: 2_500_000, damping: 800_000_000 },
        Zone { upper: WHOLE, stiffness: 1_250_000, damping: 600_000_000 },
    ]
}

/// The fishing rod's zones.
pub fn default_zones() -> (r: Vec<Zone>)
    ensures
        r@ == rod_zones(),
{
    let r = vec![
        Zone { upper: 600_000, stiffness: 5_000_000, damping: 1_000_000_000 },
        Zone { upper: 800_000, stiffness: 2_500_000, damping: 800_000_000 },
        Zone { upper: WHOLE, stiffness: 1_250_000, damping: 600_000_000 },
    ];
    assert(r@ =~= rod_zones());
    r
}

/// Index of the upper grip on a rod of `n` segments: two thirds of the way
/// up, rounded to the nearest point.
pub open spec fn top_grip(n: int) -> int {
    (2 * n + 1) / 3
}

/// Point `p` marked `Driven`.
pub open spec fn gripped(p: MassPoint) -> MassPoint {
    MassPoint { boundary: Boundary::Driven, ..p }
}

/// A rod held by two hands: the bottom grip at its base and the top grip two
/// thirds of the way up. Both grips are placed from outside and never moved
/// by the integrator.
pub struct FishingRod {
    pub system: MassSpringSystem,
    pub segment_count: usize,
    pub bottom_grip_index: usize,
    pub top_grip_index: usize,
}

impl FishingRod {
    /// A well-formed system of `segment_count + 1` points with grips at their places.
    pub open spec fn wf(&self) -> bool {
        &&& self.system.wf()
        &&& self.segment_count >= 1
        &&& self.system.masses@.len() == self.segment_count + 1
        &&& self.bottom_grip_index == 0
        &&& self.top_grip_index == top_grip(self.segment_count as int)
    }

    /// A vertical rod of `segment_count` segments from `base` up to `length`
    /// above it, with the fishing rod's zones, point mass and speed clamp,
    /// and no gravity; both grips are held where they stand. Fails with
    /// `NoSegments`, then `NegativeRestLength` for a negative length, then
    /// `ValueOutOfRange` when an end of the rod is out of range, then
    /// `CapacityExceeded`.
    pub fn new(base: Vec3, length: i64, segment_count: usize) -> (r: Result<FishingRod, RodError>)
        ensures
            r == Err::<FishingRod, RodError>(RodError::NoSegments) <==> segment_count == 0,
            r == Err::<FishingRod, RodError>(RodError::NegativeRestLength) <==> segment_count > 0 && length < 0,
            r == Err::<FishingRod, RodError>(RodError::ValueOutOfRange) <==> segment_count > 0 && length >= 0
                && !(position_ok(base@) && position_ok((base.x as int, base.y + length, base.z as int))),
            r == Err::<FishingRod, RodError>(RodError::CapacityExceeded) <==> segment_count > 0 && length >= 0
                && position_ok(base@) && position_ok((base.x as int, base.y + length, base.z as int))
                && segment_count >= CAPACITY,
            r is Ok <==> segment_count > 0 && length >= 0 && position_ok(base@)
                && position_ok((base.x as int, base.y + length, base.z as int)) && segment_count < CAPACITY,
            r matches Ok(rod) ==> {
                let n = segment_count as int;
                let s = rod.system;
                &&& rod.wf()
                &&& rod.segment_count == segment_count
                &&& s.gravity@ == zero3()
                &&& s.max_velocity == ROD_MAX_VELOCITY
                &&& s.externals() == Seq::new((n + 1) as nat, |i: int| zero3())
                &&& forall|i: int| 0 <= i <= n ==> #[trigger] s.masses@[i] == (
                    if i == 0 || i == top_grip(n) {
                        gripped(chain_point(base, length as int, n, ROD_POINT_MASS, i))
                    } else {
                        chain_point(base, length as int, n, ROD_POINT_MASS, i)
                    })
                &&& forall|j: int| 0 <= j < n ==> {
                    &&& (#[trigger] s.springs@[j]).point_a == j
                    &&& s.springs@[j].point_b == j + 1
                    &&& s.springs@[j].rest_length == length / (segment_count as i64)
                }
                &&& forall|j: int, k: int| 0 <= j < n && #[trigger] in_zone(rod_zones(), j, n, k) ==> {
                    &&& s.springs@[j].stiffness == rod_zones()[k].stiffness
                    &&& s.springs@[j].damping == rod_zones()[k].damping
                }
            },
    {
        let zones = default_zones();
        proof {
            assert(zones_ok(zones@));
            assert(zone_values_ok(zones@));
        }
        let built = build_chain(base, length, segment_count, &zones, ROD_POINT_MASS, Vec3::zero(), ROD_MAX_VELOCITY);
        let mut system = match built {
            Ok(s) => s,
            Err(e) => {
                return Err(e);
            },
        };
        let n = segment_count;
        let top = (2 * n + 1) / 3;
        let ghost before = system.masses@;
        let p0 = system.masses[0];
        system.masses.set(0, MassPoint { boundary: Boundary::Driven, ..p0 });
        let pt = system.masses[top];
        system.masses.set(top, MassPoint { boundary: Boundary::Driven, ..pt });
        proof {
            assert forall|i: int| 0 <= i < system.masses@.len() implies point_ok(#[trigger] system.masses@[i], system.max_velocity as int) by {
                assert(point_ok(before[i], system.max_velocity as int));
            }
        }
        Ok(FishingRod { system, segment_count, bottom_grip_index: 0, top_grip_index: top })
    }

    /// Places both grips, at rest, for the next `update`. Fails, leaving the
    /// rod as it was, with `ValueOutOfRange` when a position is out of range.
    pub fn set_grip_positions(&mut self, bottom_pos: Vec3, top_pos: Vec3) -> (r: Result<(), RodError>)
        requires
            old(self).wf(),
        ensures
            final(self).wf(),
            r is Err <==> !(position_ok(bottom_pos@) && position_ok(top_pos@)),
            r is Err ==> r == Err::<(), RodError>(RodError::ValueOutOfRange) && *final(self) == *old(self),
            r is Ok ==> {
                let pts = old(self).system.masses@;
                let b = old(self).bottom_grip_index as int;
                let t = old(self).top_grip_index as int;
                &&& final(self).system.masses@ == pts.update(b, placed(pts[b], bottom_pos)).update(t, placed(pts[t], top_pos))
                &&& final(self).system.springs@ == old(self).system.springs@
                &&& final(self).system.external_forces@ == old(self).system.external_forces@
                &&& final(self).system.gravity == old(self).system.gravity
                &&& final(self).system.max_velocity == old(self).system.max_velocity
                &&& final(self).segment_count == old(self).segment_count
                &&& final(self).bottom_grip_index == old(self).bottom_grip_index
                &&& final(self).top_grip_index == old(self).top_grip_index
            },
    {
        let lim = POSITION_LIMIT as i128;
        if !within(bottom_pos.x as i128, lim) || !within(bottom_pos.y as i128, lim) || !within(bottom_pos.z as i128, lim)
            || !within(top_pos.x as i128, lim) || !within(top_pos.y as i128, lim) || !within(top_pos.z as i128, lim) {
            return Err(RodError::ValueOutOfRange);
        }
        let _ = self.system.set_driven(self.bottom_grip_index, bottom_pos);
        let _ = self.system.set_driven(self.top_grip_index, top_pos);
        Ok(())
    }

    /// Holds both grips where they are and advances the rod by `dt` in
    /// `substeps` sub-steps; afterwards the grips are free until placed again.
    /// Fails, leaving the rod as it was, with `InvalidTimeStep` when `dt` is
    /// negative or longer than `STEP_LIMIT`, or `substeps` is zero.
    pub fn update(&mut self, dt: i64, substeps: u32) -> (r: Result<(), RodError>)
        requires
            old(self).wf(),
        ensures
            final(self).wf(),
            r is Err <==> !(0 <= dt <= STEP_LIMIT && substeps >= 1),
            r is Err ==> r == Err::<(), RodError>(RodError::InvalidTimeStep) && *final(self) == *old(self),
            r is Ok ==> {
                let s = old(self).system;
                let b = old(self).bottom_grip_index as int;
                let t = old(self).top_grip_index as int;
                let start = s.masses@.update(b, held(s.masses@[b])).update(t, held(s.masses@[t]));
                &&& final(self).system.masses@ == release(run(start, s.springs@, s.gravity@, s.externals(),
                    (dt as int) / (substeps as int), s.max_velocity as int, substeps as nat))
                &&& final(self).system.springs@ == s.springs@
                &&& final(self).system.gravity == s.gravity
                &&& final(self).system.max_velocity == s.max_velocity
                &&& final(self).system.externals() == Seq::new(s.masses@.len(), |i: int| zero3())
                &&& final(self).segment_count == old(self).segment_count
                &&& final(self).bottom_grip_index == old(self).bottom_grip_index
                &&& final(self).top_grip_index == old(self).top_grip_index
            },
    {
        if dt < 0 || dt > STEP_LIMIT || substeps == 0 {
            return Err(RodError::InvalidTimeStep);
        }
        let _ = self.system.hold(self.bottom_grip_index);
        let _ = self.system.hold(self.top_grip_index);
        self.system.advance(dt, substeps)
    }

    /// The position of every point, from the base to the tip.
    pub fn get_positions(&self) -> (r: Vec<Vec3>)
        requires
            self.wf(),
        ensures
            r@.len() == self.segment_count + 1,
            forall|i: int| 0 <= i < r@.len() ==> #[trigger] r@[i] == self.system.masses@[i].position,
    {
        self.system.positions()
    }

    /// Adds `force` to the external force waiting for the tip. Fails, leaving
    /// the rod as it was, with `ValueOutOfRange` when the sum would leave the
    /// accumulator's range.
    pub fn apply_force_to_tip(&mut self, force: Vec3) -> (r: Result<(), RodError>)
        requires
            old(self).wf(),
        ensures
            final(self).wf(),
            ({
                let tip = old(self).segment_count as int;
                let sum = add3(old(self).system.externals()[tip], force@);
                &&& r is Err <==> !external_ok(sum)
                &&& r is Err ==> r == Err::<(), RodError>(RodError::ValueOutOfRange) && *final(self) == *old(self)
                &&& r is Ok ==> final(self).system.externals() == old(self).system.externals().update(tip, sum)
            }),
            final(self).system.masses@ == old(self).system.masses@,
            final(self).system.springs@ == old(self).system.springs@,
            final(self).system.gravity == old(self).system.gravity,
            final(self).system.max_velocity == old(self).system.max_velocity,
            final(self).segment_count == old(self).segment_count,
            final(self).bottom_grip_index == old(self).bottom_grip_index,
            final(self).top_grip_index == old(self).top_grip_index,
    {
        let last_index = self.system.masses.len() - 1;
        self.system.apply_force(last_index, force)
    }
}

} // verus!
