//! The point store, the spring store and the integrator that advances them.
use vstd::prelude::*;
use crate::fixed::{add3, tdiv, div_trunc, lemma_mul_bound, lemma_tdiv_bound, sub3, within3, zero3, Vec3, Wide3, UNIT};
use crate::model::{
    external_ok, gravity_ok, max_speed_ok, norm2, point_ok, position_ok, spring_ok, Boundary,
    MassPoint, RodError, Spring, CAPACITY, DAMPING_LIMIT, EXTERNAL_FORCE_LIMIT, GRAVITY_LIMIT,
    MASS_LIMIT, POSITION_LIMIT, REST_LENGTH_LIMIT, SPEED_LIMIT, STEP_LIMIT, STIFFNESS_LIMIT,
};
use crate::engine::{net_forces, point_step, release, run, spring_sums, substep, lemma_norm_bounds_components};
use crate::step::{point_step_exec, spring_force_exec, NET_FORCE_BOUND, SPRING_FORCE_BOUND};

verus! {

/// Points joined by springs, under gravity, with a per-point accumulator of
/// external forces and a clamp on every point's speed.
pub struct MassSpringSystem {
    pub masses: Vec<MassPoint>,
    pub springs: Vec<Spring>,
    pub gravity: Vec3,
    /// External force waiting for each point until the next `advance`.
    pub external_forces: Vec<Vec3>,
    /// Largest speed a point may have after an `advance`.
    pub max_velocity: i64,
    /// Net force on each point in the last sub-step of the last `advance`.
    pub last_forces: Vec<Wide3>,
}

/// The external force accumulators as vectors of integers.
pub open spec fn views(v: Seq<Vec3>) -> Seq<(int, int, int)> {
    v.map_values(|f: Vec3| f@)
}

/// Point `p` placed at `position` at rest by the caller: `Driven` unless fixed.
pub open spec fn placed(p: MassPoint, position: Vec3) -> MassPoint {
    MassPoint {
        position,
        velocity: Vec3 { x: 0, y: 0, z: 0 },
        mass: p.mass,
        boundary: if p.boundary == Boundary::Fixed { Boundary::Fixed } else { Boundary::Driven },
    }
}

/// A free point becomes `Driven`; others are unchanged.
pub open spec fn held(p: MassPoint) -> MassPoint {
    if p.boundary == Boundary::Free {
        MassPoint { boundary: Boundary::Driven, ..p }
    } else {
        p
    }
}

impl MassSpringSystem {
    /// Every index is valid, every quantity in range, every point no faster
    /// than the clamp.
    pub open spec fn wf(&self) -> bool {
        let n = self.masses@.len();
        &&& n <= CAPACITY
        &&& self.springs@.len() <= CAPACITY
        &&& self.external_forces@.len() == n
        &&& self.last_forces@.len() == n
        &&& max_speed_ok(self.max_velocity as int)
        &&& gravity_ok(self.gravity@)
        &&& forall|i: int| 0 <= i < n ==> point_ok(#[trigger] self.masses@[i], self.max_velocity as int)
        &&& forall|j: int| 0 <= j < self.springs@.len() ==> spring_ok(#[trigger] self.springs@[j], n as int)
        &&& forall|i: int| 0 <= i < n ==> external_ok(#[trigger] self.external_forces@[i]@)
        &&& forall|i: int| 0 <= i < n ==> within3(#[trigger] self.last_forces@[i]@, NET_FORCE_BOUND as int)
    }

    /// The external forces waiting for each point.
    pub open spec fn externals(&self) -> Seq<(int, int, int)> {
        views(self.external_forces@)
    }

    /// An empty system; fails with `ValueOutOfRange` when a gravity component
    /// or the speed clamp is out of range.
    pub fn new(gravity: Vec3, max_velocity: i64) -> (r: Result<MassSpringSystem, RodError>)
        ensures
            r is Err <==> !(gravity_ok(gravity@) && max_speed_ok(max_velocity as int)),
            r is Err ==> r == Err::<MassSpringSystem, RodError>(RodError::ValueOutOfRange),
            r matches Ok(s) ==> {
                &&& s.wf()
                &&& s.masses@.len() == 0
                &&& s.springs@.len() == 0
                &&& s.gravity == gravity
                &&& s.max_velocity == max_velocity
            },
    {
        if !(within(gravity.x, GRAVITY_LIMIT) && within(gravity.y, GRAVITY_LIMIT) && within(gravity.z, GRAVITY_LIMIT))
            || max_velocity < 0 || max_velocity > SPEED_LIMIT {
            return Err(RodError::ValueOutOfRange);
        }
        Ok(MassSpringSystem {
            masses: Vec::new(),
            springs: Vec::new(),
            gravity,
            external_forces: Vec::new(),
            max_velocity,
            last_forces: Vec::new(),
        })
    }

    /// Adds a point and returns its index. Fails, leaving the system as it
    /// was, with `NonPositiveMass` for a mass `<= 0`, then with
    /// `ValueOutOfRange` for a mass, position or speed out of range, then with
    /// `CapacityExceeded` when the store is full.
    pub fn add_mass(&mut self, mass: MassPoint) -> (r: Result<usize, RodError>)
        requires
            old(self).wf(),
        ensures
            final(self).wf(),
            r == Err::<usize, RodError>(RodError::NonPositiveMass) <==> mass.mass <= 0,
            r == Err::<usize, RodError>(RodError::ValueOutOfRange) <==> mass.mass > 0
                && !point_ok(mass, old(self).max_velocity as int),
            r == Err::<usize, RodError>(RodError::CapacityExceeded) <==> point_ok(mass, old(self).max_velocity as int)
                && old(self).masses@.len() == CAPACITY,
            r is Ok <==> point_ok(mass, old(self).max_velocity as int) && old(self).masses@.len() < CAPACITY,
            r is Err ==> *final(self) == *old(self),
            r is Ok ==> {
                &&& r == Ok::<usize, RodError>(old(self).masses@.len() as usize)
                &&& final(self).masses@ == old(self).masses@.push(mass)
                &&& final(self).externals() == old(self).externals().push(zero3())
                &&& final(self).springs@ == old(self).springs@
                &&& final(self).gravity == old(self).gravity
                &&& final(self).max_velocity == old(self).max_velocity
            },
    {
        if mass.mass <= 0 {
            return Err(RodError::NonPositiveMass);
        }
        let v = mass.velocity;
        let p = mass.position;
        if mass.mass > MASS_LIMIT || !within(p.x, POSITION_LIMIT) || !within(p.y, POSITION_LIMIT)
            || !within(p.z, POSITION_LIMIT) || !within(v.x, SPEED_LIMIT) || !within(v.y, SPEED_LIMIT)
            || !within(v.z, SPEED_LIMIT) {
            proof {
                if point_ok(mass, self.max_velocity as int) {
                    crate::engine::lemma_norm_bounds_components(v@, self.max_velocity as int);
                }
            }
            return Err(RodError::ValueOutOfRange);
        }
        proof {
            let b = SPEED_LIMIT as int;
            crate::fixed::lemma_mul_bound(v.x as int, b, v.x as int, b);
            crate::fixed::lemma_mul_bound(v.y as int, b, v.y as int, b);
            crate::fixed::lemma_mul_bound(v.z as int, b, v.z as int, b);
            crate::fixed::lemma_mul_bound(self.max_velocity as int, b, self.max_velocity as int, b);
        }
        let speed2: i128 = v.x as i128 * v.x as i128 + v.y as i128 * v.y as i128 + v.z as i128 * v.z as i128;
        let max2: i128 = self.max_velocity as i128 * self.max_velocity as i128;
        if speed2 > max2 {
            return Err(RodError::ValueOutOfRange);
        }
        if self.masses.len() >= CAPACITY {
            return Err(RodError::CapacityExceeded);
        }
        let index = self.masses.len();
        self.masses.push(mass);
        self.external_forces.push(Vec3::zero());
        self.last_forces.push(Wide3 { x: 0, y: 0, z: 0 });
        proof {
            assert(self.externals() =~= old(self).externals().push(zero3()));
            assert forall|j: int| 0 <= j < self.springs@.len() implies spring_ok(#[trigger] self.springs@[j], self.masses@.len() as int) by {
                assert(spring_ok(old(self).springs@[j], old(self).masses@.len() as int));
            }
        }
        Ok(index)
    }

    /// Adds a spring. Fails, leaving the system as it was, with
    /// `IndexOutOfRange` when an end names no point or both ends are the
    /// same point, then with `NegativeRestLength`, then with `ValueOutOfRange`
    /// for a rest length, stiffness or damping out of range, then with
    /// `CapacityExceeded` when the store is full.
    pub fn add_spring(&mut self, spring: Spring) -> (r: Result<(), RodError>)
        requires
            old(self).wf(),
        ensures
            final(self).wf(),
            r == Err::<(), RodError>(RodError::IndexOutOfRange) <==> !(spring.point_a < old(self).masses@.len()
                && spring.point_b < old(self).masses@.len() && spring.point_a != spring.point_b),
            r == Err::<(), RodError>(RodError::NegativeRestLength) <==> spring.point_a < old(self).masses@.len()
                && spring.point_b < old(self).masses@.len() && spring.point_a != spring.point_b
                && spring.rest_length < 0,
            r == Err::<(), RodError>(RodError::ValueOutOfRange) <==> spring.point_a < old(self).masses@.len()
                && spring.point_b < old(self).masses@.len() && spring.point_a != spring.point_b
                && spring.rest_length >= 0 && !spring_ok(spring, old(self).masses@.len() as int),
            r == Err::<(), RodError>(RodError::CapacityExceeded) <==> spring_ok(spring, old(self).masses@.len() as int)
                && old(self).springs@.len() == CAPACITY,
            r is Ok <==> spring_ok(spring, old(self).masses@.len() as int) && old(self).springs@.len() < CAPACITY,
            r is Err ==> *final(self) == *old(self),
            r is Ok ==> {
                &&& final(self).springs@ == old(self).springs@.push(spring)
                &&& final(self).masses@ == old(self).masses@
                &&& final(self).external_forces@ == old(self).external_forces@
                &&& final(self).gravity == old(self).gravity
                &&& final(self).max_velocity == old(self).max_velocity
            },
    {
        let n = self.masses.len();
        if spring.point_a >= n || spring.point_b >= n || spring.point_a == spring.point_b {
            return Err(RodError::IndexOutOfRange);
        }
        if spring.rest_length < 0 {
            return Err(RodError::NegativeRestLength);
        }
        if spring.rest_length > REST_LENGTH_LIMIT || spring.stiffness < 0 || spring.stiffness > STIFFNESS_LIMIT
            || spring.damping < 0 || spring.damping > DAMPING_LIMIT {
            return Err(RodError::ValueOutOfRange);
        }
        if self.springs.len() >= CAPACITY {
            return Err(RodError::CapacityExceeded);
        }
        self.springs.push(spring);
        Ok(())
    }

    /// Adds `force` to the external force waiting for point `index`; forces
    /// added between two `advance` calls add up. Fails, leaving the system as
    /// it was, with `IndexOutOfRange` for an index that names no point, then
    /// with `ValueOutOfRange` when the sum would leave the accumulator's range.
    pub fn apply_force(&mut self, index: usize, force: Vec3) -> (r: Result<(), RodError>)
        requires
            old(self).wf(),
        ensures
            final(self).wf(),
            r == Err::<(), RodError>(RodError::IndexOutOfRange) <==> index >= old(self).masses@.len(),
            r == Err::<(), RodError>(RodError::ValueOutOfRange) <==> index < old(self).masses@.len()
                && !external_ok(add3(old(self).externals()[index as int], force@)),
            r is Ok <==> index < old(self).masses@.len() && external_ok(add3(old(self).externals()[index as int], force@)),
            r is Err ==> *final(self) == *old(self),
            r is Ok ==> {
                &&& final(self).externals() == old(self).externals().update(
                    index as int,
                    add3(old(self).externals()[index as int], force@),
                )
                &&& final(self).masses@ == old(self).masses@
                &&& final(self).springs@ == old(self).springs@
                &&& final(self).gravity == old(self).gravity
                &&& final(self).max_velocity == old(self).max_velocity
            },
    {
        if index >= self.masses.len() {
            return Err(RodError::IndexOutOfRange);
        }
        let e = self.external_forces[index];
        let x: i128 = e.x as i128 + force.x as i128;
        let y: i128 = e.y as i128 + force.y as i128;
        let z: i128 = e.z as i128 + force.z as i128;
        let lim = EXTERNAL_FORCE_LIMIT as i128;
        if x < -lim || x > lim || y < -lim || y > lim || z < -lim || z > lim {
            return Err(RodError::ValueOutOfRange);
        }
        self.external_forces.set(index, Vec3 { x: x as i64, y: y as i64, z: z as i64 });
        proof {
            assert(self.externals() =~= old(self).externals().update(
                index as int,
                add3(old(self).externals()[index as int], force@),
            ));
        }
        Ok(())
    }

    /// Places point `index` at `position` at rest, and leaves it to the caller
    /// for the next `advance`: a free point becomes `Driven`, a fixed point
    /// stays fixed. Fails, leaving the system as it was, with
    /// `IndexOutOfRange` for an index that names no point, then with
    /// `ValueOutOfRange` for a position out of range.
    pub fn set_driven(&mut self, index: usize, position: Vec3) -> (r: Result<(), RodError>)
        requires
            old(self).wf(),
        ensures
            final(self).wf(),
            r == Err::<(), RodError>(RodError::IndexOutOfRange) <==> index >= old(self).masses@.len(),
            r == Err::<(), RodError>(RodError::ValueOutOfRange) <==> index < old(self).masses@.len()
                && !position_ok(position@),
            r is Ok <==> index < old(self).masses@.len() && position_ok(position@),
            r is Err ==> *final(self) == *old(self),
            r is Ok ==> {
                &&& final(self).masses@ == old(self).masses@.update(
                    index as int,
                    placed(old(self).masses@[index as int], position),
                )
                &&& final(self).springs@ == old(self).springs@
                &&& final(self).external_forces@ == old(self).external_forces@
                &&& final(self).gravity == old(self).gravity
                &&& final(self).max_velocity == old(self).max_velocity
            },
    {
        if index >= self.masses.len() {
            return Err(RodError::IndexOutOfRange);
        }
        if !within(position.x, POSITION_LIMIT) || !within(position.y, POSITION_LIMIT) || !within(position.z, POSITION_LIMIT) {
            return Err(RodError::ValueOutOfRange);
        }
        let p = self.masses[index];
        let boundary = if p.boundary == Boundary::Fixed { Boundary::Fixed } else { Boundary::Driven };
        self.masses.set(index, MassPoint { position, velocity: Vec3::zero(), mass: p.mass, boundary });
        proof {
            assert(norm2(zero3()) == 0);
            assert forall|i: int| 0 <= i < self.masses@.len() implies point_ok(#[trigger] self.masses@[i], self.max_velocity as int) by {
                if i != index {
                    assert(point_ok(old(self).masses@[i], self.max_velocity as int));
                }
            }
        }
        Ok(())
    }

    /// Net force on every point for one sub-step from the current state.
    fn net_forces_exec(&self, first: bool) -> (nets: Vec<Wide3>)
        requires
            self.wf(),
        ensures
            nets@.len() == self.masses@.len(),
            forall|i: int| 0 <= i < nets@.len() ==> (#[trigger] nets@[i])@ == net_forces(
                self.masses@, self.springs@, self.gravity@, self.externals(), first)[i],
            forall|i: int| 0 <= i < nets@.len() ==> within3(#[trigger] nets@[i]@, NET_FORCE_BOUND as int),
    {
        let n = self.masses.len();
        let ghost pts = self.masses@;
        let ghost springs = self.springs@;
        let mut sums: Vec<Wide3> = Vec::new();
        let mut i: usize = 0;
        while i < n
            invariant
                n == pts.len(),
                i <= n,
                sums@.len() == i,
                forall|k: int| 0 <= k < i ==> (#[trigger] sums@[k])@ == zero3(),
            decreases n - i,
        {
            sums.push(Wide3 { x: 0, y: 0, z: 0 });
            i += 1;
        }
        let mut j: usize = 0;
        while j < self.springs.len()
            invariant
                self.wf(),
                pts == self.masses@,
                springs == self.springs@,
                n == pts.len(),
                j <= springs.len(),
                sums@.len() == n,
                spring_sums(pts, springs, j as nat).len() == n,
                forall|k: int| 0 <= k < n ==> (#[trigger] sums@[k])@ == spring_sums(pts, springs, j as nat)[k],
                forall|k: int| 0 <= k < n ==> within3(#[trigger] sums@[k]@, j * SPRING_FORCE_BOUND),
            decreases springs.len() - j,
        {
            let s = self.springs[j];
            let pa = self.masses[s.point_a];
            let pb = self.masses[s.point_b];
            proof {
                assert(spring_ok(springs[j as int], n as int));
                assert(point_ok(pts[s.point_a as int], self.max_velocity as int));
                assert(point_ok(pts[s.point_b as int], self.max_velocity as int));
                lemma_norm_bounds_components(pa.velocity@, self.max_velocity as int);
                lemma_norm_bounds_components(pb.velocity@, self.max_velocity as int);
            }
            let f = spring_force_exec(pa.position, pb.position, pa.velocity, pb.velocity, &s);
            let ghost before = sums@;
            let sa = sums[s.point_a];
            sums.set(s.point_a, Wide3 { x: sa.x + f.x, y: sa.y + f.y, z: sa.z + f.z });
            let sb = sums[s.point_b];
            sums.set(s.point_b, Wide3 { x: sb.x - f.x, y: sb.y - f.y, z: sb.z - f.z });
            proof {
                let acc = spring_sums(pts, springs, j as nat);
                let next = spring_sums(pts, springs, (j + 1) as nat);
                assert(next == {
                    let f = crate::engine::spring_force(pts, s);
                    let acc1 = acc.update(s.point_a as int, add3(acc[s.point_a as int], f));
                    acc1.update(s.point_b as int, sub3(acc1[s.point_b as int], f))
                });
                assert forall|k: int| 0 <= k < n implies (#[trigger] sums@[k])@ == next[k]
                    && within3(sums@[k]@, (j + 1) * SPRING_FORCE_BOUND) by {
                    assert(before[k]@ == acc[k]);
                    assert(within3(before[k]@, j * SPRING_FORCE_BOUND));
                }
            }
            j += 1;
        }
        let ghost sums_all = spring_sums(pts, springs, springs.len());
        let ghost expected = net_forces(pts, springs, self.gravity@, self.externals(), first);
        let mut nets: Vec<Wide3> = Vec::new();
        let mut i: usize = 0;
        while i < n
            invariant
                self.wf(),
                pts == self.masses@,
                springs == self.springs@,
                n == pts.len(),
                i <= n,
                sums@.len() == n,
                sums_all == spring_sums(pts, springs, springs.len()),
                expected == net_forces(pts, springs, self.gravity@, self.externals(), first),
                forall|k: int| 0 <= k < n ==> (#[trigger] sums@[k])@ == sums_all[k],
                forall|k: int| 0 <= k < n ==> within3(#[trigger] sums@[k]@, CAPACITY * SPRING_FORCE_BOUND),
                nets@.len() == i,
                forall|k: int| 0 <= k < i ==> (#[trigger] nets@[k])@ == expected[k],
                forall|k: int| 0 <= k < i ==> within3(#[trigger] nets@[k]@, NET_FORCE_BOUND as int),
            decreases n - i,
        {
            let p = self.masses[i];
            if p.boundary == Boundary::Free {
                let g = self.gravity;
                let m = p.mass as i128;
                proof {
                    assert(point_ok(pts[i as int], self.max_velocity as int));
                    lemma_mul_bound(g.x as int, GRAVITY_LIMIT as int, m as int, MASS_LIMIT as int);
                    lemma_mul_bound(g.y as int, GRAVITY_LIMIT as int, m as int, MASS_LIMIT as int);
                    lemma_mul_bound(g.z as int, GRAVITY_LIMIT as int, m as int, MASS_LIMIT as int);
                    lemma_tdiv_bound(g.x * m, UNIT as int, 1_000_000_000_000_000);
                    lemma_tdiv_bound(g.y * m, UNIT as int, 1_000_000_000_000_000);
                    lemma_tdiv_bound(g.z * m, UNIT as int, 1_000_000_000_000_000);
                }
                let wx = div_trunc(g.x as i128 * m, UNIT as i128);
                let wy = div_trunc(g.y as i128 * m, UNIT as i128);
                let wz = div_trunc(g.z as i128 * m, UNIT as i128);
                let sm = sums[i];
                let mut fx: i128 = sm.x + wx;
                let mut fy: i128 = sm.y + wy;
                let mut fz: i128 = sm.z + wz;
                if first {
                    let e = self.external_forces[i];
                    proof {
                        assert(external_ok(self.external_forces@[i as int]@));
                    }
                    fx = fx + e.x as i128;
                    fy = fy + e.y as i128;
                    fz = fz + e.z as i128;
                }
                nets.push(Wide3 { x: fx, y: fy, z: fz });
            } else {
                nets.push(Wide3 { x: 0, y: 0, z: 0 });
            }
            i += 1;
        }
        nets
    }

    /// Advances every free point by one sub-step of length `dt` under the
    /// forces `nets`; other points stay as they are.
    fn integrate(&mut self, nets: &Vec<Wide3>, dt: i64)
        requires
            old(self).wf(),
            nets@.len() == old(self).masses@.len(),
            forall|i: int| 0 <= i < nets@.len() ==> within3(#[trigger] nets@[i]@, NET_FORCE_BOUND as int),
            0 <= dt <= STEP_LIMIT,
        ensures
            final(self).wf(),
            final(self).masses@.len() == old(self).masses@.len(),
            forall|i: int| 0 <= i < old(self).masses@.len() ==> #[trigger] final(self).masses@[i] == (
                if old(self).masses@[i].boundary == Boundary::Free {
                    point_step(old(self).masses@[i], nets@[i]@, dt as int, old(self).max_velocity as int)
                } else {
                    old(self).masses@[i]
                }),
            final(self).springs == old(self).springs,
            final(self).gravity == old(self).gravity,
            final(self).external_forces == old(self).external_forces,
            final(self).max_velocity == old(self).max_velocity,
            final(self).last_forces == old(self).last_forces,
    {
        let n = self.masses.len();
        let mut i: usize = 0;
        while i < n
            invariant
                self.wf(),
                n == self.masses@.len(),
                n == old(self).masses@.len(),
                nets@.len() == n,
                forall|k: int| 0 <= k < n ==> within3(#[trigger] nets@[k]@, NET_FORCE_BOUND as int),
                0 <= dt <= STEP_LIMIT,
                i <= n,
                forall|k: int| 0 <= k < i ==> #[trigger] self.masses@[k] == (
                    if old(self).masses@[k].boundary == Boundary::Free {
                        point_step(old(self).masses@[k], nets@[k]@, dt as int, old(self).max_velocity as int)
                    } else {
                        old(self).masses@[k]
                    }),
                forall|k: int| i <= k < n ==> #[trigger] self.masses@[k] == old(self).masses@[k],
                self.springs == old(self).springs,
                self.gravity == old(self).gravity,
                self.external_forces == old(self).external_forces,
                self.max_velocity == old(self).max_velocity,
                self.last_forces == old(self).last_forces,
            decreases n - i,
        {
            let p = self.masses[i];
            if p.boundary == Boundary::Free {
                proof {
                    assert(point_ok(self.masses@[i as int], self.max_velocity as int));
                }
                let q = point_step_exec(&p, nets[i], dt, self.max_velocity);
                let ghost pre = self.masses@;
                self.masses.set(i, q);
                proof {
                    assert forall|j: int| 0 <= j < self.springs@.len() implies spring_ok(#[trigger] self.springs@[j], n as int) by {
                        assert(spring_ok(old(self).springs@[j], n as int));
                    }
                    assert forall|k: int| 0 <= k < n implies point_ok(#[trigger] self.masses@[k], self.max_velocity as int) by {
                        if k != i {
                            assert(point_ok(pre[k], self.max_velocity as int));
                        }
                    }
                }
            }
            i += 1;
        }
    }

    /// Advances the system by `dt`, split into `substeps` equal sub-steps.
    /// Forces come from springs, gravity and, in the first sub-step only, the
    /// external forces waiting for each point; only free points move, each
    /// velocity is clamped to `max_velocity`, and each position stops at the
    /// wall of the representable world. Afterwards driven points are free
    /// again and every external force accumulator is zero. Fails, leaving the
    /// system as it was, with `InvalidTimeStep` when `dt` is negative or
    /// longer than `STEP_LIMIT`, or `substeps` is zero.
    pub fn advance(&mut self, dt: i64, substeps: u32) -> (r: Result<(), RodError>)
        requires
            old(self).wf(),
        ensures
            final(self).wf(),
            r is Err <==> !(0 <= dt <= STEP_LIMIT && substeps >= 1),
            r is Err ==> r == Err::<(), RodError>(RodError::InvalidTimeStep) && *final(self) == *old(self),
            r is Ok ==> {
                let sub_dt = (dt as int) / (substeps as int);
                let pts = run(old(self).masses@, old(self).springs@, old(self).gravity@, old(self).externals(),
                    sub_dt, old(self).max_velocity as int, substeps as nat);
                let before_last = run(old(self).masses@, old(self).springs@, old(self).gravity@,
                    old(self).externals(), sub_dt, old(self).max_velocity as int, (substeps - 1) as nat);
                let nets = net_forces(before_last, old(self).springs@, old(self).gravity@, old(self).externals(),
                    substeps == 1);
                &&& final(self).masses@ == release(pts)
                &&& final(self).springs@ == old(self).springs@
                &&& final(self).gravity == old(self).gravity
                &&& final(self).max_velocity == old(self).max_velocity
                &&& final(self).externals() == Seq::new(old(self).masses@.len(), |i: int| zero3())
                &&& final(self).last_forces@.len() == old(self).masses@.len()
                &&& forall|i: int| 0 <= i < old(self).masses@.len() ==> (#[trigger] final(self).last_forces@[i])@ == nets[i]
            },
    {
        if dt < 0 || dt > STEP_LIMIT || substeps == 0 {
            return Err(RodError::InvalidTimeStep);
        }
        let sub_dt: i64 = dt / (substeps as i64);
        let ghost pts0 = self.masses@;
        let ghost springs = self.springs@;
        let ghost g = self.gravity@;
        let ghost ext = self.externals();
        let ghost max = self.max_velocity as int;
        let n = self.masses.len();
        let mut k: u32 = 0;
        while k < substeps
            invariant
                self.wf(),
                0 <= sub_dt <= STEP_LIMIT,
                sub_dt == (dt as int) / (substeps as int),
                k <= substeps,
                n == self.masses@.len(),
                self.masses@ == run(pts0, springs, g, ext, sub_dt as int, max, k as nat),
                self.springs@ == springs,
                self.gravity@ == g,
                self.externals() == ext,
                self.max_velocity == max,
                k >= 1 ==> forall|i: int| 0 <= i < n ==> (#[trigger] self.last_forces@[i])@ == net_forces(
                    run(pts0, springs, g, ext, sub_dt as int, max, (k - 1) as nat), springs, g, ext, k == 1)[i],
            decreases substeps - k,
        {
            let ghost before = self.masses@;
            let nets = self.net_forces_exec(k == 0);
            self.integrate(&nets, sub_dt);
            proof {
                assert(self.masses@ =~= substep(before, springs, g, ext, k + 1 == 1, sub_dt as int, max));
            }
            self.last_forces = nets;
            k += 1;
        }
        let ghost stepped = self.masses@;
        let ghost last = self.last_forces;
        let mut i: usize = 0;
        while i < n
            invariant
                self.wf(),
                n == self.masses@.len(),
                n == stepped.len(),
                i <= n,
                forall|j: int| 0 <= j < i ==> (#[trigger] self.external_forces@[j])@ == zero3(),
                forall|j: int| 0 <= j < i ==> #[trigger] self.masses@[j] == release(stepped)[j],
                forall|j: int| i <= j < n ==> #[trigger] self.masses@[j] == stepped[j],
                self.springs@ == springs,
                self.gravity@ == g,
                self.max_velocity == max,
                self.last_forces == last,
            decreases n - i,
        {
            self.external_forces.set(i, Vec3::zero());
            let p = self.masses[i];
            if p.boundary == Boundary::Driven {
                self.masses.set(i, MassPoint { boundary: Boundary::Free, ..p });
            }
            proof {
                assert forall|j: int| 0 <= j < self.springs@.len() implies spring_ok(#[trigger] self.springs@[j], n as int) by {
                    assert(spring_ok(springs[j], n as int));
                }
            }
            i += 1;
        }
        proof {
            assert(self.masses@ =~= release(stepped));
            assert(self.externals() =~= Seq::new(n as nat, |i: int| zero3()));
        }
        Ok(())
    }

    /// Keeps a free point `index` where it is for the next `advance`, as if
    /// placed there from outside: it becomes `Driven`. Other points keep
    /// their state. Fails, leaving the system as it was, with
    /// `IndexOutOfRange` for an index that names no point.
    pub fn hold(&mut self, index: usize) -> (r: Result<(), RodError>)
        requires
            old(self).wf(),
        ensures
            final(self).wf(),
            r is Err <==> index >= old(self).masses@.len(),
            r is Err ==> r == Err::<(), RodError>(RodError::IndexOutOfRange) && *final(self) == *old(self),
            r is Ok ==> {
                &&& final(self).masses@ == old(self).masses@.update(index as int, held(old(self).masses@[index as int]))
                &&& final(self).springs@ == old(self).springs@
                &&& final(self).external_forces@ == old(self).external_forces@
                &&& final(self).gravity == old(self).gravity
                &&& final(self).max_velocity == old(self).max_velocity
            },
    {
        if index >= self.masses.len() {
            return Err(RodError::IndexOutOfRange);
        }
        let p = self.masses[index];
        if p.boundary == Boundary::Free {
            self.masses.set(index, MassPoint { boundary: Boundary::Driven, ..p });
            proof {
                assert forall|i: int| 0 <= i < self.masses@.len() implies point_ok(#[trigger] self.masses@[i], self.max_velocity as int) by {
                    assert(point_ok(old(self).masses@[i], self.max_velocity as int));
                }
            }
        } else {
            proof {
                assert(self.masses@ =~= old(self).masses@.update(index as int, held(old(self).masses@[index as int])));
            }
        }
        Ok(())
    }

    /// Acceleration of point `index` in the last sub-step of the last
    /// `advance`: its net force over its mass.
    pub fn acceleration(&self, index: usize) -> (r: Wide3)
        requires
            self.wf(),
            index < self.masses@.len(),
        ensures
            ({
                let f = self.last_forces@[index as int]@;
                let m = self.masses@[index as int].mass as int;
                r@ == (tdiv(f.0 * UNIT, m), tdiv(f.1 * UNIT, m), tdiv(f.2 * UNIT, m))
            }),
    {
        let f = self.last_forces[index];
        let m = self.masses[index].mass as i128;
        proof {
            assert(within3(self.last_forces@[index as int]@, NET_FORCE_BOUND as int));
            assert(point_ok(self.masses@[index as int], self.max_velocity as int));
            lemma_mul_bound(f.x as int, NET_FORCE_BOUND as int, UNIT as int, UNIT as int);
            lemma_mul_bound(f.y as int, NET_FORCE_BOUND as int, UNIT as int, UNIT as int);
            lemma_mul_bound(f.z as int, NET_FORCE_BOUND as int, UNIT as int, UNIT as int);
        }
        Wide3 {
            x: div_trunc(f.x * UNIT as i128, m),
            y: div_trunc(f.y * UNIT as i128, m),
            z: div_trunc(f.z * UNIT as i128, m),
        }
    }

    /// The position of every point, in the order the points were added.
    pub fn positions(&self) -> (r: Vec<Vec3>)
        ensures
            r@.len() == self.masses@.len(),
            forall|i: int| 0 <= i < r@.len() ==> #[trigger] r@[i] == self.masses@[i].position,
    {
        let mut r: Vec<Vec3> = Vec::new();
        let mut i: usize = 0;
        while i < self.masses.len()
            invariant
                i <= self.masses@.len(),
                r@.len() == i,
                forall|k: int| 0 <= k < i ==> #[trigger] r@[k] == self.masses@[k].position,
            decreases self.masses@.len() - i,
        {
            r.push(self.masses[i].position);
            i += 1;
        }
        r
    }
}

/// `c` lies in `[-bound, bound]`.
fn within(c: i64, bound: i64) -> (r: bool)
    requires
        bound >= 0,
    ensures
        r == (-bound <= c <= bound),
{
    -bound <= c && c <= bound
}

} // verus!
