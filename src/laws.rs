//! Properties of the integrator that hold for every input, proved over the
//! spec functions that the operations' contracts are stated with.
use vstd::prelude::*;
use crate::fixed::{add3, ceil_sqrt, sub3, tdiv, within3, zero3, lemma_ceil_sqrt, lemma_floor_sqrt_unique, UNIT};
use crate::engine::{
    axial_speed, clamp_velocity, lemma_clamp_velocity, net_forces, point_step, pull, release, run,
    spring_force, spring_length, spring_sums, substep, weight, VELOCITY_CAP,
};
use crate::model::{norm2, point_ok, spring_ok, Boundary, MassPoint, Spring, MIN_SPRING_LENGTH, SPEED_LIMIT};

verus! {

/// Componentwise sum of a sequence of vectors.
pub open spec fn total(s: Seq<(int, int, int)>) -> (int, int, int)
    decreases s.len(),
{
    if s.len() == 0 {
        zero3()
    } else {
        add3(total(s.drop_last()), s.last())
    }
}

proof fn lemma_total_update(s: Seq<(int, int, int)>, i: int, x: (int, int, int))
    requires
        0 <= i < s.len(),
    ensures
        total(s.update(i, x)) == add3(sub3(total(s), s[i]), x),
    decreases s.len(),
{
    let u = s.update(i, x);
    if i == s.len() - 1 {
        assert(u.drop_last() =~= s.drop_last());
    } else {
        assert(u.drop_last() =~= s.drop_last().update(i, x));
        lemma_total_update(s.drop_last(), i, x);
    }
}

proof fn lemma_spring_sums_len(pts: Seq<MassPoint>, springs: Seq<Spring>, j: nat)
    requires
        j <= springs.len(),
        forall|k: int| 0 <= k < springs.len() ==> spring_ok(#[trigger] springs[k], pts.len() as int),
    ensures
        spring_sums(pts, springs, j).len() == pts.len(),
    decreases j,
{
    if j > 0 {
        lemma_spring_sums_len(pts, springs, (j - 1) as nat);
    }
}

/// Springs conserve momentum: each spring adds to its end `b` exactly the
/// opposite of what it adds to its end `a`, so in every sub-step the spring
/// forces on all points sum to zero.
pub proof fn law_spring_forces_cancel(pts: Seq<MassPoint>, springs: Seq<Spring>, j: nat)
    requires
        j <= springs.len(),
        forall|k: int| 0 <= k < springs.len() ==> spring_ok(#[trigger] springs[k], pts.len() as int),
    ensures
        total(spring_sums(pts, springs, j)) == zero3(),
    decreases j,
{
    if j == 0 {
        let z = Seq::new(pts.len(), |i: int| zero3());
        assert forall|m: nat| m <= z.len() implies #[trigger] total(z.subrange(0, m as int)) == zero3() by {
            lemma_total_zeros(z, m);
        }
        assert(z.subrange(0, z.len() as int) =~= z);
    } else {
        law_spring_forces_cancel(pts, springs, (j - 1) as nat);
        lemma_spring_sums_len(pts, springs, (j - 1) as nat);
        let acc = spring_sums(pts, springs, (j - 1) as nat);
        let s = springs[j - 1];
        assert(spring_ok(s, pts.len() as int));
        let f = spring_force(pts, s);
        let acc1 = acc.update(s.point_a as int, add3(acc[s.point_a as int], f));
        lemma_total_update(acc, s.point_a as int, add3(acc[s.point_a as int], f));
        lemma_total_update(acc1, s.point_b as int, sub3(acc1[s.point_b as int], f));
    }
}

proof fn lemma_total_zeros(z: Seq<(int, int, int)>, m: nat)
    requires
        m <= z.len(),
        forall|i: int| 0 <= i < z.len() ==> z[i] == zero3(),
    ensures
        total(z.subrange(0, m as int)) == zero3(),
    decreases m,
{
    if m > 0 {
        lemma_total_zeros(z, (m - 1) as nat);
        assert(z.subrange(0, m as int).drop_last() =~= z.subrange(0, m - 1));
    }
}

/// Sub-steps never add or remove points, and releasing the driven points
/// keeps their number too.
pub proof fn law_point_count(
    pts: Seq<MassPoint>,
    springs: Seq<Spring>,
    g: (int, int, int),
    external: Seq<(int, int, int)>,
    dt: int,
    max_speed: int,
    k: nat,
)
    ensures
        run(pts, springs, g, external, dt, max_speed, k).len() == pts.len(),
        release(run(pts, springs, g, external, dt, max_speed, k)).len() == pts.len(),
    decreases k,
{
    if k > 0 {
        law_point_count(pts, springs, g, external, dt, max_speed, (k - 1) as nat);
    }
}

/// Fixed and driven points are never moved by the integrator: after any
/// number of sub-steps, and after the driven points are released, such a
/// point has the position and velocity it had before.
pub proof fn law_boundary_points_stay(
    pts: Seq<MassPoint>,
    springs: Seq<Spring>,
    g: (int, int, int),
    external: Seq<(int, int, int)>,
    dt: int,
    max_speed: int,
    k: nat,
    i: int,
)
    requires
        0 <= i < pts.len(),
        pts[i].boundary != Boundary::Free,
    ensures
        run(pts, springs, g, external, dt, max_speed, k)[i] == pts[i],
        release(run(pts, springs, g, external, dt, max_speed, k))[i].position == pts[i].position,
        release(run(pts, springs, g, external, dt, max_speed, k))[i].velocity == pts[i].velocity,
    decreases k,
{
    law_point_count(pts, springs, g, external, dt, max_speed, k);
    if k > 0 {
        law_boundary_points_stay(pts, springs, g, external, dt, max_speed, (k - 1) as nat, i);
        law_point_count(pts, springs, g, external, dt, max_speed, (k - 1) as nat);
    }
}

/// No point is faster than the clamp after any number of sub-steps, however
/// large the forces, provided none was before.
pub proof fn law_speed_clamped(
    pts: Seq<MassPoint>,
    springs: Seq<Spring>,
    g: (int, int, int),
    external: Seq<(int, int, int)>,
    dt: int,
    max_speed: int,
    k: nat,
)
    requires
        0 <= max_speed <= SPEED_LIMIT,
        forall|i: int| 0 <= i < pts.len() ==> norm2(#[trigger] pts[i].velocity@) <= max_speed * max_speed,
    ensures
        forall|i: int| 0 <= i < pts.len() ==> norm2(
            #[trigger] release(run(pts, springs, g, external, dt, max_speed, k))[i].velocity@,
        ) <= max_speed * max_speed,
    decreases k,
{
    law_point_count(pts, springs, g, external, dt, max_speed, k);
    let after = run(pts, springs, g, external, dt, max_speed, k);
    if k > 0 {
        law_speed_clamped(pts, springs, g, external, dt, max_speed, (k - 1) as nat);
        let prev = run(pts, springs, g, external, dt, max_speed, (k - 1) as nat);
        law_point_count(pts, springs, g, external, dt, max_speed, (k - 1) as nat);
        assert forall|i: int| 0 <= i < pts.len() implies norm2(#[trigger] after[i].velocity@) <= max_speed * max_speed by {
            assert(release(prev)[i].velocity == prev[i].velocity);
            if prev[i].boundary == Boundary::Free {
                let nets = net_forces(prev, springs, g, external, k == 1);
                let p = prev[i];
                let m = p.mass as int;
                let f = nets[i];
                let dv = (tdiv(f.0 * dt, m), tdiv(f.1 * dt, m), tdiv(f.2 * dt, m));
                lemma_clamp_velocity(add3(p.velocity@, dv), max_speed);
            }
        }
    }
    assert forall|i: int| 0 <= i < pts.len() implies norm2(#[trigger] release(after)[i].velocity@) <= max_speed * max_speed by {
        if k == 0 {
        } else {
            assert(release(after)[i].velocity == after[i].velocity);
        }
    }
}

/// The clamp is a hard ceiling that acts exactly when needed: a velocity is
/// left as it is if and only if it is no longer than `max_speed`.
pub proof fn law_clamp_exact(v: (int, int, int), max_speed: int)
    requires
        max_speed >= 0,
        within3(v, VELOCITY_CAP as int),
    ensures
        clamp_velocity(v, max_speed) == v <==> norm2(v) <= max_speed * max_speed,
{
    let n = norm2(v);
    assert(n >= 0) by (nonlinear_arith)
        requires
            n == v.0 * v.0 + v.1 * v.1 + v.2 * v.2,
    ;
    lemma_ceil_sqrt(n);
    let r = ceil_sqrt(n);
    lemma_clamp_velocity(v, max_speed);
    if n <= max_speed * max_speed {
        if r > max_speed {
            crate::fixed::lemma_square_monotone(max_speed, r - 1);
        }
    }
}

/// External forces added one after another act as their sum: two calls of
/// `apply_force` on one point leave the same accumulator, and so lead to the
/// same motion, as one call with the sum of the two forces.
pub proof fn law_force_superposition(
    pts: Seq<MassPoint>,
    springs: Seq<Spring>,
    g: (int, int, int),
    external: Seq<(int, int, int)>,
    i: int,
    f1: (int, int, int),
    f2: (int, int, int),
    dt: int,
    max_speed: int,
    k: nat,
)
    requires
        0 <= i < external.len(),
    ensures
        ({
            let once = external.update(i, add3(external[i], f1));
            let twice = once.update(i, add3(once[i], f2));
            let summed = external.update(i, add3(external[i], add3(f1, f2)));
            &&& twice == summed
            &&& run(pts, springs, g, twice, dt, max_speed, k) == run(pts, springs, g, summed, dt, max_speed, k)
        }),
{
    let once = external.update(i, add3(external[i], f1));
    let twice = once.update(i, add3(once[i], f2));
    let summed = external.update(i, add3(external[i], add3(f1, f2)));
    assert(twice =~= summed);
}

/// A free point at rest, under no force, stays where it is, at rest.
proof fn lemma_rest_point(p: MassPoint, dt: int, max_speed: int)
    requires
        max_speed >= 0,
        point_ok(p, max_speed),
        p.velocity@ == zero3(),
    ensures
        point_step(p, zero3(), dt, max_speed) == p,
{
    let m = p.mass as int;
    vstd::arithmetic::div_mod::lemma_div_of0(m);
    vstd::arithmetic::div_mod::lemma_div_of0(UNIT as int);
    assert(tdiv(0 * dt, m) == 0);
    assert(tdiv(0 * dt, UNIT as int) == 0);
    assert(crate::fixed::is_floor_sqrt(0, 0));
    lemma_floor_sqrt_unique(0, 0);
    assert(clamp_velocity(zero3(), max_speed) == zero3());
}

/// With every spring at its rest length and every point at rest, no spring
/// pulls on anything.
proof fn lemma_rest_sums(pts: Seq<MassPoint>, springs: Seq<Spring>, j: nat)
    requires
        j <= springs.len(),
        forall|k: int| 0 <= k < springs.len() ==> spring_ok(#[trigger] springs[k], pts.len() as int),
        forall|i: int| 0 <= i < pts.len() ==> (#[trigger] pts[i]).velocity@ == zero3(),
        forall|k: int| 0 <= k < springs.len() ==> #[trigger] springs[k].rest_length == spring_length(
            pts[springs[k].point_a as int].position@,
            pts[springs[k].point_b as int].position@,
        ),
    ensures
        spring_sums(pts, springs, j) == Seq::new(pts.len(), |i: int| zero3()),
    decreases j,
{
    if j > 0 {
        lemma_rest_sums(pts, springs, (j - 1) as nat);
        let s = springs[j - 1];
        assert(spring_ok(s, pts.len() as int));
        let pa = pts[s.point_a as int];
        let pb = pts[s.point_b as int];
        assert(pa.velocity@ == zero3());
        assert(pb.velocity@ == zero3());
        assert(sub3(pb.velocity@, pa.velocity@) == zero3());
        let d = sub3(pb.position@, pa.position@);
        assert(crate::fixed::dot3(zero3(), d) == 0);
        let len = spring_length(pa.position@, pb.position@);
        if len > MIN_SPRING_LENGTH {
            vstd::arithmetic::div_mod::lemma_div_of0(len);
            vstd::arithmetic::div_mod::lemma_div_of0(UNIT as int);
            assert(axial_speed(pa.position@, pb.position@, pa.velocity@, pb.velocity@) == 0);
            assert(s.stiffness * (len - s.rest_length) == 0);
            assert(s.damping * 0 == 0);
            assert(pull(pa.position@, pb.position@, pa.velocity@, pb.velocity@, s) == 0);
            assert(tdiv(0 * d.0, len) == 0);
            assert(tdiv(0 * d.1, len) == 0);
            assert(tdiv(0 * d.2, len) == 0);
        }
        assert(spring_force(pts, s) == zero3());
        assert(spring_sums(pts, springs, j) =~= Seq::new(pts.len(), |i: int| zero3()));
    }
}

/// Rest is an equilibrium: when every spring has its rest length, every
/// point is at rest, gravity is zero and no external force waits, any number
/// of sub-steps leaves every point where it is, and every point stays at rest.
pub proof fn law_rest_equilibrium(
    pts: Seq<MassPoint>,
    springs: Seq<Spring>,
    external: Seq<(int, int, int)>,
    dt: int,
    max_speed: int,
    k: nat,
)
    requires
        max_speed >= 0,
        external.len() == pts.len(),
        forall|i: int| 0 <= i < pts.len() ==> point_ok(#[trigger] pts[i], max_speed),
        forall|i: int| 0 <= i < pts.len() ==> (#[trigger] pts[i]).velocity@ == zero3(),
        forall|i: int| 0 <= i < external.len() ==> #[trigger] external[i] == zero3(),
        forall|j: int| 0 <= j < springs.len() ==> spring_ok(#[trigger] springs[j], pts.len() as int),
        forall|j: int| 0 <= j < springs.len() ==> #[trigger] springs[j].rest_length == spring_length(
            pts[springs[j].point_a as int].position@,
            pts[springs[j].point_b as int].position@,
        ),
    ensures
        run(pts, springs, zero3(), external, dt, max_speed, k) == pts,
        forall|i: int| 0 <= i < pts.len() ==> (#[trigger] release(run(pts, springs, zero3(), external, dt, max_speed, k))[i]).velocity@ == zero3(),
    decreases k,
{
    if k > 0 {
        law_rest_equilibrium(pts, springs, external, dt, max_speed, (k - 1) as nat);
        lemma_rest_sums(pts, springs, springs.len());
        let first = k == 1;
        let nets = net_forces(pts, springs, zero3(), external, first);
        assert forall|i: int| 0 <= i < pts.len() implies #[trigger] substep(pts, springs, zero3(), external, first, dt, max_speed)[i] == pts[i] by {
            if pts[i].boundary == Boundary::Free {
                let m = pts[i].mass as int;
                assert(weight(zero3(), m) == zero3());
                assert(nets[i] == zero3());
                lemma_rest_point(pts[i], dt, max_speed);
            }
        }
        assert(substep(pts, springs, zero3(), external, first, dt, max_speed) =~= pts);
    }
    let after = run(pts, springs, zero3(), external, dt, max_speed, k);
    assert forall|i: int| 0 <= i < pts.len() implies (#[trigger] release(after)[i]).velocity@ == zero3() by {
        assert(after[i] == pts[i]);
    }
}

} // verus!
