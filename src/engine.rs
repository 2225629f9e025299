//! The integrator, stated as spec functions: the force of each spring, the
//! net force on each point, one semi-implicit Euler sub-step with the
//! velocity clamp, and a whole step made of sub-steps.
use vstd::prelude::*;
use crate::fixed::{
    add3, ceil_sqrt, floor_sqrt, dot3, sub3, tdiv, within3, zero3, lemma_ceil_sqrt, lemma_square_monotone,
    lemma_tdiv_times, UNIT,
};
use crate::model::{Boundary, MassPoint, Spring, MIN_SPRING_LENGTH, POSITION_LIMIT, norm2};

verus! {

/// Before a velocity is measured, each component is first held to
/// `[-VELOCITY_CAP, VELOCITY_CAP]`, far above any speed a system may allow;
/// only velocities that the clamp scales down anyway are affected.
pub const VELOCITY_CAP: i128 = 0x1000_0000_0000_0000;

/// The spring's length, rounded down, for ends at `pa` and `pb`.
pub open spec fn spring_length(pa: (int, int, int), pb: (int, int, int)) -> int {
    floor_sqrt(norm2(sub3(pb, pa)))
}

/// Speed at which the ends separate along the spring axis, rounded toward zero.
pub open spec fn axial_speed(
    pa: (int, int, int),
    pb: (int, int, int),
    va: (int, int, int),
    vb: (int, int, int),
) -> int {
    tdiv(dot3(sub3(vb, va), sub3(pb, pa)), spring_length(pa, pb))
}

/// Signed magnitude of the spring's pull: Hooke's law on the stretch plus
/// damping on the axial speed, positive when the spring pulls its ends together.
pub open spec fn pull(
    pa: (int, int, int),
    pb: (int, int, int),
    va: (int, int, int),
    vb: (int, int, int),
    s: Spring,
) -> int {
    tdiv(
        s.stiffness * (spring_length(pa, pb) - s.rest_length) + s.damping * axial_speed(pa, pb, va, vb),
        UNIT as int,
    )
}

/// Force that a spring exerts on its end `a`; end `b` receives the opposite.
/// A spring no longer than `MIN_SPRING_LENGTH` exerts none.
pub open spec fn spring_force_of(
    pa: (int, int, int),
    pb: (int, int, int),
    va: (int, int, int),
    vb: (int, int, int),
    s: Spring,
) -> (int, int, int) {
    let len = spring_length(pa, pb);
    if len <= MIN_SPRING_LENGTH {
        zero3()
    } else {
        let m = pull(pa, pb, va, vb, s);
        let d = sub3(pb, pa);
        (tdiv(m * d.0, len), tdiv(m * d.1, len), tdiv(m * d.2, len))
    }
}

/// Force that spring `s` exerts on its end `a` among the points `pts`.
pub open spec fn spring_force(pts: Seq<MassPoint>, s: Spring) -> (int, int, int) {
    spring_force_of(
        pts[s.point_a as int].position@,
        pts[s.point_b as int].position@,
        pts[s.point_a as int].velocity@,
        pts[s.point_b as int].velocity@,
        s,
    )
}

/// Per-point sums of the forces of the first `j` springs.
pub open spec fn spring_sums(pts: Seq<MassPoint>, springs: Seq<Spring>, j: nat) -> Seq<(int, int, int)>
    decreases j,
{
    if j == 0 {
        Seq::new(pts.len(), |i: int| zero3())
    } else {
        let acc = spring_sums(pts, springs, (j - 1) as nat);
        let s = springs[j - 1];
        let f = spring_force(pts, s);
        let acc1 = acc.update(s.point_a as int, add3(acc[s.point_a as int], f));
        acc1.update(s.point_b as int, sub3(acc1[s.point_b as int], f))
    }
}

/// Weight of a mass under gravity `g`.
pub open spec fn weight(g: (int, int, int), mass: int) -> (int, int, int) {
    (tdiv(g.0 * mass, UNIT as int), tdiv(g.1 * mass, UNIT as int), tdiv(g.2 * mass, UNIT as int))
}

/// Net force on a free point: its springs, its weight, and on the first
/// sub-step the external force waiting for it.
pub open spec fn net_force(
    springs_sum: (int, int, int),
    g: (int, int, int),
    mass: int,
    external: (int, int, int),
    first: bool,
) -> (int, int, int) {
    let f = add3(springs_sum, weight(g, mass));
    if first {
        add3(f, external)
    } else {
        f
    }
}

/// Net force on every point for one sub-step; zero on points that are not free.
pub open spec fn net_forces(
    pts: Seq<MassPoint>,
    springs: Seq<Spring>,
    g: (int, int, int),
    external: Seq<(int, int, int)>,
    first: bool,
) -> Seq<(int, int, int)> {
    let sums = spring_sums(pts, springs, springs.len());
    Seq::new(
        pts.len(),
        |i: int|
            if pts[i].boundary == Boundary::Free {
                net_force(sums[i], g, pts[i].mass as int, external[i], first)
            } else {
                zero3()
            },
    )
}

/// `c` held to `[-VELOCITY_CAP, VELOCITY_CAP]`.
pub open spec fn cap(c: int) -> int {
    if c > VELOCITY_CAP {
        VELOCITY_CAP as int
    } else if c < -VELOCITY_CAP {
        -VELOCITY_CAP
    } else {
        c
    }
}

/// The velocity clamp: a velocity longer than `max_speed` is scaled down to
/// about `max_speed`, keeping its direction; a shorter one is kept.
pub open spec fn clamp_velocity(v: (int, int, int), max_speed: int) -> (int, int, int) {
    let w = (cap(v.0), cap(v.1), cap(v.2));
    let r = ceil_sqrt(norm2(w));
    if r > max_speed {
        (tdiv(w.0 * max_speed, r), tdiv(w.1 * max_speed, r), tdiv(w.2 * max_speed, r))
    } else {
        w
    }
}

/// A coordinate stopped at the wall of the representable world.
pub open spec fn clamp_coord(c: int) -> int {
    if c > POSITION_LIMIT {
        POSITION_LIMIT as int
    } else if c < -POSITION_LIMIT {
        -POSITION_LIMIT
    } else {
        c
    }
}

/// One semi-implicit Euler sub-step of length `dt` of a free point under force
/// `f`: velocity first, clamped, then position.
pub open spec fn point_step(p: MassPoint, f: (int, int, int), dt: int, max_speed: int) -> MassPoint {
    let m = p.mass as int;
    let dv = (tdiv(f.0 * dt, m), tdiv(f.1 * dt, m), tdiv(f.2 * dt, m));
    let v = clamp_velocity(add3(p.velocity@, dv), max_speed);
    let x = clamp_coord(p.position.x + tdiv(v.0 * dt, UNIT as int));
    let y = clamp_coord(p.position.y + tdiv(v.1 * dt, UNIT as int));
    let z = clamp_coord(p.position.z + tdiv(v.2 * dt, UNIT as int));
    MassPoint {
        position: crate::fixed::Vec3 { x: x as i64, y: y as i64, z: z as i64 },
        velocity: crate::fixed::Vec3 { x: v.0 as i64, y: v.1 as i64, z: v.2 as i64 },
        mass: p.mass,
        boundary: p.boundary,
    }
}

/// One sub-step of the whole system: forces from the current state, then
/// every free point advanced; other points stay as they are.
pub open spec fn substep(
    pts: Seq<MassPoint>,
    springs: Seq<Spring>,
    g: (int, int, int),
    external: Seq<(int, int, int)>,
    first: bool,
    dt: int,
    max_speed: int,
) -> Seq<MassPoint> {
    let nets = net_forces(pts, springs, g, external, first);
    Seq::new(
        pts.len(),
        |i: int|
            if pts[i].boundary == Boundary::Free {
                point_step(pts[i], nets[i], dt, max_speed)
            } else {
                pts[i]
            },
    )
}

/// The points after `k` sub-steps of length `dt`; external forces act in the
/// first one only.
pub open spec fn run(
    pts: Seq<MassPoint>,
    springs: Seq<Spring>,
    g: (int, int, int),
    external: Seq<(int, int, int)>,
    dt: int,
    max_speed: int,
    k: nat,
) -> Seq<MassPoint>
    decreases k,
{
    if k == 0 {
        pts
    } else {
        substep(run(pts, springs, g, external, dt, max_speed, (k - 1) as nat), springs, g, external, k == 1, dt, max_speed)
    }
}

/// Driven points become free again; the others keep their state.
pub open spec fn release(pts: Seq<MassPoint>) -> Seq<MassPoint> {
    Seq::new(
        pts.len(),
        |i: int|
            if pts[i].boundary == Boundary::Driven {
                MassPoint { boundary: Boundary::Free, ..pts[i] }
            } else {
                pts[i]
            },
    )
}

/// A vector no longer than `m` has every component in `[-m, m]`.
pub proof fn lemma_norm_bounds_components(v: (int, int, int), m: int)
    requires
        m >= 0,
        norm2(v) <= m * m,
    ensures
        within3(v, m),
{
    assert(within3(v, m)) by (nonlinear_arith)
        requires
            m >= 0,
            v.0 * v.0 + v.1 * v.1 + v.2 * v.2 <= m * m,
    ;
}

/// `o * o * r * r <= w * w * m * m` when `o = tdiv(w * m, r)`.
proof fn lemma_scaled_square(w: int, m: int, r: int)
    requires
        r > 0,
        m >= 0,
    ensures
        tdiv(w * m, r) * tdiv(w * m, r) * (r * r) <= w * w * (m * m),
{
    let o = tdiv(w * m, r);
    lemma_tdiv_times(w * m, r);
    let a = if o >= 0 { o } else { -o };
    let b = if w * m >= 0 { w * m } else { -(w * m) };
    assert(a * r <= b);
    lemma_square_monotone(a * r, b);
    assert(o * o * (r * r) == (a * r) * (a * r)) by (nonlinear_arith)
        requires
            a == o || a == -o,
    ;
    assert(w * w * (m * m) == b * b) by (nonlinear_arith)
        requires
            b == w * m || b == -(w * m),
    ;
}

/// After the clamp a velocity is no longer than `max_speed`.
pub proof fn lemma_clamp_velocity(v: (int, int, int), max_speed: int)
    requires
        max_speed >= 0,
    ensures
        norm2(clamp_velocity(v, max_speed)) <= max_speed * max_speed,
        within3(clamp_velocity(v, max_speed), max_speed),
{
    let w = (cap(v.0), cap(v.1), cap(v.2));
    let n = norm2(w);
    assert(n >= 0) by (nonlinear_arith)
        requires
            n == w.0 * w.0 + w.1 * w.1 + w.2 * w.2,
    ;
    lemma_ceil_sqrt(n);
    let r = ceil_sqrt(n);
    let c = clamp_velocity(v, max_speed);
    if r > max_speed {
        lemma_scaled_square(w.0, max_speed, r);
        lemma_scaled_square(w.1, max_speed, r);
        lemma_scaled_square(w.2, max_speed, r);
        let mm = max_speed * max_speed;
        let rr = r * r;
        assert(rr > 0) by (nonlinear_arith)
            requires
                r > 0,
                rr == r * r,
        ;
        assert(norm2(c) * rr <= n * mm) by (nonlinear_arith)
            requires
                c.0 * c.0 * rr <= w.0 * w.0 * mm,
                c.1 * c.1 * rr <= w.1 * w.1 * mm,
                c.2 * c.2 * rr <= w.2 * w.2 * mm,
                norm2(c) == c.0 * c.0 + c.1 * c.1 + c.2 * c.2,
                n == w.0 * w.0 + w.1 * w.1 + w.2 * w.2,
        ;
        assert(n * mm <= rr * mm) by (nonlinear_arith)
            requires
                n <= rr,
                mm >= 0,
        ;
        assert(norm2(c) <= mm) by (nonlinear_arith)
            requires
                norm2(c) * rr <= rr * mm,
                rr > 0,
        ;
    } else {
        lemma_square_monotone(r, max_speed);
    }
    lemma_norm_bounds_components(c, max_speed);
}

} // verus!
