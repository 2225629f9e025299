//! Executable forms of the integrator's pieces, each proved equal to its
//! spec function in `engine` and free of overflow.
use vstd::prelude::*;
use crate::fixed::{
    div_trunc, isqrt, isqrt_ceil, lemma_mul_bound, lemma_square_monotone, lemma_tdiv_bound, sub3,
    within3, Vec3, Wide3, UNIT,
};
use crate::engine::{
    cap, clamp_coord, clamp_velocity, lemma_clamp_velocity, point_step, spring_force_of,
    spring_length, VELOCITY_CAP,
};
use crate::model::{
    norm2, point_ok, position_ok, MassPoint, Spring, DAMPING_LIMIT, MIN_SPRING_LENGTH,
    POSITION_LIMIT, REST_LENGTH_LIMIT, SPEED_LIMIT, STEP_LIMIT, STIFFNESS_LIMIT,
};

verus! {

/// Bound on each component of one spring's force.
pub const SPRING_FORCE_BOUND: i128 = 100_000_000_000_000;

/// Bound on each component of the net force on one point.
pub const NET_FORCE_BOUND: i128 = 1_000_000_000_000_000_000_000;

/// The force of spring `s` on its end `a`, from the ends' states.
pub fn spring_force_exec(pa: Vec3, pb: Vec3, va: Vec3, vb: Vec3, s: &Spring) -> (f: Wide3)
    requires
        position_ok(pa@),
        position_ok(pb@),
        within3(va@, SPEED_LIMIT as int),
        within3(vb@, SPEED_LIMIT as int),
        0 <= s.rest_length <= REST_LENGTH_LIMIT,
        0 <= s.stiffness <= STIFFNESS_LIMIT,
        0 <= s.damping <= DAMPING_LIMIT,
    ensures
        f@ == spring_force_of(pa@, pb@, va@, vb@, *s),
        within3(f@, SPRING_FORCE_BOUND as int),
{
    let dx: i128 = pb.x as i128 - pa.x as i128;
    let dy: i128 = pb.y as i128 - pa.y as i128;
    let dz: i128 = pb.z as i128 - pa.z as i128;
    let ghost d = sub3(pb@, pa@);
    proof {
        lemma_mul_bound(dx as int, 2_000_000_000, dx as int, 2_000_000_000);
        lemma_mul_bound(dy as int, 2_000_000_000, dy as int, 2_000_000_000);
        lemma_mul_bound(dz as int, 2_000_000_000, dz as int, 2_000_000_000);
    }
    let len2: i128 = dx * dx + dy * dy + dz * dz;
    proof {
        assert(len2 >= 0) by (nonlinear_arith)
            requires
                len2 == dx * dx + dy * dy + dz * dz,
        ;
        assert(norm2(d) == len2 as int);
    }
    let len: i128 = isqrt(len2 as u128) as i128;
    proof {
        assert(len as int == spring_length(pa@, pb@));
        if len >= 4_000_000_000 {
            lemma_square_monotone(4_000_000_000, len as int);
        }
        assert(within3(d, len as int)) by (nonlinear_arith)
            requires
                len >= 0,
                len2 < (len + 1) * (len + 1),
                len2 == d.0 * d.0 + d.1 * d.1 + d.2 * d.2,
        ;
    }
    if len <= MIN_SPRING_LENGTH as i128 {
        return Wide3 { x: 0, y: 0, z: 0 };
    }
    let rx: i128 = vb.x as i128 - va.x as i128;
    let ry: i128 = vb.y as i128 - va.y as i128;
    let rz: i128 = vb.z as i128 - va.z as i128;
    proof {
        lemma_mul_bound(rx as int, 2_000_000_000, dx as int, len as int);
        lemma_mul_bound(ry as int, 2_000_000_000, dy as int, len as int);
        lemma_mul_bound(rz as int, 2_000_000_000, dz as int, len as int);
    }
    let dotp: i128 = rx * dx + ry * dy + rz * dz;
    let axial: i128 = div_trunc(dotp, len);
    proof {
        lemma_tdiv_bound(dotp as int, len as int, 6_000_000_000);
    }
    let stretch: i128 = len - s.rest_length as i128;
    proof {
        lemma_mul_bound(s.stiffness as int, STIFFNESS_LIMIT as int, stretch as int, 4_000_000_000);
        lemma_mul_bound(s.damping as int, DAMPING_LIMIT as int, axial as int, 6_000_000_000);
    }
    let num: i128 = s.stiffness as i128 * stretch + s.damping as i128 * axial;
    let m: i128 = div_trunc(num, UNIT as i128);
    proof {
        lemma_tdiv_bound(num as int, UNIT as int, SPRING_FORCE_BOUND as int);
        lemma_mul_bound(m as int, SPRING_FORCE_BOUND as int, dx as int, len as int);
        lemma_mul_bound(m as int, SPRING_FORCE_BOUND as int, dy as int, len as int);
        lemma_mul_bound(m as int, SPRING_FORCE_BOUND as int, dz as int, len as int);
    }
    let fx: i128 = div_trunc(m * dx, len);
    let fy: i128 = div_trunc(m * dy, len);
    let fz: i128 = div_trunc(m * dz, len);
    proof {
        lemma_tdiv_bound(m * dx, len as int, SPRING_FORCE_BOUND as int);
        lemma_tdiv_bound(m * dy, len as int, SPRING_FORCE_BOUND as int);
        lemma_tdiv_bound(m * dz, len as int, SPRING_FORCE_BOUND as int);
    }
    Wide3 { x: fx, y: fy, z: fz }
}

/// `c` held to `[-VELOCITY_CAP, VELOCITY_CAP]`.
fn cap_exec(c: i128) -> (r: i128)
    ensures
        r == cap(c as int),
{
    if c > VELOCITY_CAP {
        VELOCITY_CAP
    } else if c < -VELOCITY_CAP {
        -VELOCITY_CAP
    } else {
        c
    }
}

/// The velocity clamp.
pub fn clamp_velocity_exec(v: Wide3, max_speed: i64) -> (r: Vec3)
    requires
        0 <= max_speed <= SPEED_LIMIT,
    ensures
        r@ == clamp_velocity(v@, max_speed as int),
        norm2(r@) <= max_speed * max_speed,
{
    let wx = cap_exec(v.x);
    let wy = cap_exec(v.y);
    let wz = cap_exec(v.z);
    proof {
        lemma_mul_bound(wx as int, VELOCITY_CAP as int, wx as int, VELOCITY_CAP as int);
        lemma_mul_bound(wy as int, VELOCITY_CAP as int, wy as int, VELOCITY_CAP as int);
        lemma_mul_bound(wz as int, VELOCITY_CAP as int, wz as int, VELOCITY_CAP as int);
    }
    let n: i128 = wx * wx + wy * wy + wz * wz;
    proof {
        assert(n >= 0) by (nonlinear_arith)
            requires
                n == wx * wx + wy * wy + wz * wz,
        ;
        lemma_clamp_velocity(v@, max_speed as int);
    }
    let r: i128 = isqrt_ceil(n as u128) as i128;
    let ghost c = clamp_velocity(v@, max_speed as int);
    if r > max_speed as i128 {
        proof {
            lemma_mul_bound(wx as int, VELOCITY_CAP as int, max_speed as int, SPEED_LIMIT as int);
            lemma_mul_bound(wy as int, VELOCITY_CAP as int, max_speed as int, SPEED_LIMIT as int);
            lemma_mul_bound(wz as int, VELOCITY_CAP as int, max_speed as int, SPEED_LIMIT as int);
        }
        let ox = div_trunc(wx * max_speed as i128, r);
        let oy = div_trunc(wy * max_speed as i128, r);
        let oz = div_trunc(wz * max_speed as i128, r);
        assert((ox as int, oy as int, oz as int) == c);
        Vec3 { x: ox as i64, y: oy as i64, z: oz as i64 }
    } else {
        assert((wx as int, wy as int, wz as int) == c);
        Vec3 { x: wx as i64, y: wy as i64, z: wz as i64 }
    }
}

/// A coordinate stopped at the wall of the representable world.
fn clamp_coord_exec(c: i128) -> (r: i64)
    ensures
        r == clamp_coord(c as int),
{
    if c > POSITION_LIMIT as i128 {
        POSITION_LIMIT
    } else if c < -(POSITION_LIMIT as i128) {
        -POSITION_LIMIT
    } else {
        c as i64
    }
}

/// One sub-step of a free point under force `f`.
pub fn point_step_exec(p: &MassPoint, f: Wide3, dt: i64, max_speed: i64) -> (q: MassPoint)
    requires
        0 <= max_speed <= SPEED_LIMIT,
        point_ok(*p, max_speed as int),
        within3(f@, NET_FORCE_BOUND as int),
        0 <= dt <= STEP_LIMIT,
    ensures
        q == point_step(*p, f@, dt as int, max_speed as int),
        point_ok(q, max_speed as int),
{
    let m: i128 = p.mass as i128;
    proof {
        crate::engine::lemma_norm_bounds_components(p.velocity@, max_speed as int);
        lemma_mul_bound(f.x as int, NET_FORCE_BOUND as int, dt as int, STEP_LIMIT as int);
        lemma_mul_bound(f.y as int, NET_FORCE_BOUND as int, dt as int, STEP_LIMIT as int);
        lemma_mul_bound(f.z as int, NET_FORCE_BOUND as int, dt as int, STEP_LIMIT as int);
        let big = NET_FORCE_BOUND * STEP_LIMIT;
        assert(big <= big * m && -big * m <= -big) by (nonlinear_arith)
            requires
                m >= 1,
                big >= 0,
        ;
    }
    let ax: i128 = f.x * dt as i128;
    let ay: i128 = f.y * dt as i128;
    let az: i128 = f.z * dt as i128;
    proof {
        let big = NET_FORCE_BOUND * STEP_LIMIT;
        lemma_tdiv_bound(ax as int, m as int, big);
        lemma_tdiv_bound(ay as int, m as int, big);
        lemma_tdiv_bound(az as int, m as int, big);
    }
    let vx: i128 = p.velocity.x as i128 + div_trunc(ax, m);
    let vy: i128 = p.velocity.y as i128 + div_trunc(ay, m);
    let vz: i128 = p.velocity.z as i128 + div_trunc(az, m);
    let v = clamp_velocity_exec(Wide3 { x: vx, y: vy, z: vz }, max_speed);
    proof {
        crate::engine::lemma_norm_bounds_components(v@, max_speed as int);
        lemma_mul_bound(v.x as int, SPEED_LIMIT as int, dt as int, STEP_LIMIT as int);
        lemma_mul_bound(v.y as int, SPEED_LIMIT as int, dt as int, STEP_LIMIT as int);
        lemma_mul_bound(v.z as int, SPEED_LIMIT as int, dt as int, STEP_LIMIT as int);
    }
    let x = clamp_coord_exec(p.position.x as i128 + div_trunc(v.x as i128 * dt as i128, UNIT as i128));
    let y = clamp_coord_exec(p.position.y as i128 + div_trunc(v.y as i128 * dt as i128, UNIT as i128));
    let z = clamp_coord_exec(p.position.z as i128 + div_trunc(v.z as i128 * dt as i128, UNIT as i128));
    let q = MassPoint { position: Vec3 { x, y, z }, velocity: v, mass: p.mass, boundary: p.boundary };
    assert(q == point_step(*p, f@, dt as int, max_speed as int));
    q
}

} // verus!
