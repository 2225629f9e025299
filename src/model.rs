//! Mass points, springs and the ranges their quantities are kept in.
use vstd::prelude::*;
use crate::fixed::{Vec3, dot3, within3, zero3};

verus! {

/// Largest absolute value of a position coordinate (one kilometre).
/// Integration stops a point at this wall.
pub const POSITION_LIMIT: i64 = 1_000_000_000;

/// Largest velocity clamp that a system may be configured with (1 km/s).
pub const SPEED_LIMIT: i64 = 1_000_000_000;

/// Largest mass of a point (a thousand tonnes).
pub const MASS_LIMIT: i64 = 1_000_000_000_000;

/// Largest spring stiffness (10^4 N/m).
pub const STIFFNESS_LIMIT: i64 = 10_000_000_000;

/// Largest spring damping coefficient (10^4 N s/m).
pub const DAMPING_LIMIT: i64 = 10_000_000_000;

/// Largest spring rest length (four kilometres).
pub const REST_LENGTH_LIMIT: i64 = 4_000_000_000;

/// Largest absolute value of a gravity component (1000 m/s^2).
pub const GRAVITY_LIMIT: i64 = 1_000_000_000;

/// Largest absolute value of an accumulated external force component (10^9 N).
pub const EXTERNAL_FORCE_LIMIT: i64 = 1_000_000_000_000_000;

/// Longest time step of one `advance` (ten seconds).
pub const STEP_LIMIT: i64 = 10_000_000;

/// Most points, and most springs, that a system holds.
pub const CAPACITY: usize = 1_000_000;

/// Springs shorter than this (a tenth of a millimetre) exert no force.
pub const MIN_SPRING_LENGTH: i64 = 100;

/// How a point takes part in integration.
#[derive(Clone, Copy, Debug, PartialEq, Eq, Structural)]
pub enum Boundary {
    /// Moved by the integrator.
    Free,
    /// Never moved by the integrator.
    Fixed,
    /// Placed from outside; left alone by the next `advance`, then free again.
    Driven,
}

/// A point mass.
#[derive(Clone, Copy, Debug, PartialEq, Eq, Structural)]
pub struct MassPoint {
    pub position: Vec3,
    pub velocity: Vec3,
    pub mass: i64,
    pub boundary: Boundary,
}

/// A damped spring between two points, referenced by index.
#[derive(Clone, Copy, Debug, PartialEq, Eq, Structural)]
pub struct Spring {
    pub point_a: usize,
    pub point_b: usize,
    pub rest_length: i64,
    pub stiffness: i64,
    pub damping: i64,
}

/// Why a rod could not be built or a request was refused.
#[derive(Clone, Copy, Debug, PartialEq, Eq, Structural)]
pub enum RodError {
    /// A mass that is zero or negative.
    NonPositiveMass,
    /// A negative rest length or rod length.
    NegativeRestLength,
    /// Zone boundaries that do not rise strictly up to the whole rod.
    MalformedZones,
    /// A rod with no segment.
    NoSegments,
    /// A point index that names no point, or a spring joining a point to itself.
    IndexOutOfRange,
    /// A quantity outside the range that the fixed-point format holds.
    ValueOutOfRange,
    /// A time step that is negative, too long, or split into no sub-steps.
    InvalidTimeStep,
    /// More points or springs than a system holds.
    CapacityExceeded,
}

impl MassPoint {
    /// A point at rest; `fixed` points are never moved by the integrator.
    pub fn new(position: Vec3, mass: i64, fixed: bool) -> (r: MassPoint)
        ensures
            r.position == position,
            r.velocity@ == zero3(),
            r.mass == mass,
            r.boundary == (if fixed { Boundary::Fixed } else { Boundary::Free }),
    {
        MassPoint {
            position,
            velocity: Vec3::zero(),
            mass,
            boundary: if fixed { Boundary::Fixed } else { Boundary::Free },
        }
    }
}

impl Spring {
    /// A spring from `point_a` to `point_b`.
    pub fn new(point_a: usize, point_b: usize, rest_length: i64, stiffness: i64, damping: i64) -> (r: Spring)
        ensures
            r == (Spring { point_a, point_b, rest_length, stiffness, damping }),
    {
        Spring { point_a, point_b, rest_length, stiffness, damping }
    }
}

/// Squared length of a vector.
pub open spec fn norm2(v: (int, int, int)) -> int {
    dot3(v, v)
}

/// A position inside the representable world.
pub open spec fn position_ok(p: (int, int, int)) -> bool {
    within3(p, POSITION_LIMIT as int)
}

/// A point whose quantities are in range, moving no faster than `max_speed`.
pub open spec fn point_ok(p: MassPoint, max_speed: int) -> bool {
    &&& 1 <= p.mass <= MASS_LIMIT
    &&& position_ok(p.position@)
    &&& norm2(p.velocity@) <= max_speed * max_speed
}

/// A spring joining two distinct points among `n`, with parameters in range.
pub open spec fn spring_ok(s: Spring, n: int) -> bool {
    &&& s.point_a < n
    &&& s.point_b < n
    &&& s.point_a != s.point_b
    &&& 0 <= s.rest_length <= REST_LENGTH_LIMIT
    &&& 0 <= s.stiffness <= STIFFNESS_LIMIT
    &&& 0 <= s.damping <= DAMPING_LIMIT
}

/// A gravity vector in range.
pub open spec fn gravity_ok(g: (int, int, int)) -> bool {
    within3(g, GRAVITY_LIMIT as int)
}

/// An external force accumulator in range.
pub open spec fn external_ok(f: (int, int, int)) -> bool {
    within3(f, EXTERNAL_FORCE_LIMIT as int)
}

/// A velocity clamp in range.
pub open spec fn max_speed_ok(m: int) -> bool {
    0 <= m <= SPEED_LIMIT
}

} // verus!
