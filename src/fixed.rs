//! Fixed-point scalars and vectors, with the integer helpers the integrator
//! needs: truncating division and integer square roots.
use vstd::prelude::*;

verus! {

/// One unit of any physical quantity is `1 / UNIT` of its SI unit
/// (micrometres, micrometres per second, micrograms, micronewtons, ...).
pub const UNIT: i64 = 1_000_000;

/// A vector of three fixed-point components.
#[derive(Clone, Copy, Debug, PartialEq, Eq, Structural)]
pub struct Vec3 {
    pub x: i64,
    pub y: i64,
    pub z: i64,
}

/// A wide vector, used for accumulated forces and other intermediate values.
#[derive(Clone, Copy, Debug, PartialEq, Eq, Structural)]
pub struct Wide3 {
    pub x: i128,
    pub y: i128,
    pub z: i128,
}

impl View for Vec3 {
    type V = (int, int, int);

    open spec fn view(&self) -> (int, int, int) {
        (self.x as int, self.y as int, self.z as int)
    }
}

impl View for Wide3 {
    type V = (int, int, int);

    open spec fn view(&self) -> (int, int, int) {
        (self.x as int, self.y as int, self.z as int)
    }
}

impl Vec3 {
    /// The zero vector.
    pub fn zero() -> (r: Vec3)
        ensures
            r@ == (0int, 0int, 0int),
    {
        Vec3 { x: 0, y: 0, z: 0 }
    }

    /// A vector from its components.
    pub fn new(x: i64, y: i64, z: i64) -> (r: Vec3)
        ensures
            r@ == (x as int, y as int, z as int),
    {
        Vec3 { x, y, z }
    }
}

/// Componentwise sum.
pub open spec fn add3(a: (int, int, int), b: (int, int, int)) -> (int, int, int) {
    (a.0 + b.0, a.1 + b.1, a.2 + b.2)
}

/// Componentwise difference.
pub open spec fn sub3(a: (int, int, int), b: (int, int, int)) -> (int, int, int) {
    (a.0 - b.0, a.1 - b.1, a.2 - b.2)
}

/// Dot product.
pub open spec fn dot3(a: (int, int, int), b: (int, int, int)) -> int {
    a.0 * b.0 + a.1 * b.1 + a.2 * b.2
}

/// The zero vector.
pub open spec fn zero3() -> (int, int, int) {
    (0, 0, 0)
}

/// Every component lies in `[-bound, bound]`.
pub open spec fn within3(a: (int, int, int), bound: int) -> bool {
    -bound <= a.0 <= bound && -bound <= a.1 <= bound && -bound <= a.2 <= bound
}

/// Division rounding toward zero, the way machine integers divide.
pub open spec fn tdiv(a: int, b: int) -> int {
    if a >= 0 {
        a / b
    } else {
        -((-a) / b)
    }
}

/// Divides `a` by a positive `b`, rounding toward zero.
pub fn div_trunc(a: i128, b: i128) -> (r: i128)
    requires
        b > 0,
        a > i128::MIN,
    ensures
        r == tdiv(a as int, b as int),
{
    if a >= 0 {
        a / b
    } else {
        let q: i128 = (-a) / b;
        -q
    }
}

/// `|tdiv(a, b)| <= bound` whenever `|a| <= bound * b`.
pub proof fn lemma_tdiv_bound(a: int, b: int, bound: int)
    requires
        b > 0,
        bound >= 0,
        -bound * b <= a <= bound * b,
    ensures
        -bound <= tdiv(a, b) <= bound,
{
    let m = if a >= 0 { a } else { -a };
    assert(m <= bound * b) by (nonlinear_arith)
        requires
            m == a || m == -a,
            -bound * b <= a <= bound * b,
            m >= 0,
    ;
    vstd::arithmetic::div_mod::lemma_div_is_ordered(m, bound * b, b);
    vstd::arithmetic::div_mod::lemma_div_by_multiple(bound, b);
    vstd::arithmetic::div_mod::lemma_div_pos_is_pos(m, b);
}

/// `|tdiv(a, b)| * b <= |a|`, with the quotient taking the sign of `a`.
pub proof fn lemma_tdiv_times(a: int, b: int)
    requires
        b > 0,
    ensures
        a >= 0 ==> 0 <= tdiv(a, b) && tdiv(a, b) * b <= a,
        a < 0 ==> tdiv(a, b) <= 0 && -tdiv(a, b) * b <= -a,
{
    let m = if a >= 0 { a } else { -a };
    vstd::arithmetic::div_mod::lemma_fundamental_div_mod(m, b);
    vstd::arithmetic::div_mod::lemma_div_pos_is_pos(m, b);
    vstd::arithmetic::div_mod::lemma_mod_pos_bound(m, b);
    vstd::arithmetic::mul::lemma_mul_is_commutative(b, m / b);
}

/// `|x * y| <= xb * yb` when `|x| <= xb` and `|y| <= yb`.
pub proof fn lemma_mul_bound(x: int, xb: int, y: int, yb: int)
    requires
        -xb <= x <= xb,
        -yb <= y <= yb,
    ensures
        -(xb * yb) <= x * y <= xb * yb,
{
    assert(-(xb * yb) <= x * y <= xb * yb) by (nonlinear_arith)
        requires
            -xb <= x <= xb,
            -yb <= y <= yb,
    ;
}

/// `r` is the integer square root of `n`, rounded down.
pub open spec fn is_floor_sqrt(n: int, r: int) -> bool {
    0 <= r && r * r <= n && n < (r + 1) * (r + 1)
}

/// The integer square root of `n >= 0`, rounded down.
pub open spec fn floor_sqrt(n: int) -> int {
    choose|r: int| is_floor_sqrt(n, r)
}

pub proof fn lemma_square_monotone(a: int, b: int)
    requires
        0 <= a <= b,
    ensures
        a * a <= b * b,
{
    assert(a * a <= b * b) by (nonlinear_arith)
        requires
            0 <= a <= b,
    ;
}

/// The rounded-down square root is unique, so `floor_sqrt` picks it.
pub proof fn lemma_floor_sqrt_unique(n: int, r: int)
    requires
        is_floor_sqrt(n, r),
    ensures
        floor_sqrt(n) == r,
{
    let s = floor_sqrt(n);
    assert(is_floor_sqrt(n, s));
    if s < r {
        lemma_square_monotone(s + 1, r);
    } else if r < s {
        lemma_square_monotone(r + 1, s);
    }
}

/// The integer square root of `n >= 0`, rounded up.
pub open spec fn ceil_sqrt(n: int) -> int {
    let f = floor_sqrt(n);
    if f * f == n {
        f
    } else {
        f + 1
    }
}

/// Every `n >= 0` has a rounded-down square root.
pub proof fn lemma_floor_sqrt_exists(n: int)
    requires
        n >= 0,
    ensures
        is_floor_sqrt(n, floor_sqrt(n)),
    decreases n,
{
    if n == 0 {
        assert(is_floor_sqrt(0, 0));
    } else {
        lemma_floor_sqrt_exists(n - 1);
        let r = floor_sqrt(n - 1);
        if (r + 1) * (r + 1) <= n {
            assert(n < (r + 2) * (r + 2)) by (nonlinear_arith)
                requires
                    n - 1 < (r + 1) * (r + 1),
                    r >= 0,
            ;
            assert(is_floor_sqrt(n, r + 1));
        } else {
            assert(is_floor_sqrt(n, r));
        }
    }
}

/// The rounded-up square root of `n >= 0` is the least `c >= 0` with `n <= c * c`.
pub proof fn lemma_ceil_sqrt(n: int)
    requires
        n >= 0,
    ensures
        ceil_sqrt(n) >= 0,
        n <= ceil_sqrt(n) * ceil_sqrt(n),
        ceil_sqrt(n) == 0 || (ceil_sqrt(n) - 1) * (ceil_sqrt(n) - 1) < n,
{
    lemma_floor_sqrt_exists(n);
    let f = floor_sqrt(n);
    if f * f == n && f > 0 {
        assert((f - 1) * (f - 1) < f * f) by (nonlinear_arith)
            requires
                f > 0,
        ;
    }
}

/// Largest input accepted by the square roots.
pub const SQRT_INPUT_MAX: u128 = 0x1000_0000_0000_0000_0000_0000_0000_0000;

/// The integer square root of `n`, rounded down.
pub fn isqrt(n: u128) -> (r: u128)
    requires
        n <= SQRT_INPUT_MAX,
    ensures
        is_floor_sqrt(n as int, r as int),
        r as int == floor_sqrt(n as int),
        r <= 0x4000_0000_0000_0000,
{
    let mut lo: u128 = 0;
    let mut hi: u128 = 0x4000_0000_0000_0001;
    assert(hi * hi > SQRT_INPUT_MAX) by (nonlinear_arith)
        requires
            hi == 0x4000_0000_0000_0001u128,
    ;
    while hi - lo > 1
        invariant
            lo < hi <= 0x4000_0000_0000_0001,
            lo * lo <= n,
            n < hi * hi,
        decreases hi - lo,
    {
        let mid: u128 = lo + (hi - lo) / 2;
        assert(mid * mid <= 0x4000_0000_0000_0001u128 * 0x4000_0000_0000_0001u128) by {
            lemma_square_monotone(mid as int, 0x4000_0000_0000_0001int);
        }
        if mid * mid <= n {
            lo = mid;
        } else {
            hi = mid;
        }
    }
    proof {
        assert(hi == lo + 1);
        lemma_floor_sqrt_unique(n as int, lo as int);
        if lo > 0x4000_0000_0000_0000 {
            lemma_square_monotone(0x4000_0000_0000_0001int, lo as int);
        }
    }
    lo
}

/// The integer square root of `n`, rounded up: the least `c` with `n <= c * c`.
pub fn isqrt_ceil(n: u128) -> (c: u128)
    requires
        n <= SQRT_INPUT_MAX,
    ensures
        c as int == ceil_sqrt(n as int),
        n <= c * c,
        c == 0 || (c - 1) * (c - 1) < n,
        c <= 0x4000_0000_0000_0000,
{
    let r = isqrt(n);
    if r * r == n {
        proof {
            if r > 0 {
                assert((r - 1) * (r - 1) < r * r) by (nonlinear_arith)
                    requires
                        r > 0,
                ;
            }
        }
        r
    } else {
        proof {
            if r == 0x4000_0000_0000_0000 {
                assert(r * r == SQRT_INPUT_MAX) by (nonlinear_arith)
                    requires
                        r == 0x4000_0000_0000_0000u128,
                ;
            }
        }
        r + 1
    }
}

} // verus!
