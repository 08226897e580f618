//! Fixed-point planar vectors and the integer arithmetic the simulation needs.
use vstd::prelude::*;

verus! {

/// Sub-units in one world unit.
pub const SUBUNITS: i64 = 1000;

/// Largest coordinate magnitude any position or spawn point may have.
pub const COORD_BOUND: i64 = 100_000_000;

/// Largest component magnitude any velocity may have.
pub const SPEED_BOUND: i64 = 1_000_000;

/// A planar vector in sub-units.
#[derive(Clone, Copy, Debug, PartialEq, Eq, Structural)]
pub struct Vec2 {
    pub x: i64,
    pub y: i64,
}

/// Squared Euclidean length.
pub open spec fn len_sq(v: Vec2) -> int {
    v.x * v.x + v.y * v.y
}

/// Squared Euclidean distance between two points.
pub open spec fn dist_sq(a: Vec2, b: Vec2) -> int {
    (a.x - b.x) * (a.x - b.x) + (a.y - b.y) * (a.y - b.y)
}

/// `|c| * num / den` with the sign of `c`: the product rounded toward zero.
pub open spec fn mul_div(c: int, num: int, den: int) -> int {
    if c >= 0 {
        c * num / den
    } else {
        -((-c) * num / den)
    }
}

/// Both components lie in `[-bound, bound]`.
pub open spec fn bounded(v: Vec2, bound: int) -> bool {
    -bound <= v.x <= bound && -bound <= v.y <= bound
}

impl Vec2 {
    pub fn new(x: i64, y: i64) -> (r: Vec2)
        ensures
            r == (Vec2 { x, y }),
    {
        Vec2 { x, y }
    }

    pub fn zero() -> (r: Vec2)
        ensures
            r == (Vec2 { x: 0, y: 0 }),
    {
        Vec2 { x: 0, y: 0 }
    }

    /// Squared distance to `other`.
    pub fn distance_sq(&self, other: &Vec2) -> (r: i64)
        requires
            bounded(*self, COORD_BOUND as int),
            bounded(*other, COORD_BOUND as int),
        ensures
            r == dist_sq(*self, *other),
            0 <= r <= 80_000_000_000_000_000,
    {
        let dx = self.x - other.x;
        let dy = self.y - other.y;
        assert(dx * dx <= 40_000_000_000_000_000) by (nonlinear_arith)
            requires
                -200_000_000 <= dx <= 200_000_000,
        ;
        assert(dy * dy <= 40_000_000_000_000_000) by (nonlinear_arith)
            requires
                -200_000_000 <= dy <= 200_000_000,
        ;
        assert(0 <= dx * dx && 0 <= dy * dy) by (nonlinear_arith);
        dx * dx + dy * dy
    }
}

/// Multiplies `c` by `num / den`, rounding toward zero.
pub fn mul_div_toward_zero(c: i64, num: i64, den: i64) -> (r: i64)
    requires
        -SPEED_BOUND <= c <= SPEED_BOUND,
        0 <= num <= SPEED_BOUND,
        0 < den,
    ensures
        r == mul_div(c as int, num as int, den as int),
{
    let m: i64 = if c >= 0 {
        c
    } else {
        -c
    };
    assert(0 <= m * num <= 1_000_000_000_000) by (nonlinear_arith)
        requires
            0 <= m <= 1_000_000,
            0 <= num <= 1_000_000,
    ;
    let q = m * num / den;
    if c >= 0 {
        q
    } else {
        -q
    }
}

/// The least `r` with `r * r >= n`.
pub fn ceil_sqrt(n: u64) -> (r: u64)
    requires
        n <= 0x4000_0000_0000_0000,
    ensures
        r * r >= n,
        r == 0 || (r - 1) * (r - 1) < n,
        r <= 0x8000_0000,
{
    if n == 0 {
        return 0;
    }
    // Search for the answer in (lo, hi]: lo * lo < n <= hi * hi.

    let mut lo: u64 = 0;
    let mut hi: u64 = 0x8000_0000;
    assert(hi * hi == 0x4000_0000_0000_0000);
    while lo + 1 < hi
        invariant
            lo < hi <= 0x8000_0000,
            lo * lo < n,
            n <= hi * hi,
        decreases hi - lo,
    {
        let mid = lo + (hi - lo) / 2;
        assert(mid * mid <= 0x4000_0000_0000_0000) by (nonlinear_arith)
            requires
                mid <= 0x8000_0000,
        ;
        if mid * mid < n {
            lo = mid;
        } else {
            hi = mid;
        }
    }
    assert(hi - 1 == lo);
    hi
}

} // verus!
