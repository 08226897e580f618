//! Per-tick motion: position integration with toroidal wraparound, the
//! starship's thrust with its speed cap, and its passive deceleration.
use vstd::prelude::*;
use crate::geometry::{
    Vec2, len_sq, mul_div, bounded, mul_div_toward_zero, ceil_sqrt, COORD_BOUND, SPEED_BOUND,
};
use crate::heading::{velocity_at, forward, velocity_of, forward_of, lemma_sine_range, HEADINGS};

verus! {

/// Right edge of the viewport (1280 units wide, origin at the centre).
pub const MAX_X: i64 = 640_000;

/// Left edge of the viewport.
pub const MIN_X: i64 = -640_000;

/// Top edge of the viewport (720 units high).
pub const MAX_Y: i64 = 360_000;

/// Bottom edge of the viewport.
pub const MIN_Y: i64 = -360_000;

/// Largest half scale (bounding radius) an entity may have.
pub const HALF_BOUND: i64 = 1_000_000;

/// Speed the starship gains per tick of thrust.
pub const STARSHIP_ACCELERATION: i64 = 200;

/// Speed cap of the starship under thrust.
pub const STARSHIP_MAX_SPEED: i64 = 10_000;

/// Without thrust the starship keeps `DECAY_KEEP / DECAY_DEN` of its velocity per tick.
pub const DECAY_KEEP: i64 = 99;

/// Denominator of the per-tick decay factor.
pub const DECAY_DEN: i64 = 100;

/// One axis after integration: a coordinate that went past one edge by more
/// than `half` reappears just past the opposite edge.
pub open spec fn wrap(n: int, min: int, max: int, half: int) -> int {
    if n > max + half {
        min - half
    } else if n < min - half {
        max + half
    } else {
        n
    }
}

/// The position after one tick at velocity `v`, for an entity of bounding radius `half`.
pub open spec fn advanced(p: Vec2, v: Vec2, half: int) -> Vec2 {
    Vec2 {
        x: wrap(p.x + v.x, MIN_X as int, MAX_X as int, half) as i64,
        y: wrap(p.y + v.y, MIN_Y as int, MAX_Y as int, half) as i64,
    }
}

/// The velocity after one tick without thrust.
pub open spec fn decayed(v: Vec2) -> Vec2 {
    Vec2 {
        x: mul_div(v.x as int, DECAY_KEEP as int, DECAY_DEN as int) as i64,
        y: mul_div(v.y as int, DECAY_KEEP as int, DECAY_DEN as int) as i64,
    }
}

/// The least `r >= 0` with `r * r >= n`.
pub open spec fn ceil_root(n: int) -> int {
    choose|r: int| is_ceil_root(r, n)
}

pub open spec fn is_ceil_root(r: int, n: int) -> bool {
    r >= 0 && r * r >= n && (r == 0 || (r - 1) * (r - 1) < n)
}

/// `v` rescaled to magnitude `STARSHIP_MAX_SPEED` when it is longer, else `v` itself.
pub open spec fn capped(v: Vec2) -> Vec2 {
    if len_sq(v) > STARSHIP_MAX_SPEED * STARSHIP_MAX_SPEED {
        let r = ceil_root(len_sq(v));
        Vec2 {
            x: mul_div(v.x as int, STARSHIP_MAX_SPEED as int, r) as i64,
            y: mul_div(v.y as int, STARSHIP_MAX_SPEED as int, r) as i64,
        }
    } else {
        v
    }
}

/// The starship's velocity after one tick of thrust at heading `h`.
pub open spec fn thrusted(v: Vec2, h: int) -> Vec2 {
    let a = velocity_at(forward(h), STARSHIP_ACCELERATION as int);
    capped(Vec2 { x: (v.x + a.x) as i64, y: (v.y + a.y) as i64 })
}

pub proof fn lemma_square_monotone(a: int, b: int)
    requires
        0 <= a <= b,
    ensures
        a * a <= b * b,
{
    assert(a * a <= b * b) by (nonlinear_arith)
        requires
            0 <= a <= b,
    ;
}

/// Every natural number has a ceiling root.
pub proof fn lemma_ceil_root_exists(n: int)
    requires
        n >= 0,
    ensures
        is_ceil_root(ceil_root(n), n),
    decreases n,
{
    if n == 0 {
        assert(is_ceil_root(0, 0));
    } else {
        lemma_ceil_root_exists(n - 1);
        let r = ceil_root(n - 1);
        if r * r >= n {
            assert(r != 0);
            assert(is_ceil_root(r, n));
        } else {
            assert((r + 1) * (r + 1) == r * r + 2 * r + 1) by (nonlinear_arith);
            assert(is_ceil_root(r + 1, n));
        }
    }
}

/// There is exactly one ceiling root of a natural number.
pub proof fn lemma_ceil_root_unique(r: int, n: int)
    requires
        n >= 0,
        is_ceil_root(r, n),
    ensures
        ceil_root(n) == r,
{
    assert(is_ceil_root(r, n));
    let c = ceil_root(n);
    assert(is_ceil_root(c, n));
    if c < r {
        lemma_square_monotone(c, r - 1);
    } else if r < c {
        lemma_square_monotone(r, c - 1);
    }
}

/// Position integration for one entity.
pub fn advance(p: Vec2, v: Vec2, half: i64) -> (r: Vec2)
    requires
        bounded(p, COORD_BOUND as int),
        bounded(v, SPEED_BOUND as int),
        0 <= half <= HALF_BOUND,
    ensures
        r == advanced(p, v, half as int),
        bounded(r, COORD_BOUND as int),
{
    Vec2 { x: wrap_axis(p.x + v.x, MIN_X, MAX_X, half), y: wrap_axis(p.y + v.y, MIN_Y, MAX_Y, half) }
}

fn wrap_axis(n: i64, min: i64, max: i64, half: i64) -> (r: i64)
    requires
        -COORD_BOUND - SPEED_BOUND <= n <= COORD_BOUND + SPEED_BOUND,
        min == MIN_X && max == MAX_X || min == MIN_Y && max == MAX_Y,
        0 <= half <= HALF_BOUND,
    ensures
        r == wrap(n as int, min as int, max as int, half as int),
        -COORD_BOUND <= r <= COORD_BOUND,
{
    if n > max + half {
        min - half
    } else if n < min - half {
        max + half
    } else {
        n
    }
}

/// `|x|` for a mathematical integer.
pub open spec fn abs(x: int) -> int {
    if x >= 0 {
        x
    } else {
        -x
    }
}

/// One decayed component keeps the sign of `c` and lies within one sub-unit
/// below `99/100` of its magnitude.
pub proof fn lemma_decay_component(c: int)
    ensures
        100 * abs(mul_div(c, DECAY_KEEP as int, DECAY_DEN as int)) <= 99 * abs(c),
        100 * abs(mul_div(c, DECAY_KEEP as int, DECAY_DEN as int)) > 99 * abs(c) - 100,
        c >= 0 ==> mul_div(c, DECAY_KEEP as int, DECAY_DEN as int) >= 0,
        c <= 0 ==> mul_div(c, DECAY_KEEP as int, DECAY_DEN as int) <= 0,
{
    let a = abs(c);
    assert(100 * (a * 99 / 100) <= 99 * a && 100 * (a * 99 / 100) > 99 * a - 100 && a * 99 / 100 >= 0) by (nonlinear_arith)
        requires
            a >= 0,
    ;
}

/// Passive deceleration of the starship.
pub fn decay(v: Vec2) -> (r: Vec2)
    requires
        bounded(v, SPEED_BOUND as int),
    ensures
        r == decayed(v),
        bounded(r, SPEED_BOUND as int),
{
    Vec2 {
        x: mul_div_toward_zero(v.x, DECAY_KEEP, DECAY_DEN),
        y: mul_div_toward_zero(v.y, DECAY_KEEP, DECAY_DEN),
    }
}

proof fn lemma_floor_mul_div(c: int, m: int, r: int)
    requires
        0 <= c,
        0 <= m,
        0 < r,
    ensures
        0 <= c * m / r,
        r * (c * m / r) <= c * m,
{
    assert(0 <= c * m) by (nonlinear_arith)
        requires
            0 <= c,
            0 <= m,
    ;
    assert(0 <= c * m / r && r * (c * m / r) <= c * m) by (nonlinear_arith)
        requires
            0 <= c * m,
            0 < r,
    ;
}

proof fn lemma_scaled_component(c: int, m: int, r: int)
    requires
        0 <= m,
        0 < r,
    ensures
        r * r * (mul_div(c, m, r) * mul_div(c, m, r)) <= c * c * (m * m),
{
    let a = if c >= 0 {
        c
    } else {
        -c
    };
    lemma_floor_mul_div(a, m, r);
    let q = a * m / r;
    assert(mul_div(c, m, r) == q || mul_div(c, m, r) == -q);
    assert(mul_div(c, m, r) * mul_div(c, m, r) == q * q) by (nonlinear_arith)
        requires
            mul_div(c, m, r) == q || mul_div(c, m, r) == -q,
    ;
    assert(a * a == c * c) by (nonlinear_arith)
        requires
            a == c || a == -c,
    ;
    assert(0 <= r * q) by (nonlinear_arith)
        requires
            0 < r,
            0 <= q,
    ;
    lemma_square_monotone(r * q, a * m);
    assert(r * r * (q * q) == (r * q) * (r * q)) by (nonlinear_arith);
    assert((a * m) * (a * m) == a * a * (m * m)) by (nonlinear_arith);
}

/// Rescaling by `m / ceil_root(|v|^2)` never yields a vector longer than `m`.
pub proof fn lemma_capped_length(x: int, y: int, m: int, r: int)
    requires
        0 < m,
        0 < r,
        r * r >= x * x + y * y,
    ensures
        mul_div(x, m, r) * mul_div(x, m, r) + mul_div(y, m, r) * mul_div(y, m, r) <= m * m,
{
    lemma_scaled_component(x, m, r);
    lemma_scaled_component(y, m, r);
    let ax = mul_div(x, m, r) * mul_div(x, m, r);
    let ay = mul_div(y, m, r) * mul_div(y, m, r);
    assert(0 <= m * m) by (nonlinear_arith);
    assert(r * r * (ax + ay) <= (x * x + y * y) * (m * m)) by (nonlinear_arith)
        requires
            r * r * ax <= x * x * (m * m),
            r * r * ay <= y * y * (m * m),
    ;
    assert((x * x + y * y) * (m * m) <= r * r * (m * m)) by (nonlinear_arith)
        requires
            r * r >= x * x + y * y,
            0 <= m * m,
    ;
    assert(ax + ay <= m * m) by (nonlinear_arith)
        requires
            r * r * (ax + ay) <= r * r * (m * m),
            0 < r,
    ;
}

/// The cap keeps short vectors and shortens long ones to at most the cap.
pub fn cap_speed(v: Vec2) -> (r: Vec2)
    requires
        bounded(v, SPEED_BOUND as int),
    ensures
        r == capped(v),
        len_sq(r) <= STARSHIP_MAX_SPEED * STARSHIP_MAX_SPEED,
        bounded(r, STARSHIP_MAX_SPEED as int),
{
    assert(0 <= v.x * v.x <= 1_000_000_000_000 && 0 <= v.y * v.y <= 1_000_000_000_000)
        by (nonlinear_arith)
        requires
            bounded(v, SPEED_BOUND as int),
    ;
    let n = (v.x * v.x + v.y * v.y) as u64;
    if n > (STARSHIP_MAX_SPEED * STARSHIP_MAX_SPEED) as u64 {
        let root = ceil_sqrt(n);
        proof {
            lemma_ceil_root_unique(root as int, n as int);
            lemma_capped_length(v.x as int, v.y as int, STARSHIP_MAX_SPEED as int, root as int);
        }
        let r = Vec2 {
            x: mul_div_toward_zero(v.x, STARSHIP_MAX_SPEED, root as i64),
            y: mul_div_toward_zero(v.y, STARSHIP_MAX_SPEED, root as i64),
        };
        proof {
            lemma_component_of_short(r.x as int, r.y as int, STARSHIP_MAX_SPEED as int);
        }
        r
    } else {
        proof {
            lemma_component_of_short(v.x as int, v.y as int, STARSHIP_MAX_SPEED as int);
        }
        v
    }
}

pub proof fn lemma_component_of_short(x: int, y: int, m: int)
    requires
        0 < m,
        x * x + y * y <= m * m,
    ensures
        -m <= x <= m,
        -m <= y <= m,
{
    assert(-m <= x <= m && -m <= y <= m) by (nonlinear_arith)
        requires
            0 < m,
            x * x + y * y <= m * m,
    ;
}

/// One tick of thrust at heading `h`: the forward impulse, then the speed cap.
pub fn thrust(v: Vec2, h: u32) -> (r: Vec2)
    requires
        bounded(v, SPEED_BOUND - STARSHIP_ACCELERATION),
        h < HEADINGS,
    ensures
        r == thrusted(v, h as int),
        len_sq(r) <= STARSHIP_MAX_SPEED * STARSHIP_MAX_SPEED,
        bounded(r, STARSHIP_MAX_SPEED as int),
{
    let f = forward_of(h);
    let a = velocity_of(f, STARSHIP_ACCELERATION);
    proof {
        lemma_sine_range(f as int);
        lemma_accel_bounded(f as int);
    }
    cap_speed(Vec2 { x: v.x + a.x, y: v.y + a.y })
}

pub proof fn lemma_accel_bounded(h: int)
    requires
        0 <= h < 72,
    ensures
        bounded(velocity_at(h, STARSHIP_ACCELERATION as int), STARSHIP_ACCELERATION as int),
{
    lemma_sine_range(h);
}

} // verus!
