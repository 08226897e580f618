//! Headings in whole steps and a fixed-point table of their unit vectors.
use vstd::prelude::*;
use crate::geometry::{Vec2, mul_div, mul_div_toward_zero, SPEED_BOUND};

verus! {

/// Number of distinct headings in a full turn.
pub const HEADINGS: u32 = 72;

/// Degrees in one heading step.
pub const STEP_DEGREES: u32 = 5;

/// Fixed-point scale of the unit-vector table: `UNIT` stands for 1.0.
pub const UNIT: i64 = 10_000;

/// `UNIT * sin(5k degrees)` rounded to the nearest integer, for `k` in `0..=18`.
pub open spec fn quarter_sine(k: int) -> int {
    if k <= 0 {
        0
    } else if k == 1 {
        872
    } else if k == 2 {
        1736
    } else if k == 3 {
        2588
    } else if k == 4 {
        3420
    } else if k == 5 {
        4226
    } else if k == 6 {
        5000
    } else if k == 7 {
        5736
    } else if k == 8 {
        6428
    } else if k == 9 {
        7071
    } else if k == 10 {
        7660
    } else if k == 11 {
        8192
    } else if k == 12 {
        8660
    } else if k == 13 {
        9063
    } else if k == 14 {
        9397
    } else if k == 15 {
        9659
    } else if k == 16 {
        9848
    } else if k == 17 {
        9962
    } else {
        10000
    }
}

/// `UNIT * sin(5h degrees)` for a heading `h` in `0..72`, from the quarter table by symmetry.
pub open spec fn sine(h: int) -> int {
    let q = h / 18;
    let r = h % 18;
    if q == 0 {
        quarter_sine(r)
    } else if q == 1 {
        quarter_sine(18 - r)
    } else if q == 2 {
        -quarter_sine(r)
    } else {
        -quarter_sine(18 - r)
    }
}

/// `UNIT * cos(5h degrees)`: the sine a quarter turn ahead.
pub open spec fn cosine(h: int) -> int {
    sine((h + 18) % 72)
}

/// The unit vector at heading `h`, scaled by `UNIT`.
pub open spec fn unit_vector(h: int) -> Vec2 {
    Vec2 { x: cosine(h) as i64, y: sine(h) as i64 }
}

/// The heading a quarter turn counter-clockwise from `h`: a ship at heading `h`
/// points this way, since its nose is drawn along the y axis.
pub open spec fn forward(h: int) -> int {
    (h + 18) % 72
}

/// The velocity of magnitude `speed` at heading `h`, each component rounded toward zero.
pub open spec fn velocity_at(h: int, speed: int) -> Vec2 {
    Vec2 {
        x: mul_div(cosine(h), speed, UNIT as int) as i64,
        y: mul_div(sine(h), speed, UNIT as int) as i64,
    }
}

/// Every table entry lies in `[0, UNIT]`.
pub proof fn lemma_quarter_sine_range(k: int)
    ensures
        0 <= quarter_sine(k) <= UNIT,
{
}

/// The table entries, as components, lie in `[-UNIT, UNIT]`.
pub proof fn lemma_sine_range(h: int)
    requires
        0 <= h < 72,
    ensures
        -UNIT <= sine(h) <= UNIT,
        -UNIT <= cosine(h) <= UNIT,
{
    lemma_quarter_sine_range(h % 18);
    lemma_quarter_sine_range(18 - h % 18);
    let g = (h + 18) % 72;
    lemma_quarter_sine_range(g % 18);
    lemma_quarter_sine_range(18 - g % 18);
}

fn quarter_sine_of(k: u32) -> (r: i64)
    requires
        k <= 18,
    ensures
        r == quarter_sine(k as int),
{
    match k {
        0 => 0,
        1 => 872,
        2 => 1736,
        3 => 2588,
        4 => 3420,
        5 => 4226,
        6 => 5000,
        7 => 5736,
        8 => 6428,
        9 => 7071,
        10 => 7660,
        11 => 8192,
        12 => 8660,
        13 => 9063,
        14 => 9397,
        15 => 9659,
        16 => 9848,
        17 => 9962,
        _ => 10000,
    }
}

/// `UNIT * sin(5h degrees)`.
pub fn sine_of(h: u32) -> (r: i64)
    requires
        h < HEADINGS,
    ensures
        r == sine(h as int),
{
    let q = h / 18;
    let r = h % 18;
    if q == 0 {
        quarter_sine_of(r)
    } else if q == 1 {
        quarter_sine_of(18 - r)
    } else if q == 2 {
        -quarter_sine_of(r)
    } else {
        -quarter_sine_of(18 - r)
    }
}

/// `UNIT * cos(5h degrees)`.
pub fn cosine_of(h: u32) -> (r: i64)
    requires
        h < HEADINGS,
    ensures
        r == cosine(h as int),
{
    sine_of((h + 18) % 72)
}

/// The heading one step counter-clockwise.
pub fn turn_left(h: u32) -> (r: u32)
    requires
        h < HEADINGS,
    ensures
        r == (h + 1) % 72,
        r < HEADINGS,
{
    (h + 1) % 72
}

/// The heading one step clockwise.
pub fn turn_right(h: u32) -> (r: u32)
    requires
        h < HEADINGS,
    ensures
        r == (h + 71) % 72,
        r < HEADINGS,
{
    (h + 71) % 72
}

/// The direction a ship at heading `h` points to.
pub fn forward_of(h: u32) -> (r: u32)
    requires
        h < HEADINGS,
    ensures
        r == forward(h as int),
        r < HEADINGS,
{
    (h + 18) % 72
}

/// The velocity of magnitude `speed` at heading `h`.
pub fn velocity_of(h: u32, speed: i64) -> (r: Vec2)
    requires
        h < HEADINGS,
        0 <= speed <= SPEED_BOUND,
    ensures
        r == velocity_at(h as int, speed as int),
{
    proof {
        lemma_sine_range(h as int);
    }
    let c = cosine_of(h);
    let s = sine_of(h);
    Vec2 { x: mul_div_toward_zero(c, speed, UNIT), y: mul_div_toward_zero(s, speed, UNIT) }
}

} // verus!
