//! The three kinds of entity, their size classes and the splitting rule.
use vstd::prelude::*;
use crate::geometry::{Vec2, bounded, COORD_BOUND, SPEED_BOUND};
use crate::heading::{velocity_at, velocity_of, lemma_sine_range, HEADINGS};

verus! {

/// Visual scale of the starship.
pub const STARSHIP_SCALE: i64 = 50_000;

/// Visual scale of a bullet.
pub const BULLET_SCALE: i64 = 5_000;

/// Speed of a bullet.
pub const BULLET_SPEED: i64 = 6_000;

/// Speed of an asteroid fragment or of an initial asteroid.
pub const ASTEROID_SPEED: i64 = 2_000;

/// Asteroid size classes, largest first.
#[derive(Clone, Copy, Debug, PartialEq, Eq, Structural)]
pub enum AsteroidSize {
    Big,
    Medium,
    Small,
}

/// Visual scale (diameter) of each size class.
pub open spec fn size_scale(s: AsteroidSize) -> int {
    match s {
        AsteroidSize::Big => 100_000,
        AsteroidSize::Medium => 65_000,
        AsteroidSize::Small => 30_000,
    }
}

/// The class a fragment of an asteroid of class `s` has, if it splits at all.
pub open spec fn next_size(s: AsteroidSize) -> Option<AsteroidSize> {
    match s {
        AsteroidSize::Big => Some(AsteroidSize::Medium),
        AsteroidSize::Medium => Some(AsteroidSize::Small),
        AsteroidSize::Small => None,
    }
}

impl AsteroidSize {
    /// Visual scale of this class.
    pub fn scale(&self) -> (r: i64)
        ensures
            r == size_scale(*self),
    {
        match self {
            AsteroidSize::Big => 100_000,
            AsteroidSize::Medium => 65_000,
            AsteroidSize::Small => 30_000,
        }
    }

    /// The class of the fragments: Big to Medium, Medium to Small, none for Small.
    pub fn split(&self) -> (r: Option<AsteroidSize>)
        ensures
            r == next_size(*self),
    {
        match self {
            AsteroidSize::Big => Some(AsteroidSize::Medium),
            AsteroidSize::Medium => Some(AsteroidSize::Small),
            AsteroidSize::Small => None,
        }
    }
}

/// The player's ship. `heading` counts steps of `STEP_DEGREES` counter-clockwise.
#[derive(Clone, Copy, Debug, PartialEq, Eq, Structural)]
pub struct Starship {
    pub position: Vec2,
    pub velocity: Vec2,
    pub heading: u32,
}

/// A bullet, with the point it was fired from.
#[derive(Clone, Copy, Debug, PartialEq, Eq, Structural)]
pub struct Bullet {
    pub position: Vec2,
    pub velocity: Vec2,
    pub origin: Vec2,
}

/// An asteroid of some size class.
#[derive(Clone, Copy, Debug, PartialEq, Eq, Structural)]
pub struct Asteroid {
    pub position: Vec2,
    pub velocity: Vec2,
    pub size: AsteroidSize,
}

pub open spec fn starship_wf(s: Starship) -> bool {
    &&& s.heading < HEADINGS
    &&& bounded(s.position, COORD_BOUND as int)
    &&& bounded(s.velocity, SPEED_BOUND - crate::kinematics::STARSHIP_ACCELERATION)
}

pub open spec fn bullet_wf(b: Bullet) -> bool {
    &&& bounded(b.position, COORD_BOUND as int)
    &&& bounded(b.origin, COORD_BOUND as int)
    &&& bounded(b.velocity, SPEED_BOUND as int)
}

pub open spec fn asteroid_wf(a: Asteroid) -> bool {
    &&& bounded(a.position, COORD_BOUND as int)
    &&& bounded(a.velocity, SPEED_BOUND as int)
}

/// Every live slot holds a well-formed bullet.
pub open spec fn bullets_wf(s: Seq<Option<Bullet>>) -> bool {
    forall|i: int| 0 <= i < s.len() && #[trigger] s[i] is Some ==> bullet_wf(s[i]->0)
}

/// Every live slot holds a well-formed asteroid.
pub open spec fn asteroids_wf(s: Seq<Option<Asteroid>>) -> bool {
    forall|i: int| 0 <= i < s.len() && #[trigger] s[i] is Some ==> asteroid_wf(s[i]->0)
}

/// The asteroids that replace `a` when it is shot: two of the next class at
/// its position, moving at headings `h1` and `h2`, or none for the smallest class.
pub open spec fn fragments(a: Asteroid, h1: int, h2: int) -> Seq<Asteroid> {
    match next_size(a.size) {
        Some(s) => seq![
            Asteroid { position: a.position, velocity: velocity_at(h1, ASTEROID_SPEED as int), size: s },
            Asteroid { position: a.position, velocity: velocity_at(h2, ASTEROID_SPEED as int), size: s },
        ],
        None => seq![],
    }
}

/// The asteroids that replace `a` when it is shot.
pub fn fragments_of(a: &Asteroid, h1: u32, h2: u32) -> (r: Vec<Asteroid>)
    requires
        h1 < HEADINGS,
        h2 < HEADINGS,
    ensures
        r@ == fragments(*a, h1 as int, h2 as int),
{
    match a.size.split() {
        Some(s) => {
            let v1 = velocity_of(h1, ASTEROID_SPEED);
            let v2 = velocity_of(h2, ASTEROID_SPEED);
            let r = vec![
                Asteroid { position: a.position, velocity: v1, size: s },
                Asteroid { position: a.position, velocity: v2, size: s },
            ];
            assert(r@ =~= fragments(*a, h1 as int, h2 as int));
            r
        },
        None => {
            let r: Vec<Asteroid> = Vec::new();
            assert(r@ =~= fragments(*a, h1 as int, h2 as int));
            r
        },
    }
}

/// Velocities at table headings stay within the speed bound.
pub proof fn lemma_velocity_at_bounded(h: int, speed: int)
    requires
        0 <= h < HEADINGS,
        0 <= speed <= SPEED_BOUND,
    ensures
        bounded(velocity_at(h, speed), speed),
{
    lemma_sine_range(h);
    let c = crate::heading::cosine(h);
    let s = crate::heading::sine(h);
    assert(crate::geometry::mul_div(c, speed, 10_000) <= speed && -speed <= crate::geometry::mul_div(c, speed, 10_000)) by (nonlinear_arith)
        requires
            -10_000 <= c <= 10_000,
            0 <= speed,
    ;
    assert(crate::geometry::mul_div(s, speed, 10_000) <= speed && -speed <= crate::geometry::mul_div(s, speed, 10_000)) by (nonlinear_arith)
        requires
            -10_000 <= s <= 10_000,
            0 <= speed,
    ;
}

} // verus!
