//! The entity store and the fixed-order tick: input, motion, range pruning,
//! then collision detection and its despawns and spawns.
use vstd::prelude::*;
use crate::geometry::{Vec2, dist_sq, bounded, COORD_BOUND, SPEED_BOUND};
use crate::heading::{velocity_at, forward, turn_left, turn_right, forward_of, velocity_of, HEADINGS};
use crate::kinematics::{
    advanced, advance, decayed, decay, thrusted, thrust, MIN_X, MAX_X, MIN_Y, MAX_Y,
    STARSHIP_ACCELERATION,
};
use crate::entity::{
    AsteroidSize, Starship, Bullet, Asteroid, size_scale, fragments, fragments_of, starship_wf,
    bullet_wf, asteroid_wf, bullets_wf, asteroids_wf, lemma_velocity_at_bounded, STARSHIP_SCALE,
    BULLET_SCALE, BULLET_SPEED, ASTEROID_SPEED,
};
use crate::collision::{ship_struck, targets, targets_live, starship_struck, bullet_targets};
use crate::slots::{placed, placed_all, first_free, place, place_all, lemma_placed_entries};
use crate::random::{seeded_rng, draw_below};

verus! {

/// Bounding radius of the starship.
pub const STARSHIP_HALF: i64 = 25_000;

/// Bounding radius of a bullet.
pub const BULLET_HALF: i64 = 2_500;

/// A bullet farther than this from where it was fired is removed (80% of the viewport height).
pub const BULLET_RANGE: i64 = 576_000;

/// Number of Big asteroids a new game starts with.
pub const INITIAL_ASTEROIDS: usize = 6;

/// The control keys the core reacts to.
#[derive(Clone, Copy, Debug, PartialEq, Eq, Structural)]
pub enum Key {
    RotateLeft,
    RotateRight,
    Thrust,
    Fire,
    Other,
}

/// A key transition.
#[derive(Clone, Copy, Debug, PartialEq, Eq, Structural)]
pub enum KeyState {
    Pressed,
    Released,
}

/// One key transition since the last tick.
#[derive(Clone, Copy, Debug, PartialEq, Eq, Structural)]
pub struct KeyEvent {
    pub key: Key,
    pub state: KeyState,
}

/// One tick of input: the keys held now, and the transitions since the last tick.
pub struct Input {
    pub rotate_left: bool,
    pub rotate_right: bool,
    pub thrust: bool,
    pub events: Vec<KeyEvent>,
}

/// A stable name for a live entity: its kind and slot.
#[derive(Clone, Copy, Debug, PartialEq, Eq, Hash, Structural)]
pub enum Handle {
    Starship,
    Bullet(usize),
    Asteroid(usize),
}

/// What a renderer needs of an entity.
#[derive(Clone, Copy, Debug, PartialEq, Eq, Structural)]
pub struct Spatial {
    pub position: Vec2,
    pub velocity: Vec2,
    pub heading: u32,
    pub scale: i64,
}

/// What one tick's collision phase did.
#[derive(Clone, Copy, Debug, PartialEq, Eq, Structural)]
pub struct TickReport {
    /// The starship was struck and removed: the run is over.
    pub starship_destroyed: bool,
    /// Number of asteroids shot this tick.
    pub asteroids_hit: usize,
}

/// The entities of a world: the starship, the bullet slots, the asteroid slots.
pub type Scene = (Option<Starship>, Seq<Option<Bullet>>, Seq<Option<Asteroid>>);

/// The simulation state: at most one starship, bullet and asteroid slots
/// (a handle is a slot index; a freed slot is reused by the next spawn of its
/// kind), and the seeded source of the random draws for asteroid placement
/// and fragment headings.
pub struct World {
    pub starship: Option<Starship>,
    pub bullets: Vec<Option<Bullet>>,
    pub asteroids: Vec<Option<Asteroid>>,
    pub rng: rand::rngs::StdRng,
}

pub open spec fn is_fire_press(e: KeyEvent) -> bool {
    e.key is Fire && e.state is Pressed
}

/// Number of presses of the fire key among `events`.
pub open spec fn presses(events: Seq<KeyEvent>) -> nat
    decreases events.len(),
{
    if events.len() == 0 {
        0
    } else {
        presses(events.drop_last()) + if is_fire_press(events.last()) {
            1nat
        } else {
            0nat
        }
    }
}

/// The heading after this tick's rotation keys; left wins when both are held.
pub open spec fn turned(h: u32, input: Input) -> u32 {
    if input.rotate_left {
        ((h + 1) % 72) as u32
    } else if input.rotate_right {
        ((h + 71) % 72) as u32
    } else {
        h
    }
}

/// The starship after this tick's held keys: rotation, then thrust or decay.
pub open spec fn steered(s: Starship, input: Input) -> Starship {
    let h = turned(s.heading, input);
    Starship {
        position: s.position,
        velocity: if input.thrust {
            thrusted(s.velocity, h as int)
        } else {
            decayed(s.velocity)
        },
        heading: h,
    }
}

/// A bullet fired by `s`: from its position, along its nose, at bullet speed.
pub open spec fn shot_from(s: Starship) -> Bullet {
    Bullet {
        position: s.position,
        velocity: velocity_at(forward(s.heading as int), BULLET_SPEED as int),
        origin: s.position,
    }
}

pub open spec fn volley(s: Starship, n: nat) -> Seq<Bullet> {
    Seq::new(n, |i: int| shot_from(s))
}

/// Input phase.
pub open spec fn after_input(sc: Scene, input: Input) -> Scene {
    match sc.0 {
        Some(s) => {
            let s2 = steered(s, input);
            (Some(s2), placed_all(sc.1, volley(s2, presses(input.events@))), sc.2)
        },
        None => sc,
    }
}

pub open spec fn moved_ship(s: Starship) -> Starship {
    Starship {
        position: advanced(s.position, s.velocity, STARSHIP_HALF as int),
        velocity: s.velocity,
        heading: s.heading,
    }
}

pub open spec fn moved_bullet(b: Bullet) -> Bullet {
    Bullet {
        position: advanced(b.position, b.velocity, BULLET_HALF as int),
        velocity: b.velocity,
        origin: b.origin,
    }
}

pub open spec fn moved_asteroid(a: Asteroid) -> Asteroid {
    Asteroid {
        position: advanced(a.position, a.velocity, size_scale(a.size) / 2),
        velocity: a.velocity,
        size: a.size,
    }
}

/// Motion phase: every entity moves by its velocity and wraps around.
pub open spec fn after_motion(sc: Scene) -> Scene {
    (
        match sc.0 {
            Some(s) => Some(moved_ship(s)),
            None => None,
        },
        Seq::new(
            sc.1.len(),
            |i: int|
                match sc.1[i] {
                    Some(b) => Some(moved_bullet(b)),
                    None => None,
                },
        ),
        Seq::new(
            sc.2.len(),
            |j: int|
                match sc.2[j] {
                    Some(a) => Some(moved_asteroid(a)),
                    None => None,
                },
        ),
    )
}

/// The bullet is farther from where it was fired than its range.
pub open spec fn out_of_range(b: Bullet) -> bool {
    dist_sq(b.position, b.origin) > BULLET_RANGE * BULLET_RANGE
}

/// Range phase: bullets out of range are removed.
pub open spec fn after_pruning(sc: Scene) -> Scene {
    (
        sc.0,
        Seq::new(
            sc.1.len(),
            |i: int|
                match sc.1[i] {
                    Some(b) => if out_of_range(b) {
                        None
                    } else {
                        Some(b)
                    },
                    None => None,
                },
        ),
        sc.2,
    )
}

/// The fragments spawned by the shot asteroids among the first `n` asteroid
/// slots, in slot order; the fragments of slot `j` get the headings `hs[j]`.
/// An asteroid hit by several bullets splits once.
pub open spec fn debris(asteroids: Seq<Option<Asteroid>>, t: Seq<Option<usize>>, hs: Seq<(u32, u32)>, n: int) -> Seq<Asteroid>
    decreases n,
{
    if n <= 0 {
        seq![]
    } else {
        debris(asteroids, t, hs, n - 1) + if t.contains(Some((n - 1) as usize)) {
            fragments(asteroids[n - 1]->0, hs[n - 1].0 as int, hs[n - 1].1 as int)
        } else {
            seq![]
        }
    }
}

/// Number of shot asteroids among the first `n` asteroid slots.
pub open spec fn shot_count(t: Seq<Option<usize>>, n: int) -> nat
    decreases n,
{
    if n <= 0 {
        0
    } else {
        shot_count(t, n - 1) + if t.contains(Some((n - 1) as usize)) {
            1nat
        } else {
            0nat
        }
    }
}

/// The asteroid slots that remain after the shot ones are removed.
pub open spec fn surviving(asteroids: Seq<Option<Asteroid>>, t: Seq<Option<usize>>) -> Seq<Option<Asteroid>> {
    Seq::new(
        asteroids.len(),
        |j: int|
            if t.contains(Some(j as usize)) {
                None
            } else {
                asteroids[j]
            },
    )
}

/// Collision phase: a struck starship is removed; every bullet with a target
/// is removed, every asteroid some bullet hits is removed, and the fragments
/// of each removed asteroid are spawned.
pub open spec fn after_collisions(sc: Scene, hs: Seq<(u32, u32)>) -> Scene {
    let t = targets(sc.1, sc.2, sc.1.len() as int);
    (
        match sc.0 {
            Some(s) => if ship_struck(s, sc.2) {
                None
            } else {
                Some(s)
            },
            None => None,
        },
        Seq::new(
            sc.1.len(),
            |i: int|
                if t[i] is Some {
                    None
                } else {
                    sc.1[i]
                },
        ),
        placed_all(surviving(sc.2, t), debris(sc.2, t, hs, sc.2.len() as int)),
    )
}

/// The phases before collision detection.
pub open spec fn staged(sc: Scene, input: Input) -> Scene {
    after_pruning(after_motion(after_input(sc, input)))
}

/// A whole tick, with fragment headings `hs`.
pub open spec fn ticked(sc: Scene, input: Input, hs: Seq<(u32, u32)>) -> Scene {
    after_collisions(staged(sc, input), hs)
}

/// `hs` gives a pair of table headings to each of `n` asteroid slots.
pub open spec fn headings_for(hs: Seq<(u32, u32)>, n: int) -> bool {
    &&& hs.len() == n
    &&& forall|i: int| 0 <= i < n ==> #[trigger] hs[i].0 < HEADINGS && hs[i].1 < HEADINGS
}

/// Where a random asteroid may be placed.
pub open spec fn in_viewport(p: Vec2) -> bool {
    MIN_X <= p.x < MAX_X && MIN_Y <= p.y < MAX_Y
}

proof fn lemma_placed_all_asteroids(s: Seq<Option<Asteroid>>, xs: Seq<Asteroid>)
    requires
        asteroids_wf(s),
        forall|k: int| 0 <= k < xs.len() ==> asteroid_wf(#[trigger] xs[k]),
    ensures
        asteroids_wf(placed_all(s, xs)),
    decreases xs.len(),
{
    if xs.len() > 0 {
        let p = placed_all(s, xs.drop_last());
        lemma_placed_all_asteroids(s, xs.drop_last());
        lemma_placed_entries(p, xs.last());
        assert(asteroid_wf(xs[xs.len() - 1]));
    }
}

/// Width of the viewport in sub-units: the range of a horizontal draw.
pub const VIEWPORT_WIDTH: u32 = 1_280_000;

/// Height of the viewport in sub-units: the range of a vertical draw.
pub const VIEWPORT_HEIGHT: u32 = 720_000;

/// Draws that `asteroid_from_draws` accepts.
pub open spec fn draws_ok(rx: u32, ry: u32, h: u32) -> bool {
    rx < VIEWPORT_WIDTH && ry < VIEWPORT_HEIGHT && h < HEADINGS
}

/// The point `rx` sub-units right of the left edge and `ry` above the bottom edge.
pub open spec fn drawn_point(rx: u32, ry: u32) -> Vec2 {
    Vec2 { x: (rx + MIN_X) as i64, y: (ry + MIN_Y) as i64 }
}

/// A Big asteroid at `drawn_point(rx, ry)` moving at asteroid speed in heading `h`.
pub open spec fn drawn_asteroid(rx: u32, ry: u32, h: u32) -> Asteroid {
    Asteroid {
        position: drawn_point(rx, ry),
        velocity: velocity_at(h as int, ASTEROID_SPEED as int),
        size: AsteroidSize::Big,
    }
}

/// `a` is the asteroid of some accepted draws.
pub open spec fn from_some_draws(a: Option<Asteroid>) -> bool {
    exists|rx: u32, ry: u32, h: u32| draws_ok(rx, ry, h) && a == Some(drawn_asteroid(rx, ry, h))
}

/// The viewport point for a horizontal draw `rx` and a vertical draw `ry`.
pub fn point_from_draws(rx: u32, ry: u32) -> (p: Vec2)
    requires
        rx < VIEWPORT_WIDTH,
        ry < VIEWPORT_HEIGHT,
    ensures
        p == drawn_point(rx, ry),
        in_viewport(p),
{
    Vec2 { x: rx as i64 + MIN_X, y: ry as i64 + MIN_Y }
}

/// The Big asteroid a new game places for the draws `rx`, `ry` and `h`.
pub fn asteroid_from_draws(rx: u32, ry: u32, h: u32) -> (a: Asteroid)
    requires
        draws_ok(rx, ry, h),
    ensures
        a == drawn_asteroid(rx, ry, h),
        in_viewport(a.position),
{
    Asteroid {
        position: point_from_draws(rx, ry),
        velocity: velocity_of(h, ASTEROID_SPEED),
        size: AsteroidSize::Big,
    }
}

impl World {
    /// The entities, as mathematical values.
    pub open spec fn scene(&self) -> Scene {
        (self.starship, self.bullets@, self.asteroids@)
    }

    /// Every entity's coordinates and velocity are within the bounds the
    /// arithmetic is proved for, and the starship obeys its speed cap.
    pub open spec fn wf(&self) -> bool {
        &&& (self.starship matches Some(s) ==> starship_wf(s))
        &&& bullets_wf(self.bullets@)
        &&& asteroids_wf(self.asteroids@)
    }

    /// Input phase: rotate, thrust or decay, and fire one bullet per press of the fire key.
    pub fn apply_input(&mut self, input: &Input)
        requires
            old(self).wf(),
        ensures
            final(self).wf(),
            final(self).scene() == after_input(old(self).scene(), *input),
    {
        match self.starship {
            Some(s) => {
                let h = if input.rotate_left {
                    turn_left(s.heading)
                } else if input.rotate_right {
                    turn_right(s.heading)
                } else {
                    s.heading
                };
                let v = if input.thrust {
                    thrust(s.velocity, h)
                } else {
                    proof {
                        crate::laws::lemma_deceleration(s.velocity);
                    }
                    decay(s.velocity)
                };
                let s2 = Starship { position: s.position, velocity: v, heading: h };
                assert(s2 == steered(s, *input));
                assert(starship_wf(s2));
                self.starship = Some(s2);
                let f = forward_of(h);
                let shot = Bullet {
                    position: s.position,
                    velocity: velocity_of(f, BULLET_SPEED),
                    origin: s.position,
                };
                proof {
                    lemma_velocity_at_bounded(f as int, BULLET_SPEED as int);
                }
                assert(shot == shot_from(s2));
                let ghost b0 = self.bullets@;
                let mut i: usize = 0;
                while i < input.events.len()
                    invariant
                        i <= input.events.len(),
                        self.bullets@ == placed_all(b0, volley(s2, presses(input.events@.subrange(0, i as int)))),
                        bullets_wf(self.bullets@),
                        bullet_wf(shot),
                        shot == shot_from(s2),
                        self.starship == Some(s2),
                        self.asteroids@ == old(self).asteroids@,
                        starship_wf(s2),
                        b0 == old(self).bullets@,
                    decreases input.events.len() - i,
                {
                    let e = input.events[i];
                    let ghost pre = input.events@.subrange(0, i as int);
                    assert(input.events@.subrange(0, i + 1).drop_last() =~= pre);
                    assert(input.events@.subrange(0, i + 1).last() == e);
                    let fire = match e.key {
                        Key::Fire => match e.state {
                            KeyState::Pressed => true,
                            KeyState::Released => false,
                        },
                        _ => false,
                    };
                    if fire {
                        let ghost n = presses(pre);
                        assert(volley(s2, n + 1).drop_last() =~= volley(s2, n));
                        place(&mut self.bullets, shot);
                        proof {
                            lemma_placed_entries(placed_all(b0, volley(s2, n)), shot);
                        }
                    }
                    i += 1;
                }
                assert(input.events@.subrange(0, input.events@.len() as int) =~= input.events@);
            },
            None => {},
        }
    }

    /// Motion phase: every entity moves by its velocity and wraps around the viewport.
    pub fn integrate(&mut self)
        requires
            old(self).wf(),
        ensures
            final(self).wf(),
            final(self).scene() == after_motion(old(self).scene()),
    {
        match self.starship {
            Some(s) => {
                let p = advance(s.position, s.velocity, STARSHIP_HALF);
                self.starship = Some(Starship { position: p, velocity: s.velocity, heading: s.heading });
            },
            None => {},
        }
        let ghost ship = self.starship;
        let ghost b0 = self.bullets@;
        let mut i: usize = 0;
        while i < self.bullets.len()
            invariant
                i <= self.bullets@.len(),
                self.bullets@.len() == b0.len(),
                b0 == old(self).bullets@,
                self.asteroids@ == old(self).asteroids@,
                self.starship == ship,
                bullets_wf(b0),
                bullets_wf(self.bullets@),
                forall|k: int| 0 <= k < b0.len() ==> #[trigger] self.bullets@[k] == if k < i {
                    match b0[k] {
                        Some(b) => Some(moved_bullet(b)),
                        None => None,
                    }
                } else {
                    b0[k]
                },
            decreases b0.len() - i,
        {
            if let Some(b) = self.bullets[i] {
                assert(self.bullets@[i as int] is Some);
                let p = advance(b.position, b.velocity, BULLET_HALF);
                self.bullets.set(i, Some(Bullet { position: p, velocity: b.velocity, origin: b.origin }));
            }
            i += 1;
        }
        assert(self.bullets@ =~= after_motion(old(self).scene()).1);
        let ghost a0 = self.asteroids@;
        let mut j: usize = 0;
        while j < self.asteroids.len()
            invariant
                j <= self.asteroids@.len(),
                self.asteroids@.len() == a0.len(),
                a0 == old(self).asteroids@,
                self.bullets@ == after_motion(old(self).scene()).1,
                bullets_wf(self.bullets@),
                self.starship == ship,
                asteroids_wf(a0),
                asteroids_wf(self.asteroids@),
                forall|k: int| 0 <= k < a0.len() ==> #[trigger] self.asteroids@[k] == if k < j {
                    match a0[k] {
                        Some(a) => Some(moved_asteroid(a)),
                        None => None,
                    }
                } else {
                    a0[k]
                },
            decreases a0.len() - j,
        {
            if let Some(a) = self.asteroids[j] {
                assert(self.asteroids@[j as int] is Some);
                let half = a.size.scale() / 2;
                let p = advance(a.position, a.velocity, half);
                self.asteroids.set(j, Some(Asteroid { position: p, velocity: a.velocity, size: a.size }));
            }
            j += 1;
        }
        assert(self.asteroids@ =~= after_motion(old(self).scene()).2);
    }

    /// Range phase: removes every bullet farther than `BULLET_RANGE` from where it was fired.
    pub fn prune_bullets(&mut self)
        requires
            old(self).wf(),
        ensures
            final(self).wf(),
            final(self).scene() == after_pruning(old(self).scene()),
    {
        let ghost b0 = self.bullets@;
        let mut i: usize = 0;
        while i < self.bullets.len()
            invariant
                i <= self.bullets@.len(),
                self.bullets@.len() == b0.len(),
                b0 == old(self).bullets@,
                self.asteroids@ == old(self).asteroids@,
                self.starship == old(self).starship,
                bullets_wf(b0),
                bullets_wf(self.bullets@),
                forall|k: int| 0 <= k < b0.len() ==> #[trigger] self.bullets@[k] == if k < i {
                    match b0[k] {
                        Some(b) => if out_of_range(b) {
                            None
                        } else {
                            Some(b)
                        },
                        None => None,
                    }
                } else {
                    b0[k]
                },
            decreases b0.len() - i,
        {
            if let Some(b) = self.bullets[i] {
                assert(self.bullets@[i as int] is Some);
                if b.position.distance_sq(&b.origin) > BULLET_RANGE * BULLET_RANGE {
                    self.bullets.set(i, None);
                }
            }
            i += 1;
        }
        assert(self.bullets@ =~= after_pruning(old(self).scene()).1);
    }

    /// Collision phase. A starship touching any asteroid is removed. Each
    /// bullet hits the first live asteroid, in slot order, that it touches.
    /// Every bullet that hits is removed, and so is every asteroid that is
    /// hit; an asteroid in slot `j` splits once, into fragments with the
    /// headings `hs[j]`, however many bullets hit it.
    #[verifier::rlimit(40)]
    pub fn resolve(&mut self, hs: &Vec<(u32, u32)>) -> (report: TickReport)
        requires
            old(self).wf(),
            headings_for(hs@, old(self).asteroids@.len() as int),
        ensures
            final(self).wf(),
            final(self).scene() == after_collisions(old(self).scene(), hs@),
            report.starship_destroyed == (old(self).starship is Some && final(self).starship is None),
            report.asteroids_hit == shot_count(
                targets(old(self).bullets@, old(self).asteroids@, old(self).bullets@.len() as int),
                old(self).asteroids@.len() as int,
            ),
    {
        let struck = match &self.starship {
            Some(s) => starship_struck(s, &self.asteroids),
            None => false,
        };
        if struck {
            self.starship = None;
        }
        let (t, taken) = bullet_targets(&self.bullets, &self.asteroids);
        let ghost a0 = self.asteroids@;
        let ghost b0 = self.bullets@;
        let mut i: usize = 0;
        while i < self.bullets.len()
            invariant
                i <= self.bullets@.len(),
                self.bullets@.len() == b0.len(),
                t@.len() == b0.len(),
                b0 == old(self).bullets@,
                self.asteroids@ == a0,
                self.starship == if struck { None } else { old(self).starship },
                bullets_wf(b0),
                bullets_wf(self.bullets@),
                forall|k: int| 0 <= k < b0.len() ==> #[trigger] self.bullets@[k] == if k < i && t@[k] is Some {
                    None
                } else {
                    b0[k]
                },
            decreases b0.len() - i,
        {
            if t[i].is_some() {
                self.bullets.set(i, None);
            }
            i += 1;
        }
        assert(self.bullets@ =~= after_collisions(old(self).scene(), hs@).1);
        let mut fresh: Vec<Asteroid> = Vec::new();
        let mut count: usize = 0;
        let mut j: usize = 0;
        while j < self.asteroids.len()
            invariant
                j <= self.asteroids@.len(),
                self.asteroids@.len() == a0.len(),
                taken@.len() == a0.len(),
                hs@.len() == a0.len(),
                headings_for(hs@, a0.len() as int),
                self.bullets@ =~= after_collisions(old(self).scene(), hs@).1,
                bullets_wf(self.bullets@),
                self.starship == if struck { None } else { old(self).starship },
                forall|m: usize| m < a0.len() ==> (#[trigger] taken@[m as int] <==> t@.contains(Some(m))),
                asteroids_wf(a0),
                asteroids_wf(self.asteroids@),
                targets_live(t@, a0),
                forall|k: int| 0 <= k < a0.len() ==> #[trigger] self.asteroids@[k] == if k < j && t@.contains(Some(k as usize)) {
                    None
                } else {
                    a0[k]
                },
                fresh@ == debris(a0, t@, hs@, j as int),
                forall|k: int| 0 <= k < fresh@.len() ==> asteroid_wf(#[trigger] fresh@[k]),
                count == shot_count(t@, j as int),
                count <= j,
            decreases a0.len() - j,
        {
            if taken[j] {
                assert(t@.contains(Some(j)));
                proof {
                    let w = choose|w: int| 0 <= w < t@.len() && t@[w] == Some(j);
                    assert(t@[w] is Some);
                }
                assert(a0[j as int] is Some);
                assert(self.asteroids@[j as int] == a0[j as int]);
                if let Some(a) = self.asteroids[j] {
                    let (h1, h2) = hs[j];
                    assert(h1 < HEADINGS && h2 < HEADINGS) by {
                        assert(hs@[j as int].0 < HEADINGS && hs@[j as int].1 < HEADINGS);
                    }
                    let pieces = fragments_of(&a, h1, h2);
                    proof {
                        lemma_velocity_at_bounded(h1 as int, ASTEROID_SPEED as int);
                        lemma_velocity_at_bounded(h2 as int, ASTEROID_SPEED as int);
                    }
                    let ghost before = fresh@;
                    let mut k: usize = 0;
                    while k < pieces.len()
                        invariant
                            k <= pieces@.len(),
                            fresh@ == before + pieces@.subrange(0, k as int),
                            forall|m: int| 0 <= m < before.len() ==> asteroid_wf(#[trigger] before[m]),
                            forall|m: int| 0 <= m < pieces@.len() ==> asteroid_wf(#[trigger] pieces@[m]),
                            forall|m: int| 0 <= m < fresh@.len() ==> asteroid_wf(#[trigger] fresh@[m]),
                        decreases pieces@.len() - k,
                    {
                        fresh.push(pieces[k]);
                        assert(fresh@ =~= before + pieces@.subrange(0, k + 1));
                        k += 1;
                    }
                    assert(pieces@.subrange(0, pieces@.len() as int) =~= pieces@);
                }
                self.asteroids.set(j, None);
                count += 1;
            } else {
                assert(fresh@ =~= debris(a0, t@, hs@, j + 1));
            }
            j += 1;
        }
        assert(self.asteroids@ =~= surviving(a0, t@));
        proof {
            lemma_placed_all_asteroids(self.asteroids@, fresh@);
        }
        place_all(&mut self.asteroids, &fresh);
        TickReport { starship_destroyed: struck, asteroids_hit: count }
    }

    /// Draws a pair of fragment headings for every asteroid slot.
    fn draw_headings(&mut self) -> (hs: Vec<(u32, u32)>)
        ensures
            headings_for(hs@, old(self).asteroids@.len() as int),
            final(self).scene() == old(self).scene(),
    {
        let mut hs: Vec<(u32, u32)> = Vec::new();
        let mut i: usize = 0;
        while i < self.asteroids.len()
            invariant
                i <= self.asteroids@.len(),
                self.scene() == old(self).scene(),
                headings_for(hs@, i as int),
            decreases self.asteroids@.len() - i,
        {
            let h1 = draw_below(&mut self.rng, HEADINGS);
            let h2 = draw_below(&mut self.rng, HEADINGS);
            hs.push((h1, h2));
            assert(hs@[i as int].0 < HEADINGS && hs@[i as int].1 < HEADINGS);
            i += 1;
        }
        hs
    }

    /// One tick: input, motion, range pruning, then collisions, in that order.
    pub fn tick(&mut self, input: &Input) -> (report: TickReport)
        requires
            old(self).wf(),
        ensures
            final(self).wf(),
            exists|hs: Seq<(u32, u32)>|
                headings_for(hs, staged(old(self).scene(), *input).2.len() as int)
                && final(self).scene() == #[trigger] ticked(old(self).scene(), *input, hs),
            report.starship_destroyed == (staged(old(self).scene(), *input).0 is Some
                && final(self).starship is None),
            report.asteroids_hit == shot_count(
                targets(
                    staged(old(self).scene(), *input).1,
                    staged(old(self).scene(), *input).2,
                    staged(old(self).scene(), *input).1.len() as int,
                ),
                staged(old(self).scene(), *input).2.len() as int,
            ),
    {
        self.apply_input(input);
        self.integrate();
        self.prune_bullets();
        let hs = self.draw_headings();
        let report = self.resolve(&hs);
        assert(final(self).scene() == ticked(old(self).scene(), *input, hs@));
        report
    }

    /// A world with no entities, drawing its randomness from `seed`.
    pub fn empty(seed: u64) -> (w: World)
        ensures
            w.wf(),
            w.starship is None,
            w.bullets@.len() == 0,
            w.asteroids@.len() == 0,
    {
        World { starship: None, bullets: Vec::new(), asteroids: Vec::new(), rng: seeded_rng(seed) }
    }

    /// A new game: the starship at rest at the centre, heading 0, and
    /// `INITIAL_ASTEROIDS` Big asteroids, each placed and aimed by three
    /// random draws (see `asteroid_from_draws`).
    pub fn new(seed: u64) -> (w: World)
        ensures
            w.wf(),
            w.starship == Some(Starship { position: Vec2 { x: 0, y: 0 }, velocity: Vec2 { x: 0, y: 0 }, heading: 0 }),
            w.bullets@.len() == 0,
            w.asteroids@.len() == INITIAL_ASTEROIDS,
            forall|j: int| 0 <= j < INITIAL_ASTEROIDS ==> from_some_draws(#[trigger] w.asteroids@[j]),
    {
        let mut w = World::empty(seed);
        w.starship = Some(Starship { position: Vec2 { x: 0, y: 0 }, velocity: Vec2 { x: 0, y: 0 }, heading: 0 });
        let mut j: usize = 0;
        while j < INITIAL_ASTEROIDS
            invariant
                j <= INITIAL_ASTEROIDS,
                w.wf(),
                w.starship == Some(Starship { position: Vec2 { x: 0, y: 0 }, velocity: Vec2 { x: 0, y: 0 }, heading: 0 }),
                w.bullets@.len() == 0,
                w.asteroids@.len() == j,
                forall|k: int| 0 <= k < j ==> from_some_draws(#[trigger] w.asteroids@[k]),
            decreases INITIAL_ASTEROIDS - j,
        {
            let rx = draw_below(&mut w.rng, VIEWPORT_WIDTH);
            let ry = draw_below(&mut w.rng, VIEWPORT_HEIGHT);
            let h = draw_below(&mut w.rng, HEADINGS);
            let a = asteroid_from_draws(rx, ry, h);
            proof {
                lemma_velocity_at_bounded(h as int, ASTEROID_SPEED as int);
            }
            let ghost before = w.asteroids@;
            w.asteroids.push(Some(a));
            assert(w.asteroids@[j as int] == Some(drawn_asteroid(rx, ry, h)));
            assert(draws_ok(rx, ry, h));
            assert(from_some_draws(w.asteroids@[j as int])) by {
                assert(draws_ok(rx, ry, h) && w.asteroids@[j as int] == Some(drawn_asteroid(rx, ry, h)));
            }
            assert forall|k: int| 0 <= k < j implies from_some_draws(#[trigger] w.asteroids@[k]) by {
                assert(w.asteroids@[k] == before[k]);
            }
            j += 1;
        }
        w
    }

    /// `h` names a live entity.
    pub open spec fn live(&self, h: Handle) -> bool {
        match h {
            Handle::Starship => self.starship is Some,
            Handle::Bullet(i) => i < self.bullets@.len() && self.bullets@[i as int] is Some,
            Handle::Asteroid(j) => j < self.asteroids@.len() && self.asteroids@[j as int] is Some,
        }
    }

    /// What a renderer reads of the live entity `h`.
    pub open spec fn spatial_of(&self, h: Handle) -> Spatial {
        match h {
            Handle::Starship => {
                let s = self.starship->0;
                Spatial { position: s.position, velocity: s.velocity, heading: s.heading, scale: STARSHIP_SCALE }
            },
            Handle::Bullet(i) => {
                let b = self.bullets@[i as int]->0;
                Spatial { position: b.position, velocity: b.velocity, heading: 0, scale: BULLET_SCALE }
            },
            Handle::Asteroid(j) => {
                let a = self.asteroids@[j as int]->0;
                Spatial { position: a.position, velocity: a.velocity, heading: 0, scale: size_scale(a.size) as i64 }
            },
        }
    }

    /// Whether `h` names a live entity.
    pub fn contains(&self, h: Handle) -> (r: bool)
        ensures
            r == self.live(h),
    {
        match h {
            Handle::Starship => self.starship.is_some(),
            Handle::Bullet(i) => i < self.bullets.len() && self.bullets[i].is_some(),
            Handle::Asteroid(j) => j < self.asteroids.len() && self.asteroids[j].is_some(),
        }
    }

    /// Position, velocity, heading and scale of the live entity `h`.
    pub fn get(&self, h: Handle) -> (r: Spatial)
        requires
            self.live(h),
        ensures
            r == self.spatial_of(h),
    {
        match h {
            Handle::Starship => {
                let s = self.starship.unwrap();
                Spatial { position: s.position, velocity: s.velocity, heading: s.heading, scale: STARSHIP_SCALE }
            },
            Handle::Bullet(i) => {
                let b = self.bullets[i].unwrap();
                Spatial { position: b.position, velocity: b.velocity, heading: 0, scale: BULLET_SCALE }
            },
            Handle::Asteroid(j) => {
                let a = self.asteroids[j].unwrap();
                Spatial { position: a.position, velocity: a.velocity, heading: 0, scale: a.size.scale() }
            },
        }
    }

    /// The handles of all live entities.
    pub fn handles(&self) -> (r: Vec<Handle>)
        ensures
            forall|k: int| 0 <= k < r@.len() ==> self.live(#[trigger] r@[k]),
            forall|h: Handle| self.live(h) ==> r@.contains(h),
    {
        let mut r: Vec<Handle> = Vec::new();
        if self.starship.is_some() {
            r.push(Handle::Starship);
            assert(r@[0] == Handle::Starship);
        }
        let mut i: usize = 0;
        while i < self.bullets.len()
            invariant
                i <= self.bullets@.len(),
                forall|k: int| 0 <= k < r@.len() ==> self.live(#[trigger] r@[k]),
                self.starship is Some ==> r@.contains(Handle::Starship),
                forall|m: usize| m < i && self.bullets@[m as int] is Some ==> #[trigger] r@.contains(Handle::Bullet(m)),
            decreases self.bullets@.len() - i,
        {
            let ghost before = r@;
            if self.bullets[i].is_some() {
                r.push(Handle::Bullet(i));
                assert(r@[before.len() as int] == Handle::Bullet(i));
                assert forall|h: Handle| before.contains(h) implies r@.contains(h) by {
                    let w = choose|w: int| 0 <= w < before.len() && before[w] == h;
                    assert(r@[w] == h);
                }
            }
            assert forall|m: usize| m < i + 1 && self.bullets@[m as int] is Some implies #[trigger] r@.contains(Handle::Bullet(m)) by {
                if m < i {
                    assert(before.contains(Handle::Bullet(m)));
                }
            }
            i += 1;
        }
        let mut j: usize = 0;
        while j < self.asteroids.len()
            invariant
                j <= self.asteroids@.len(),
                forall|k: int| 0 <= k < r@.len() ==> self.live(#[trigger] r@[k]),
                self.starship is Some ==> r@.contains(Handle::Starship),
                forall|m: usize| m < self.bullets@.len() && self.bullets@[m as int] is Some ==> #[trigger] r@.contains(Handle::Bullet(m)),
                forall|m: usize| m < j && self.asteroids@[m as int] is Some ==> #[trigger] r@.contains(Handle::Asteroid(m)),
            decreases self.asteroids@.len() - j,
        {
            let ghost before = r@;
            if self.asteroids[j].is_some() {
                r.push(Handle::Asteroid(j));
                assert forall|m: usize| m < self.bullets@.len() && self.bullets@[m as int] is Some implies #[trigger] r@.contains(Handle::Bullet(m)) by {
                    assert(before.contains(Handle::Bullet(m)));
                    let w = choose|w: int| 0 <= w < before.len() && before[w] == Handle::Bullet(m);
                    assert(r@[w] == Handle::Bullet(m));
                }
                assert(r@[before.len() as int] == Handle::Asteroid(j));
                assert forall|h: Handle| before.contains(h) implies r@.contains(h) by {
                    let w = choose|w: int| 0 <= w < before.len() && before[w] == h;
                    assert(r@[w] == h);
                }
            }
            assert forall|m: usize| m < j + 1 && self.asteroids@[m as int] is Some implies #[trigger] r@.contains(Handle::Asteroid(m)) by {
                if m < j {
                    assert(before.contains(Handle::Asteroid(m)));
                }
            }
            j += 1;
        }
        assert forall|h: Handle| self.live(h) implies r@.contains(h) by {
            match h {
                Handle::Starship => {},
                Handle::Bullet(m) => {
                    assert(r@.contains(Handle::Bullet(m)));
                },
                Handle::Asteroid(m) => {
                    assert(r@.contains(Handle::Asteroid(m)));
                },
            }
        }
        r
    }

    /// Puts the starship at rest at `position` with heading `heading`, replacing any other.
    pub fn spawn_starship(&mut self, position: Vec2, heading: u32)
        requires
            old(self).wf(),
            bounded(position, COORD_BOUND as int),
            heading < HEADINGS,
        ensures
            final(self).wf(),
            final(self).starship == Some(Starship { position, velocity: Vec2 { x: 0, y: 0 }, heading }),
            final(self).bullets@ == old(self).bullets@,
            final(self).asteroids@ == old(self).asteroids@,
    {
        self.starship = Some(Starship { position, velocity: Vec2 { x: 0, y: 0 }, heading });
    }

    /// Adds an asteroid in the first free asteroid slot and returns its handle.
    pub fn spawn_asteroid(&mut self, position: Vec2, velocity: Vec2, size: AsteroidSize) -> (h: Handle)
        requires
            old(self).wf(),
            bounded(position, COORD_BOUND as int),
            bounded(velocity, SPEED_BOUND as int),
        ensures
            final(self).wf(),
            final(self).asteroids@ == placed(old(self).asteroids@, Asteroid { position, velocity, size }),
            h == Handle::Asteroid(first_free(old(self).asteroids@, 0) as usize),
            final(self).live(h),
            final(self).starship == old(self).starship,
            final(self).bullets@ == old(self).bullets@,
    {
        let a = Asteroid { position, velocity, size };
        proof {
            lemma_placed_entries(self.asteroids@, a);
        }
        let k = place(&mut self.asteroids, a);
        proof {
            crate::slots::lemma_first_free_range(old(self).asteroids@, 0);
        }
        Handle::Asteroid(k)
    }

    /// Adds a bullet fired from `origin` in the first free bullet slot and returns its handle.
    pub fn spawn_bullet(&mut self, origin: Vec2, velocity: Vec2) -> (h: Handle)
        requires
            old(self).wf(),
            bounded(origin, COORD_BOUND as int),
            bounded(velocity, SPEED_BOUND as int),
        ensures
            final(self).wf(),
            final(self).bullets@ == placed(old(self).bullets@, Bullet { position: origin, velocity, origin }),
            h == Handle::Bullet(first_free(old(self).bullets@, 0) as usize),
            final(self).live(h),
            final(self).starship == old(self).starship,
            final(self).asteroids@ == old(self).asteroids@,
    {
        let b = Bullet { position: origin, velocity, origin };
        proof {
            lemma_placed_entries(self.bullets@, b);
        }
        let k = place(&mut self.bullets, b);
        proof {
            crate::slots::lemma_first_free_range(old(self).bullets@, 0);
        }
        Handle::Bullet(k)
    }

    /// Removes the live entity `h`; its slot may be reused by a later spawn.
    pub fn despawn(&mut self, h: Handle)
        requires
            old(self).wf(),
            old(self).live(h),
        ensures
            final(self).wf(),
            !final(self).live(h),
            final(self).starship == (if h is Starship { None } else { old(self).starship }),
            final(self).bullets@ == (match h {
                Handle::Bullet(i) => old(self).bullets@.update(i as int, None),
                _ => old(self).bullets@,
            }),
            final(self).asteroids@ == (match h {
                Handle::Asteroid(j) => old(self).asteroids@.update(j as int, None),
                _ => old(self).asteroids@,
            }),
    {
        match h {
            Handle::Starship => {
                self.starship = None;
            },
            Handle::Bullet(i) => {
                self.bullets.set(i, None);
            },
            Handle::Asteroid(j) => {
                self.asteroids.set(j, None);
            },
        }
    }

    /// Moves the live entity `h` to `position`.
    pub fn set_position(&mut self, h: Handle, position: Vec2)
        requires
            old(self).wf(),
            old(self).live(h),
            bounded(position, COORD_BOUND as int),
        ensures
            final(self).wf(),
            final(self).live(h),
            final(self).starship == (match h {
                Handle::Starship => Some(Starship { position, ..old(self).starship->0 }),
                _ => old(self).starship,
            }),
            final(self).bullets@ == (match h {
                Handle::Bullet(i) => old(self).bullets@.update(
                    i as int,
                    Some(Bullet { position, ..old(self).bullets@[i as int]->0 }),
                ),
                _ => old(self).bullets@,
            }),
            final(self).asteroids@ == (match h {
                Handle::Asteroid(j) => old(self).asteroids@.update(
                    j as int,
                    Some(Asteroid { position, ..old(self).asteroids@[j as int]->0 }),
                ),
                _ => old(self).asteroids@,
            }),
    {
        match h {
            Handle::Starship => {
                let s = self.starship.unwrap();
                self.starship = Some(Starship { position, ..s });
            },
            Handle::Bullet(i) => {
                let b = self.bullets[i].unwrap();
                self.bullets.set(i, Some(Bullet { position, ..b }));
            },
            Handle::Asteroid(j) => {
                let a = self.asteroids[j].unwrap();
                self.asteroids.set(j, Some(Asteroid { position, ..a }));
            },
        }
    }

    /// Gives the live entity `h` the velocity `velocity`.
    pub fn set_velocity(&mut self, h: Handle, velocity: Vec2)
        requires
            old(self).wf(),
            old(self).live(h),
            bounded(velocity, SPEED_BOUND as int),
            h is Starship ==> bounded(velocity, SPEED_BOUND - STARSHIP_ACCELERATION),
        ensures
            final(self).wf(),
            final(self).live(h),
            final(self).starship == (match h {
                Handle::Starship => Some(Starship { velocity, ..old(self).starship->0 }),
                _ => old(self).starship,
            }),
            final(self).bullets@ == (match h {
                Handle::Bullet(i) => old(self).bullets@.update(
                    i as int,
                    Some(Bullet { velocity, ..old(self).bullets@[i as int]->0 }),
                ),
                _ => old(self).bullets@,
            }),
            final(self).asteroids@ == (match h {
                Handle::Asteroid(j) => old(self).asteroids@.update(
                    j as int,
                    Some(Asteroid { velocity, ..old(self).asteroids@[j as int]->0 }),
                ),
                _ => old(self).asteroids@,
            }),
    {
        match h {
            Handle::Starship => {
                let s = self.starship.unwrap();
                self.starship = Some(Starship { velocity, ..s });
            },
            Handle::Bullet(i) => {
                let b = self.bullets[i].unwrap();
                self.bullets.set(i, Some(Bullet { velocity, ..b }));
            },
            Handle::Asteroid(j) => {
                let a = self.asteroids[j].unwrap();
                self.asteroids.set(j, Some(Asteroid { velocity, ..a }));
            },
        }
    }
}

} // verus!
