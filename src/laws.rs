//! Properties of the simulation that hold for every input.
use vstd::prelude::*;
use crate::geometry::{Vec2, len_sq, mul_div, bounded, COORD_BOUND, SPEED_BOUND};
use crate::heading::{velocity_at, sine, cosine, quarter_sine, HEADINGS, UNIT};
use crate::kinematics::{
    advanced, decayed, thrusted, ceil_root, abs, lemma_ceil_root_exists,
    lemma_capped_length, lemma_component_of_short, lemma_accel_bounded, lemma_decay_component,
    lemma_square_monotone, MIN_X, MAX_X, MIN_Y, MAX_Y, HALF_BOUND, STARSHIP_ACCELERATION,
    STARSHIP_MAX_SPEED,
};
use crate::entity::{Asteroid, AsteroidSize, fragments, ASTEROID_SPEED};
use crate::entity::{starship_wf, bullets_wf, asteroids_wf, size_scale};
use crate::world::{
    Scene, after_pruning, after_motion, after_collisions, debris, surviving, out_of_range,
    STARSHIP_HALF, BULLET_HALF,
};
use crate::collision::{targets, lemma_targets_live};
use crate::slots::{placed_all, live_count, lemma_live_count_update, lemma_live_count_placed_all};

verus! {

/// Wraparound: after one tick of motion, a coordinate that went past an edge
/// by more than the entity's bounding radius `half` is exactly `half` past the
/// opposite edge; any other coordinate is position plus velocity. Either way
/// the entity ends within `half` of the viewport.
pub proof fn lemma_wraparound(p: Vec2, v: Vec2, half: int)
    requires
        bounded(p, COORD_BOUND as int),
        bounded(v, SPEED_BOUND as int),
        0 <= half <= HALF_BOUND,
    ensures
        p.x + v.x > MAX_X + half ==> advanced(p, v, half).x == MIN_X - half,
        p.x + v.x < MIN_X - half ==> advanced(p, v, half).x == MAX_X + half,
        p.y + v.y > MAX_Y + half ==> advanced(p, v, half).y == MIN_Y - half,
        p.y + v.y < MIN_Y - half ==> advanced(p, v, half).y == MAX_Y + half,
        MIN_X - half <= p.x + v.x <= MAX_X + half ==> advanced(p, v, half).x == p.x + v.x,
        MIN_Y - half <= p.y + v.y <= MAX_Y + half ==> advanced(p, v, half).y == p.y + v.y,
        MIN_X - half <= advanced(p, v, half).x <= MAX_X + half,
        MIN_Y - half <= advanced(p, v, half).y <= MAX_Y + half,
{
}

/// The viewport widened by `half` on every side.
pub open spec fn near_viewport(p: Vec2, half: int) -> bool {
    MIN_X - half <= p.x <= MAX_X + half && MIN_Y - half <= p.y <= MAX_Y + half
}

/// After the motion phase every entity lies within its bounding radius of the viewport.
pub proof fn lemma_motion_keeps_entities_near_viewport(sc: Scene)
    requires
        sc.0 matches Some(s) ==> starship_wf(s),
        bullets_wf(sc.1),
        asteroids_wf(sc.2),
    ensures
        after_motion(sc).0 matches Some(s) ==> near_viewport(s.position, STARSHIP_HALF as int),
        forall|i: int| 0 <= i < sc.1.len() && #[trigger] after_motion(sc).1[i] is Some
            ==> near_viewport(after_motion(sc).1[i]->0.position, BULLET_HALF as int),
        forall|j: int| 0 <= j < sc.2.len() && #[trigger] after_motion(sc).2[j] is Some
            ==> near_viewport(after_motion(sc).2[j]->0.position, size_scale((sc.2[j]->0).size) / 2),
{
    if let Some(s) = sc.0 {
        lemma_wraparound(s.position, s.velocity, STARSHIP_HALF as int);
    }
    assert forall|i: int| 0 <= i < sc.1.len() && #[trigger] after_motion(sc).1[i] is Some
        implies near_viewport(after_motion(sc).1[i]->0.position, BULLET_HALF as int) by {
        let b = sc.1[i]->0;
        lemma_wraparound(b.position, b.velocity, BULLET_HALF as int);
    }
    assert forall|j: int| 0 <= j < sc.2.len() && #[trigger] after_motion(sc).2[j] is Some
        implies near_viewport(after_motion(sc).2[j]->0.position, size_scale((sc.2[j]->0).size) / 2) by {
        let a = sc.2[j]->0;
        lemma_wraparound(a.position, a.velocity, size_scale(a.size) / 2);
    }
}

/// Speed cap: one tick of thrust, from any velocity, leaves the starship no
/// faster than `STARSHIP_MAX_SPEED`.
pub proof fn lemma_speed_cap(v: Vec2, h: int)
    requires
        bounded(v, SPEED_BOUND - STARSHIP_ACCELERATION),
        0 <= h < HEADINGS,
    ensures
        len_sq(thrusted(v, h)) <= STARSHIP_MAX_SPEED * STARSHIP_MAX_SPEED,
        bounded(thrusted(v, h), STARSHIP_MAX_SPEED as int),
{
    let f = (h + 18) % 72;
    lemma_accel_bounded(f);
    let a = velocity_at(f, STARSHIP_ACCELERATION as int);
    let w = Vec2 { x: (v.x + a.x) as i64, y: (v.y + a.y) as i64 };
    let m = STARSHIP_MAX_SPEED as int;
    assert(0 <= w.x * w.x && 0 <= w.y * w.y) by (nonlinear_arith);
    if len_sq(w) > m * m {
        let n = len_sq(w);
        lemma_ceil_root_exists(n);
        let r = ceil_root(n);
        assert(r > 0) by (nonlinear_arith)
            requires
                r >= 0,
                r * r >= n,
                n > 0,
        ;
        lemma_capped_length(w.x as int, w.y as int, m, r);
        lemma_component_of_short(mul_div(w.x as int, m, r), mul_div(w.y as int, m, r), m);
    } else {
        lemma_component_of_short(w.x as int, w.y as int, m);
    }
}

/// `v` after one tick of thrust at each heading of `hs` in turn.
pub open spec fn thrust_all(v: Vec2, hs: Seq<int>) -> Vec2
    decreases hs.len(),
{
    if hs.len() == 0 {
        v
    } else {
        thrusted(thrust_all(v, hs.drop_last()), hs.last())
    }
}

/// Speed cap, sustained: after any positive number of ticks of thrust, at any
/// headings, the starship is no faster than `STARSHIP_MAX_SPEED`.
pub proof fn lemma_speed_cap_sustained(v: Vec2, hs: Seq<int>)
    requires
        bounded(v, SPEED_BOUND - STARSHIP_ACCELERATION),
        forall|i: int| 0 <= i < hs.len() ==> 0 <= #[trigger] hs[i] < HEADINGS,
    ensures
        bounded(thrust_all(v, hs), SPEED_BOUND - STARSHIP_ACCELERATION),
        hs.len() > 0 ==> len_sq(thrust_all(v, hs)) <= STARSHIP_MAX_SPEED * STARSHIP_MAX_SPEED,
    decreases hs.len(),
{
    if hs.len() > 0 {
        lemma_speed_cap_sustained(v, hs.drop_last());
        assert(0 <= hs[hs.len() - 1] < HEADINGS);
        lemma_speed_cap(thrust_all(v, hs.drop_last()), hs.last());
    }
}

proof fn lemma_square_strict(a: int, b: int)
    requires
        0 <= a < b,
    ensures
        a * a < b * b,
{
    assert(a * a < b * b) by (nonlinear_arith)
        requires
            0 <= a < b,
    ;
}

proof fn lemma_abs_square(x: int)
    ensures
        abs(x) * abs(x) == x * x,
{
    assert(abs(x) * abs(x) == x * x) by (nonlinear_arith)
        requires
            abs(x) == x || abs(x) == -x,
    ;
}

/// Deceleration: without thrust each velocity component keeps its sign and
/// shrinks to within one sub-unit below 99/100 of its magnitude, so a moving
/// starship gets strictly slower every tick; it comes to rest only from a
/// velocity whose components are at most one sub-unit.
pub proof fn lemma_deceleration(v: Vec2)
    requires
        bounded(v, SPEED_BOUND as int),
    ensures
        100 * abs(decayed(v).x as int) <= 99 * abs(v.x as int),
        100 * abs(decayed(v).x as int) > 99 * abs(v.x as int) - 100,
        100 * abs(decayed(v).y as int) <= 99 * abs(v.y as int),
        100 * abs(decayed(v).y as int) > 99 * abs(v.y as int) - 100,
        bounded(decayed(v), SPEED_BOUND as int),
        len_sq(decayed(v)) <= len_sq(v),
        len_sq(v) > 0 ==> len_sq(decayed(v)) < len_sq(v),
        (decayed(v) == Vec2 { x: 0, y: 0 }) <==> (abs(v.x as int) <= 1 && abs(v.y as int) <= 1),
{
    lemma_decay_component(v.x as int);
    lemma_decay_component(v.y as int);
    let d = decayed(v);
    lemma_abs_square(v.x as int);
    lemma_abs_square(v.y as int);
    lemma_abs_square(d.x as int);
    lemma_abs_square(d.y as int);
    if v.x != 0 {
        lemma_square_strict(abs(d.x as int), abs(v.x as int));
    } else {
        assert(d.x == 0);
    }
    if v.y != 0 {
        lemma_square_strict(abs(d.y as int), abs(v.y as int));
    } else {
        assert(d.y == 0);
    }
    assert(len_sq(v) > 0 ==> v.x != 0 || v.y != 0);
}

/// `v` after `n` ticks without thrust.
pub open spec fn decayed_n(v: Vec2, n: nat) -> Vec2
    decreases n,
{
    if n == 0 {
        v
    } else {
        decayed(decayed_n(v, (n - 1) as nat))
    }
}

/// Deceleration, over time: tick after tick without thrust the starship's
/// speed never grows, and drops strictly on every tick on which it is moving.
pub proof fn lemma_deceleration_converges(v: Vec2, n: nat)
    requires
        bounded(v, SPEED_BOUND as int),
    ensures
        bounded(decayed_n(v, n), SPEED_BOUND as int),
        len_sq(decayed_n(v, n + 1)) <= len_sq(decayed_n(v, n)),
        len_sq(decayed_n(v, n)) > 0 ==> len_sq(decayed_n(v, n + 1)) < len_sq(decayed_n(v, n)),
        len_sq(decayed_n(v, n)) <= len_sq(v),
    decreases n,
{
    if n > 0 {
        lemma_deceleration_converges(v, (n - 1) as nat);
    }
    lemma_deceleration(decayed_n(v, n));
}

/// Components of table velocities at asteroid speed, by quarter-turn remainder.
proof fn lemma_quarter_speed(r: int)
    requires
        0 <= r <= 18,
    ensures
        ({
            let a = mul_div(quarter_sine(r), ASTEROID_SPEED as int, UNIT as int);
            let b = mul_div(quarter_sine(18 - r), ASTEROID_SPEED as int, UNIT as int);
            (ASTEROID_SPEED - 1) * (ASTEROID_SPEED - 1) <= a * a + b * b <= ASTEROID_SPEED * ASTEROID_SPEED
        }),
{
    if r == 0 {
        assert(quarter_sine(0) == 0 && quarter_sine(18) == 10000);
        assert(mul_div(0, 2000, 10000) == 0 && mul_div(10000, 2000, 10000) == 2000);
    } else if r == 1 {
        assert(quarter_sine(1) == 872 && quarter_sine(17) == 9962);
        assert(mul_div(872, 2000, 10000) == 174 && mul_div(9962, 2000, 10000) == 1992);
    } else if r == 2 {
        assert(quarter_sine(2) == 1736 && quarter_sine(16) == 9848);
        assert(mul_div(1736, 2000, 10000) == 347 && mul_div(9848, 2000, 10000) == 1969);
    } else if r == 3 {
        assert(quarter_sine(3) == 2588 && quarter_sine(15) == 9659);
        assert(mul_div(2588, 2000, 10000) == 517 && mul_div(9659, 2000, 10000) == 1931);
    } else if r == 4 {
        assert(quarter_sine(4) == 3420 && quarter_sine(14) == 9397);
        assert(mul_div(3420, 2000, 10000) == 684 && mul_div(9397, 2000, 10000) == 1879);
    } else if r == 5 {
        assert(quarter_sine(5) == 4226 && quarter_sine(13) == 9063);
        assert(mul_div(4226, 2000, 10000) == 845 && mul_div(9063, 2000, 10000) == 1812);
    } else if r == 6 {
        assert(quarter_sine(6) == 5000 && quarter_sine(12) == 8660);
        assert(mul_div(5000, 2000, 10000) == 1000 && mul_div(8660, 2000, 10000) == 1732);
    } else if r == 7 {
        assert(quarter_sine(7) == 5736 && quarter_sine(11) == 8192);
        assert(mul_div(5736, 2000, 10000) == 1147 && mul_div(8192, 2000, 10000) == 1638);
    } else if r == 8 {
        assert(quarter_sine(8) == 6428 && quarter_sine(10) == 7660);
        assert(mul_div(6428, 2000, 10000) == 1285 && mul_div(7660, 2000, 10000) == 1532);
    } else if r == 9 {
        assert(quarter_sine(9) == 7071);
        assert(mul_div(7071, 2000, 10000) == 1414);
    } else if r == 10 {
        assert(quarter_sine(10) == 7660 && quarter_sine(8) == 6428);
        assert(mul_div(7660, 2000, 10000) == 1532 && mul_div(6428, 2000, 10000) == 1285);
    } else if r == 11 {
        assert(quarter_sine(11) == 8192 && quarter_sine(7) == 5736);
        assert(mul_div(8192, 2000, 10000) == 1638 && mul_div(5736, 2000, 10000) == 1147);
    } else if r == 12 {
        assert(quarter_sine(12) == 8660 && quarter_sine(6) == 5000);
        assert(mul_div(8660, 2000, 10000) == 1732 && mul_div(5000, 2000, 10000) == 1000);
    } else if r == 13 {
        assert(quarter_sine(13) == 9063 && quarter_sine(5) == 4226);
        assert(mul_div(9063, 2000, 10000) == 1812 && mul_div(4226, 2000, 10000) == 845);
    } else if r == 14 {
        assert(quarter_sine(14) == 9397 && quarter_sine(4) == 3420);
        assert(mul_div(9397, 2000, 10000) == 1879 && mul_div(3420, 2000, 10000) == 684);
    } else if r == 15 {
        assert(quarter_sine(15) == 9659 && quarter_sine(3) == 2588);
        assert(mul_div(9659, 2000, 10000) == 1931 && mul_div(2588, 2000, 10000) == 517);
    } else if r == 16 {
        assert(quarter_sine(16) == 9848 && quarter_sine(2) == 1736);
        assert(mul_div(9848, 2000, 10000) == 1969 && mul_div(1736, 2000, 10000) == 347);
    } else if r == 17 {
        assert(quarter_sine(17) == 9962 && quarter_sine(1) == 872);
        assert(mul_div(9962, 2000, 10000) == 1992 && mul_div(872, 2000, 10000) == 174);
    } else if r == 18 {
        assert(quarter_sine(18) == 10000 && quarter_sine(0) == 0);
        assert(mul_div(10000, 2000, 10000) == 2000 && mul_div(0, 2000, 10000) == 0);
    }
}

proof fn lemma_mul_div_neg(c: int, num: int, den: int)
    ensures
        mul_div(-c, num, den) * mul_div(-c, num, den) == mul_div(c, num, den) * mul_div(c, num, den),
{
    if c != 0 {
        assert(mul_div(-c, num, den) == -mul_div(c, num, den));
    }
    assert((-mul_div(c, num, den)) * (-mul_div(c, num, den)) == mul_div(c, num, den) * mul_div(c, num, den)) by (nonlinear_arith);
}

/// Every table heading gives asteroids a speed within one sub-unit of `ASTEROID_SPEED`.
pub proof fn lemma_asteroid_speed(h: int)
    requires
        0 <= h < HEADINGS,
    ensures
        (ASTEROID_SPEED - 1) * (ASTEROID_SPEED - 1) <= len_sq(velocity_at(h, ASTEROID_SPEED as int))
            <= ASTEROID_SPEED * ASTEROID_SPEED,
{
    let r = h % 18;
    let g = (h + 18) % 72;
    assert(g % 18 == r);
    lemma_quarter_speed(r);
    crate::heading::lemma_sine_range(h);
    let sp = ASTEROID_SPEED as int;
    let u = UNIT as int;
    let a = quarter_sine(r);
    let b = quarter_sine(18 - r);
    lemma_mul_div_neg(a, sp, u);
    lemma_mul_div_neg(b, sp, u);
    assert(sine(h) == a || sine(h) == -a || sine(h) == b || sine(h) == -b);
    assert((sine(h) == a || sine(h) == -a) <==> (cosine(h) == b || cosine(h) == -b));
    let v = velocity_at(h, sp);
    assert(len_sq(v) == mul_div(cosine(h), sp, u) * mul_div(cosine(h), sp, u) + mul_div(sine(h), sp, u) * mul_div(sine(h), sp, u));
}

/// Split conservation: shooting a Big asteroid yields exactly two Medium
/// ones, a Medium one two Small ones, a Small one none; each fragment starts
/// at the destroyed asteroid's position, moving within one sub-unit of asteroid speed.
pub proof fn lemma_split_conservation(a: Asteroid, h1: int, h2: int)
    requires
        0 <= h1 < HEADINGS,
        0 <= h2 < HEADINGS,
    ensures
        a.size == AsteroidSize::Small <==> fragments(a, h1, h2).len() == 0,
        a.size != AsteroidSize::Small ==> fragments(a, h1, h2).len() == 2,
        forall|k: int| 0 <= k < fragments(a, h1, h2).len() ==> {
            let f = #[trigger] fragments(a, h1, h2)[k];
            &&& f.position == a.position
            &&& (a.size == AsteroidSize::Big ==> f.size == AsteroidSize::Medium)
            &&& (a.size == AsteroidSize::Medium ==> f.size == AsteroidSize::Small)
            &&& (ASTEROID_SPEED - 1) * (ASTEROID_SPEED - 1) <= len_sq(f.velocity)
                <= ASTEROID_SPEED * ASTEROID_SPEED
        },
{
    lemma_asteroid_speed(h1);
    lemma_asteroid_speed(h2);
}

proof fn lemma_debris_single(asteroids: Seq<Option<Asteroid>>, t: Seq<Option<usize>>, hs: Seq<(u32, u32)>, j: int, n: int)
    requires
        asteroids.len() <= usize::MAX,
        0 <= j < asteroids.len(),
        0 <= n <= asteroids.len(),
        t.contains(Some(j as usize)),
        forall|k: int| 0 <= k < asteroids.len() && k != j ==> !t.contains(Some(#[trigger] (k as usize))),
    ensures
        debris(asteroids, t, hs, n) == if n > j {
            fragments(asteroids[j]->0, hs[j].0 as int, hs[j].1 as int)
        } else {
            Seq::<Asteroid>::empty()
        },
    decreases n,
{
    if n > 0 {
        lemma_debris_single(asteroids, t, hs, j, n - 1);
        if n - 1 == j {
            assert(Seq::<Asteroid>::empty() + fragments(asteroids[j]->0, hs[j].0 as int, hs[j].1 as int)
                =~= fragments(asteroids[j]->0, hs[j].0 as int, hs[j].1 as int));
        } else {
            assert(!t.contains(Some(((n - 1) as int) as usize)));
            assert(debris(asteroids, t, hs, n - 1) + Seq::<Asteroid>::empty() =~= debris(asteroids, t, hs, n - 1));
        }
    }
}

/// Split conservation within a whole collision phase: when the asteroid in
/// slot `j` is the only one hit, it is replaced by its fragments and every
/// other asteroid slot is kept. So a shot Big asteroid raises the number of
/// live asteroids by one (two Medium ones replace it, see
/// `lemma_split_conservation`), and a shot Small one lowers it by one.
pub proof fn lemma_split_in_collisions(sc: Scene, hs: Seq<(u32, u32)>, j: int)
    requires
        sc.2.len() <= usize::MAX,
        0 <= j < sc.2.len(),
        targets(sc.1, sc.2, sc.1.len() as int).contains(Some(j as usize)),
        forall|k: int| 0 <= k < sc.2.len() && k != j ==> !targets(sc.1, sc.2, sc.1.len() as int).contains(
            Some(#[trigger] (k as usize)),
        ),
    ensures
        sc.2[j] is Some,
        after_collisions(sc, hs).2 == placed_all(
            sc.2.update(j, None),
            fragments(sc.2[j]->0, hs[j].0 as int, hs[j].1 as int),
        ),
        live_count(after_collisions(sc, hs).2) + 1 == live_count(sc.2) + fragments(
            sc.2[j]->0,
            hs[j].0 as int,
            hs[j].1 as int,
        ).len(),
        (sc.2[j]->0).size == AsteroidSize::Big ==> live_count(after_collisions(sc, hs).2) == live_count(sc.2) + 1,
        (sc.2[j]->0).size == AsteroidSize::Small ==> live_count(after_collisions(sc, hs).2) + 1 == live_count(sc.2),
{
    let t = targets(sc.1, sc.2, sc.1.len() as int);
    lemma_targets_live(sc.1, sc.2, sc.1.len() as int);
    let w = choose|w: int| 0 <= w < t.len() && t[w] == Some(j as usize);
    assert(t[w] is Some);
    assert(sc.2[j] is Some);
    lemma_debris_single(sc.2, t, hs, j, sc.2.len() as int);
    assert(surviving(sc.2, t) =~= sc.2.update(j, None)) by {
        assert forall|k: int| 0 <= k < sc.2.len() implies #[trigger] surviving(sc.2, t)[k] == sc.2.update(j, None)[k] by {
            if k != j {
                assert(!t.contains(Some(k as usize)));
            }
        }
    }
    let f = fragments(sc.2[j]->0, hs[j].0 as int, hs[j].1 as int);
    lemma_live_count_update(sc.2, j, None);
    lemma_live_count_placed_all(sc.2.update(j, None), f);
}

/// Bullet range: the range phase removes exactly the bullets farther than
/// `BULLET_RANGE` from where they were fired and leaves every other slot as it was.
pub proof fn lemma_bullet_range(sc: Scene, i: int)
    requires
        0 <= i < sc.1.len(),
    ensures
        after_pruning(sc).1.len() == sc.1.len(),
        after_pruning(sc).1[i] is None <==> (sc.1[i] is None || out_of_range(sc.1[i]->0)),
        after_pruning(sc).1[i] is Some ==> after_pruning(sc).1[i] == sc.1[i],
{
}

/// On a straight flight the distance from the origin never shrinks: after
/// `n <= m` ticks at velocity `v` the bullet is no farther than after `m`.
/// So the tick a bullet is removed is the first on which it is out of range.
pub proof fn lemma_flight_distance_monotone(v: Vec2, n: int, m: int)
    requires
        0 <= n <= m,
    ensures
        (n * v.x) * (n * v.x) + (n * v.y) * (n * v.y) <= (m * v.x) * (m * v.x) + (m * v.y) * (m * v.y),
{
    assert((n * v.x) * (n * v.x) + (n * v.y) * (n * v.y) == (n * n) * len_sq(v)) by (nonlinear_arith);
    assert((m * v.x) * (m * v.x) + (m * v.y) * (m * v.y) == (m * m) * len_sq(v)) by (nonlinear_arith);
    lemma_square_monotone(n, m);
    assert(0 <= len_sq(v)) by (nonlinear_arith);
    assert((n * n) * len_sq(v) <= (m * m) * len_sq(v)) by (nonlinear_arith)
        requires
            n * n <= m * m,
            0 <= len_sq(v),
    ;
}

} // verus!
