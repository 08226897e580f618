use asteroids::collision::{bullet_touches, starship_touches};
use asteroids::entity::{Asteroid, AsteroidSize, Bullet, Starship, fragments_of};
use asteroids::geometry::{Vec2, ceil_sqrt, mul_div_toward_zero};
use asteroids::heading::{cosine_of, forward_of, sine_of, turn_left, turn_right, velocity_of};
use asteroids::kinematics::{advance, cap_speed, decay, thrust, MAX_X, MAX_Y, MIN_X, MIN_Y};
use asteroids::world::{
    asteroid_from_draws, point_from_draws, Handle, Input, Key, KeyEvent, KeyState, World, BULLET_RANGE,
};

fn idle() -> Input {
    Input { rotate_left: false, rotate_right: false, thrust: false, events: Vec::new() }
}

fn fire() -> Input {
    Input {
        rotate_left: false,
        rotate_right: false,
        thrust: false,
        events: vec![KeyEvent { key: Key::Fire, state: KeyState::Pressed }],
    }
}

fn speed_sq(v: Vec2) -> i64 {
    v.x * v.x + v.y * v.y
}

#[test]
fn wraps_past_right_edge_to_left() {
    let half = 50_000;
    let p = advance(Vec2::new(640_000, 0), Vec2::new(60_000, 0), half);
    assert_eq!(p, Vec2::new(MIN_X - half, 0));
}

#[test]
fn wraps_past_left_edge_to_right() {
    let half = 2_500;
    let p = advance(Vec2::new(-642_000, 10), Vec2::new(-1_000, 0), half);
    assert_eq!(p, Vec2::new(MAX_X + half, 10));
}

#[test]
fn wraps_vertically_both_ways() {
    let half = 25_000;
    assert_eq!(advance(Vec2::new(0, 385_000), Vec2::new(0, 1), half), Vec2::new(0, MIN_Y - half));
    assert_eq!(advance(Vec2::new(0, -385_000), Vec2::new(0, -1), half), Vec2::new(0, MAX_Y + half));
}

#[test]
fn no_wrap_exactly_at_margin() {
    let half = 50_000;
    let p = advance(Vec2::new(689_000, 0), Vec2::new(1_000, 0), half);
    assert_eq!(p, Vec2::new(690_000, 0));
}

#[test]
fn thrust_from_rest_pushes_along_nose() {
    assert_eq!(thrust(Vec2::zero(), 0), Vec2::new(0, 200));
    assert_eq!(thrust(Vec2::zero(), 18), Vec2::new(-200, 0));
}

#[test]
fn speed_never_exceeds_cap_under_thrust() {
    let mut v = Vec2::zero();
    let mut h: u32 = 0;
    for i in 0..500 {
        v = thrust(v, h);
        assert!(speed_sq(v) <= 10_000 * 10_000);
        if i % 7 == 0 {
            h = turn_left(h);
        }
    }
    let mut straight = Vec2::zero();
    for _ in 0..100 {
        straight = thrust(straight, 0);
    }
    assert_eq!(straight, Vec2::new(0, 10_000));
}

#[test]
fn cap_rescales_long_vectors() {
    assert_eq!(cap_speed(Vec2::new(30_000, 40_000)), Vec2::new(6_000, 8_000));
    assert_eq!(cap_speed(Vec2::new(-20_000, 0)), Vec2::new(-10_000, 0));
    assert_eq!(cap_speed(Vec2::new(6_000, 8_000)), Vec2::new(6_000, 8_000));
}

#[test]
fn deceleration_strictly_slows_until_rest() {
    assert_eq!(decay(Vec2::new(10_000, -10_000)), Vec2::new(9_900, -9_900));
    assert_eq!(decay(Vec2::new(1, -1)), Vec2::new(0, 0));
    assert_eq!(decay(Vec2::new(2, 0)), Vec2::new(1, 0));
    let mut v = Vec2::new(7_000, -3_000);
    let mut ticks = 0;
    while v != Vec2::zero() {
        let next = decay(v);
        assert!(speed_sq(next) < speed_sq(v));
        v = next;
        ticks += 1;
    }
    assert!(ticks > 100);
}

#[test]
fn mul_div_rounds_toward_zero() {
    assert_eq!(mul_div_toward_zero(-7, 99, 100), -6);
    assert_eq!(mul_div_toward_zero(7, 99, 100), 6);
    assert_eq!(mul_div_toward_zero(0, 99, 100), 0);
}

#[test]
fn ceiling_square_roots() {
    assert_eq!(ceil_sqrt(0), 0);
    assert_eq!(ceil_sqrt(1), 1);
    assert_eq!(ceil_sqrt(10), 4);
    assert_eq!(ceil_sqrt(16), 4);
    assert_eq!(ceil_sqrt(17), 5);
    assert_eq!(ceil_sqrt(2_500_000_000), 50_000);
}

#[test]
fn heading_table_and_turns() {
    assert_eq!(sine_of(0), 0);
    assert_eq!(sine_of(18), 10_000);
    assert_eq!(sine_of(54), -10_000);
    assert_eq!(cosine_of(0), 10_000);
    assert_eq!(cosine_of(36), -10_000);
    assert_eq!(sine_of(6), 5_000);
    assert_eq!(turn_left(71), 0);
    assert_eq!(turn_right(0), 71);
    assert_eq!(forward_of(0), 18);
    assert_eq!(velocity_of(0, 6_000), Vec2::new(6_000, 0));
    assert_eq!(velocity_of(18, 6_000), Vec2::new(0, 6_000));
    assert_eq!(velocity_of(9, 2_000), Vec2::new(1_414, 1_414));
}

#[test]
fn size_scales_and_splits() {
    assert_eq!(AsteroidSize::Big.scale(), 100_000);
    assert_eq!(AsteroidSize::Medium.scale(), 65_000);
    assert_eq!(AsteroidSize::Small.scale(), 30_000);
    assert_eq!(AsteroidSize::Big.split(), Some(AsteroidSize::Medium));
    assert_eq!(AsteroidSize::Medium.split(), Some(AsteroidSize::Small));
    assert_eq!(AsteroidSize::Small.split(), None);
}

#[test]
fn big_asteroid_splits_into_two_medium() {
    let a = Asteroid { position: Vec2::new(1_000, -2_000), velocity: Vec2::new(5, 5), size: AsteroidSize::Big };
    let f = fragments_of(&a, 0, 18);
    assert_eq!(f.len(), 2);
    assert_eq!(f[0], Asteroid { position: a.position, velocity: Vec2::new(2_000, 0), size: AsteroidSize::Medium });
    assert_eq!(f[1], Asteroid { position: a.position, velocity: Vec2::new(0, 2_000), size: AsteroidSize::Medium });
    for h in 0..72 {
        let g = fragments_of(&a, h, h);
        let s = speed_sq(g[0].velocity);
        assert!(1_999 * 1_999 <= s && s <= 2_000 * 2_000);
    }
}

#[test]
fn small_asteroid_leaves_nothing() {
    let a = Asteroid { position: Vec2::zero(), velocity: Vec2::zero(), size: AsteroidSize::Small };
    assert!(fragments_of(&a, 3, 4).is_empty());
}

#[test]
fn hit_tests_use_quarter_and_half_scales() {
    let ship = Starship { position: Vec2::zero(), velocity: Vec2::zero(), heading: 0 };
    let near = Asteroid { position: Vec2::new(62_499, 0), velocity: Vec2::zero(), size: AsteroidSize::Big };
    let edge = Asteroid { position: Vec2::new(62_500, 0), velocity: Vec2::zero(), size: AsteroidSize::Big };
    assert!(starship_touches(&ship, &near));
    assert!(!starship_touches(&ship, &edge));
    let b = Bullet { position: Vec2::zero(), velocity: Vec2::zero(), origin: Vec2::zero() };
    let close = Asteroid { position: Vec2::new(0, 26_249), velocity: Vec2::zero(), size: AsteroidSize::Big };
    let far = Asteroid { position: Vec2::new(0, 26_250), velocity: Vec2::zero(), size: AsteroidSize::Big };
    assert!(bullet_touches(&b, &close));
    assert!(!bullet_touches(&b, &far));
}

#[test]
fn new_world_has_ship_and_six_big_asteroids() {
    let w = World::new(7);
    assert_eq!(w.starship, Some(Starship { position: Vec2::zero(), velocity: Vec2::zero(), heading: 0 }));
    assert!(w.bullets.is_empty());
    assert_eq!(w.asteroids.len(), 6);
    let mut positions = Vec::new();
    for a in w.asteroids.iter() {
        let a = a.unwrap();
        assert_eq!(a.size, AsteroidSize::Big);
        assert!(MIN_X <= a.position.x && a.position.x < MAX_X);
        assert!(MIN_Y <= a.position.y && a.position.y < MAX_Y);
        let s = speed_sq(a.velocity);
        assert!(1_999 * 1_999 <= s && s <= 2_000 * 2_000);
        positions.push(a.position);
    }
    positions.dedup();
    assert!(positions.len() > 1);
    let again = World::new(7);
    assert_eq!(again.asteroids, w.asteroids);
}

#[test]
fn firing_spawns_bullet_along_nose() {
    let mut w = World::empty(1);
    w.spawn_starship(Vec2::zero(), 0);
    w.spawn_asteroid(Vec2::new(50_000, 0), Vec2::zero(), AsteroidSize::Big);
    w.apply_input(&fire());
    assert_eq!(w.bullets.len(), 1);
    let b = w.bullets[0].unwrap();
    assert_eq!(b.position, Vec2::zero());
    assert_eq!(b.origin, Vec2::zero());
    assert_eq!(b.velocity, Vec2::new(0, 6_000));
}

#[test]
fn bullet_fired_past_asteroid_never_hits() {
    let mut w = World::empty(1);
    w.spawn_starship(Vec2::zero(), 0);
    w.spawn_asteroid(Vec2::new(50_000, 0), Vec2::zero(), AsteroidSize::Big);
    let report = w.tick(&fire());
    assert_eq!(report.asteroids_hit, 0);
    for _ in 0..60 {
        let report = w.tick(&idle());
        assert_eq!(report.asteroids_hit, 0);
        if let Some(b) = w.bullets[0] {
            assert_eq!(b.position.x, 0);
        }
    }
    assert_eq!(w.asteroids.len(), 1);
    let a = w.asteroids[0].unwrap();
    assert_eq!(a.position, Vec2::new(50_000, 0));
    assert_eq!(a.size, AsteroidSize::Big);
}

#[test]
fn ship_on_asteroid_is_destroyed() {
    let mut w = World::empty(3);
    w.spawn_starship(Vec2::zero(), 0);
    w.spawn_asteroid(Vec2::zero(), Vec2::zero(), AsteroidSize::Big);
    let report = w.tick(&idle());
    assert!(report.starship_destroyed);
    assert_eq!(w.starship, None);
    assert!(!w.contains(Handle::Starship));
}

#[test]
fn shot_big_asteroid_becomes_two_medium() {
    let mut w = World::empty(5);
    w.spawn_asteroid(Vec2::new(100_000, 100_000), Vec2::zero(), AsteroidSize::Big);
    w.spawn_bullet(Vec2::new(100_000, 90_000), Vec2::new(0, 6_000));
    let report = w.tick(&idle());
    assert_eq!(report.asteroids_hit, 1);
    assert!(!report.starship_destroyed);
    assert_eq!(w.bullets, vec![None]);
    let live: Vec<Asteroid> = w.asteroids.iter().filter_map(|a| *a).collect();
    assert_eq!(live.len(), 2);
    for a in live {
        assert_eq!(a.size, AsteroidSize::Medium);
        assert_eq!(a.position, Vec2::new(100_000, 100_000));
    }
}

#[test]
fn shot_small_asteroid_disappears() {
    let mut w = World::empty(5);
    w.spawn_asteroid(Vec2::zero(), Vec2::zero(), AsteroidSize::Small);
    w.spawn_bullet(Vec2::zero(), Vec2::zero());
    let report = w.tick(&idle());
    assert_eq!(report.asteroids_hit, 1);
    assert_eq!(w.asteroids, vec![None]);
}

#[test]
fn two_bullets_on_one_asteroid_split_it_once() {
    let mut w = World::empty(9);
    w.spawn_asteroid(Vec2::zero(), Vec2::zero(), AsteroidSize::Big);
    w.spawn_bullet(Vec2::zero(), Vec2::zero());
    w.spawn_bullet(Vec2::zero(), Vec2::zero());
    let report = w.tick(&idle());
    assert_eq!(report.asteroids_hit, 1);
    assert_eq!(w.bullets, vec![None, None]);
    let live: Vec<Asteroid> = w.asteroids.iter().filter_map(|a| *a).collect();
    assert_eq!(live.len(), 2);
    assert!(live.iter().all(|a| a.size == AsteroidSize::Medium && a.position == Vec2::zero()));
}

#[test]
fn bullet_hits_only_first_asteroid_it_touches() {
    let mut w = World::empty(9);
    w.spawn_asteroid(Vec2::new(-5_000, 0), Vec2::zero(), AsteroidSize::Small);
    w.spawn_asteroid(Vec2::new(5_000, 0), Vec2::zero(), AsteroidSize::Small);
    w.spawn_bullet(Vec2::zero(), Vec2::zero());
    w.spawn_bullet(Vec2::new(-5_000, 0), Vec2::zero());
    let report = w.tick(&idle());
    assert_eq!(report.asteroids_hit, 1);
    assert_eq!(w.bullets, vec![None, None]);
    assert_eq!(w.asteroids[0], None);
    assert!(w.asteroids[1].is_some());
}

#[test]
fn shot_big_among_others_adds_one_asteroid() {
    let mut w = World::empty(11);
    w.spawn_asteroid(Vec2::new(-300_000, 0), Vec2::zero(), AsteroidSize::Medium);
    w.spawn_asteroid(Vec2::new(200_000, 200_000), Vec2::zero(), AsteroidSize::Big);
    w.spawn_asteroid(Vec2::new(300_000, -100_000), Vec2::zero(), AsteroidSize::Small);
    w.spawn_bullet(Vec2::new(200_000, 195_000), Vec2::new(0, 1_000));
    w.spawn_bullet(Vec2::new(0, 0), Vec2::new(1_000, 0));
    let report = w.tick(&idle());
    assert_eq!(report.asteroids_hit, 1);
    let live: Vec<Asteroid> = w.asteroids.iter().filter_map(|a| *a).collect();
    assert_eq!(live.len(), 4);
    let medium_here = live
        .iter()
        .filter(|a| a.size == AsteroidSize::Medium && a.position == Vec2::new(200_000, 200_000))
        .count();
    assert_eq!(medium_here, 2);
    assert_eq!(w.asteroids[1].unwrap().position, Vec2::new(200_000, 200_000));
    assert_eq!(w.bullets[0], None);
    assert!(w.bullets[1].is_some());
}

#[test]
fn shot_small_among_others_removes_one_asteroid() {
    let mut w = World::empty(12);
    w.spawn_asteroid(Vec2::new(-300_000, 0), Vec2::zero(), AsteroidSize::Big);
    w.spawn_asteroid(Vec2::new(100_000, 100_000), Vec2::zero(), AsteroidSize::Small);
    w.spawn_bullet(Vec2::new(100_000, 100_000), Vec2::zero());
    let report = w.tick(&idle());
    assert_eq!(report.asteroids_hit, 1);
    let live: Vec<Asteroid> = w.asteroids.iter().filter_map(|a| *a).collect();
    assert_eq!(live.len(), 1);
    assert_eq!(live[0].size, AsteroidSize::Big);
}

#[test]
fn asteroid_placed_from_draws() {
    assert_eq!(point_from_draws(0, 0), Vec2::new(MIN_X, MIN_Y));
    assert_eq!(point_from_draws(1_279_999, 719_999), Vec2::new(MAX_X - 1, MAX_Y - 1));
    let a = asteroid_from_draws(640_000, 360_000, 18);
    assert_eq!(a, Asteroid { position: Vec2::zero(), velocity: Vec2::new(0, 2_000), size: AsteroidSize::Big });
}

#[test]
fn starship_velocity_may_be_set_above_cap_then_thrust_caps_it() {
    let mut w = World::empty(13);
    w.spawn_starship(Vec2::zero(), 0);
    w.set_velocity(Handle::Starship, Vec2::new(20_000, 0));
    let thrusting = Input { rotate_left: false, rotate_right: false, thrust: true, events: Vec::new() };
    w.tick(&thrusting);
    let v = w.starship.unwrap().velocity;
    assert!(speed_sq(v) <= 10_000 * 10_000);
}

#[test]
fn bullet_removed_on_first_tick_out_of_range() {
    let mut w = World::empty(2);
    w.spawn_bullet(Vec2::zero(), Vec2::new(6_000, 0));
    for _ in 0..96 {
        w.tick(&idle());
    }
    let b = w.bullets[0].unwrap();
    assert_eq!(b.position, Vec2::new(BULLET_RANGE, 0));
    w.tick(&idle());
    assert_eq!(w.bullets[0], None);
}

#[test]
fn rotation_and_decay_through_ticks() {
    let mut w = World::empty(4);
    w.spawn_starship(Vec2::zero(), 0);
    let left = Input { rotate_left: true, rotate_right: true, thrust: true, events: Vec::new() };
    w.tick(&left);
    let s = w.starship.unwrap();
    assert_eq!(s.heading, 1);
    assert_eq!(s.velocity, Vec2::new(-17, 199));
    assert_eq!(s.position, Vec2::new(-17, 199));
    w.tick(&idle());
    assert_eq!(w.starship.unwrap().velocity, Vec2::new(-16, 197));
    let released = Input {
        rotate_left: false,
        rotate_right: false,
        thrust: false,
        events: vec![KeyEvent { key: Key::Fire, state: KeyState::Released }],
    };
    w.tick(&released);
    assert!(w.bullets.is_empty());
}

#[test]
fn store_handles_spawn_get_despawn() {
    let mut w = World::empty(6);
    let a = w.spawn_asteroid(Vec2::new(1, 2), Vec2::new(3, 4), AsteroidSize::Medium);
    let b = w.spawn_bullet(Vec2::new(5, 6), Vec2::new(7, 8));
    assert_eq!(a, Handle::Asteroid(0));
    assert_eq!(b, Handle::Bullet(0));
    let g = w.get(a);
    assert_eq!(g.position, Vec2::new(1, 2));
    assert_eq!(g.velocity, Vec2::new(3, 4));
    assert_eq!(g.scale, 65_000);
    assert_eq!(w.get(b).scale, 5_000);
    w.spawn_starship(Vec2::new(9, 9), 3);
    assert_eq!(w.get(Handle::Starship).heading, 3);
    assert_eq!(w.handles(), vec![Handle::Starship, Handle::Bullet(0), Handle::Asteroid(0)]);
    w.despawn(a);
    assert!(!w.contains(a));
    assert!(!w.contains(Handle::Asteroid(7)));
    let again = w.spawn_asteroid(Vec2::zero(), Vec2::zero(), AsteroidSize::Small);
    assert_eq!(again, Handle::Asteroid(0));
    let second = w.spawn_asteroid(Vec2::zero(), Vec2::zero(), AsteroidSize::Small);
    assert_eq!(second, Handle::Asteroid(1));
}

#[test]
fn asteroid_leaving_right_edge_reappears_left() {
    let mut w = World::empty(8);
    let h = w.spawn_asteroid(Vec2::new(689_000, 5_000), Vec2::new(2_000, 0), AsteroidSize::Big);
    w.tick(&idle());
    assert_eq!(w.get(h).position, Vec2::new(MIN_X - 50_000, 5_000));
    w.tick(&idle());
    assert_eq!(w.get(h).position, Vec2::new(MIN_X - 48_000, 5_000));
}

#[test]
fn setters_change_one_field() {
    let mut w = World::empty(8);
    let h = w.spawn_bullet(Vec2::new(1, 1), Vec2::new(2, 2));
    w.set_position(h, Vec2::new(10, 20));
    w.set_velocity(h, Vec2::new(-3, 4));
    let b = w.bullets[0].unwrap();
    assert_eq!(b, Bullet { position: Vec2::new(10, 20), velocity: Vec2::new(-3, 4), origin: Vec2::new(1, 1) });
}
