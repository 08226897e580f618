//! Circle-against-circle hit tests between the starship, bullets and asteroids.
use vstd::prelude::*;
use crate::geometry::{dist_sq, COORD_BOUND, bounded};
use crate::entity::{
    Starship, Bullet, Asteroid, size_scale, bullets_wf, asteroids_wf, STARSHIP_SCALE, BULLET_SCALE,
};

verus! {

/// The starship and asteroid `a` touch: their distance is below a quarter of
/// the starship's scale plus half the asteroid's, i.e. `4 d < ship + 2 asteroid`.
pub open spec fn ship_hit(s: Starship, a: Asteroid) -> bool {
    16 * dist_sq(s.position, a.position) < (STARSHIP_SCALE + 2 * size_scale(a.size)) * (
    STARSHIP_SCALE + 2 * size_scale(a.size))
}

/// Bullet `b` and asteroid `a` touch: their distance is below half of each
/// one's radius, i.e. `4 d < bullet + asteroid` in scales.
pub open spec fn bullet_hit(b: Bullet, a: Asteroid) -> bool {
    16 * dist_sq(b.position, a.position) < (BULLET_SCALE + size_scale(a.size)) * (BULLET_SCALE
        + size_scale(a.size))
}

/// Some live asteroid touches the starship.
pub open spec fn ship_struck(s: Starship, asteroids: Seq<Option<Asteroid>>) -> bool {
    exists|j: int| 0 <= j < asteroids.len() && #[trigger] asteroids[j] is Some && ship_hit(s, asteroids[j]->0)
}

/// Asteroid slot `j` is live and touched by `b`.
pub open spec fn open_target(b: Bullet, asteroids: Seq<Option<Asteroid>>, j: int) -> bool {
    &&& asteroids[j] is Some
    &&& bullet_hit(b, asteroids[j]->0)
}

/// The first live asteroid slot at or after `j` that `b` touches.
pub open spec fn first_target(b: Bullet, asteroids: Seq<Option<Asteroid>>, j: int) -> Option<usize>
    decreases asteroids.len() - j,
{
    if j < 0 || j >= asteroids.len() {
        None
    } else if open_target(b, asteroids, j) {
        Some(j as usize)
    } else {
        first_target(b, asteroids, j + 1)
    }
}

/// For each of the first `n` bullet slots, the asteroid slot that bullet hits
/// this tick: the first live asteroid it touches, in slot order, whether or
/// not other bullets hit the same asteroid.
pub open spec fn targets(bullets: Seq<Option<Bullet>>, asteroids: Seq<Option<Asteroid>>, n: int) -> Seq<Option<usize>>
    decreases n,
{
    if n <= 0 {
        seq![]
    } else {
        targets(bullets, asteroids, n - 1).push(
            match bullets[n - 1] {
                Some(b) => first_target(b, asteroids, 0),
                None => None,
            },
        )
    }
}

pub proof fn lemma_targets_len(bullets: Seq<Option<Bullet>>, asteroids: Seq<Option<Asteroid>>, n: int)
    requires
        0 <= n,
    ensures
        targets(bullets, asteroids, n).len() == n,
    decreases n,
{
    if n > 0 {
        lemma_targets_len(bullets, asteroids, n - 1);
    }
}

/// Every target of `targets` names a live asteroid slot.
pub proof fn lemma_targets_live(bullets: Seq<Option<Bullet>>, asteroids: Seq<Option<Asteroid>>, n: int)
    requires
        0 <= n,
        asteroids.len() <= usize::MAX,
    ensures
        targets_live(targets(bullets, asteroids, n), asteroids),
    decreases n,
{
    lemma_targets_len(bullets, asteroids, n);
    if n > 0 {
        lemma_targets_live(bullets, asteroids, n - 1);
        if let Some(b) = bullets[n - 1] {
            lemma_first_target_live(b, asteroids, 0);
        }
        let t = targets(bullets, asteroids, n);
        let prev = targets(bullets, asteroids, n - 1);
        lemma_targets_len(bullets, asteroids, n - 1);
        assert forall|i: int| 0 <= i < t.len() && #[trigger] t[i] is Some implies t[i]->0 < asteroids.len()
            && asteroids[t[i]->0 as int] is Some by {
            if i < n - 1 {
                assert(t[i] == prev[i]);
            }
        }
    }
}

/// Starship-against-asteroid test.
pub fn starship_touches(s: &Starship, a: &Asteroid) -> (r: bool)
    requires
        bounded(s.position, COORD_BOUND as int),
        bounded(a.position, COORD_BOUND as int),
    ensures
        r == ship_hit(*s, *a),
{
    let d = s.position.distance_sq(&a.position);
    let reach = STARSHIP_SCALE + 2 * a.size.scale();
    assert(0 <= reach * reach <= 62_500_000_000) by (nonlinear_arith)
        requires
            0 <= reach <= 250_000,
    ;
    16 * d < reach * reach
}

/// Bullet-against-asteroid test.
pub fn bullet_touches(b: &Bullet, a: &Asteroid) -> (r: bool)
    requires
        bounded(b.position, COORD_BOUND as int),
        bounded(a.position, COORD_BOUND as int),
    ensures
        r == bullet_hit(*b, *a),
{
    let d = b.position.distance_sq(&a.position);
    let reach = BULLET_SCALE + a.size.scale();
    assert(0 <= reach * reach <= 62_500_000_000) by (nonlinear_arith)
        requires
            0 <= reach <= 250_000,
    ;
    16 * d < reach * reach
}

/// Whether any live asteroid touches the starship.
pub fn starship_struck(s: &Starship, asteroids: &Vec<Option<Asteroid>>) -> (r: bool)
    requires
        bounded(s.position, COORD_BOUND as int),
        asteroids_wf(asteroids@),
    ensures
        r == ship_struck(*s, asteroids@),
{
    let mut j: usize = 0;
    while j < asteroids.len()
        invariant
            j <= asteroids.len(),
            asteroids_wf(asteroids@),
            bounded(s.position, COORD_BOUND as int),
            forall|k: int| 0 <= k < j && #[trigger] asteroids@[k] is Some ==> !ship_hit(*s, asteroids@[k]->0),
        decreases asteroids.len() - j,
    {
        if let Some(a) = &asteroids[j] {
            if starship_touches(s, a) {
                assert(asteroids@[j as int] is Some);
                return true;
            }
        }
        j += 1;
    }
    false
}

proof fn lemma_first_target_skip(b: Bullet, asteroids: Seq<Option<Asteroid>>, j: int)
    requires
        0 <= j < asteroids.len(),
        !open_target(b, asteroids, j),
    ensures
        first_target(b, asteroids, j) == first_target(b, asteroids, j + 1),
{
}

/// A found target is a live asteroid slot the bullet touches.
pub proof fn lemma_first_target_live(b: Bullet, asteroids: Seq<Option<Asteroid>>, j: int)
    requires
        0 <= j,
        asteroids.len() <= usize::MAX,
    ensures
        first_target(b, asteroids, j) matches Some(k) ==> j <= k < asteroids.len() && open_target(b, asteroids, k as int),
    decreases asteroids.len() - j,
{
    if j < asteroids.len() && !open_target(b, asteroids, j) {
        lemma_first_target_live(b, asteroids, j + 1);
    }
}

/// Every target names a live asteroid slot.
pub open spec fn targets_live(t: Seq<Option<usize>>, asteroids: Seq<Option<Asteroid>>) -> bool {
    forall|i: int| 0 <= i < t.len() && #[trigger] t[i] is Some ==> t[i]->0 < asteroids.len() && asteroids[t[i]->0 as int] is Some
}

/// The asteroid slot each bullet slot hits this tick (see `targets`), and for
/// each asteroid slot whether some bullet hits it.
pub fn bullet_targets(bullets: &Vec<Option<Bullet>>, asteroids: &Vec<Option<Asteroid>>) -> (r: (Vec<Option<usize>>, Vec<bool>))
    requires
        bullets_wf(bullets@),
        asteroids_wf(asteroids@),
    ensures
        r.0@ == targets(bullets@, asteroids@, bullets@.len() as int),
        r.0@.len() == bullets@.len(),
        targets_live(r.0@, asteroids@),
        r.1@.len() == asteroids@.len(),
        forall|m: usize| m < asteroids@.len() ==> (#[trigger] r.1@[m as int] <==> r.0@.contains(Some(m))),
{
    let mut r: Vec<Option<usize>> = Vec::new();
    let mut taken: Vec<bool> = Vec::new();
    let mut k: usize = 0;
    while k < asteroids.len()
        invariant
            k <= asteroids.len(),
            taken@.len() == k,
            forall|m: int| 0 <= m < k ==> !#[trigger] taken@[m],
        decreases asteroids.len() - k,
    {
        taken.push(false);
        k += 1;
    }
    let mut i: usize = 0;
    while i < bullets.len()
        invariant
            i <= bullets.len(),
            bullets_wf(bullets@),
            asteroids_wf(asteroids@),
            taken@.len() == asteroids@.len(),
            r@ == targets(bullets@, asteroids@, i as int),
            targets_live(r@, asteroids@),
            forall|m: usize| m < asteroids@.len() ==> (#[trigger] taken@[m as int] <==> r@.contains(Some(m))),
        decreases bullets.len() - i,
    {
        assert(targets(bullets@, asteroids@, i + 1) == r@.push(match bullets@[i as int] {
            Some(b) => first_target(b, asteroids@, 0),
            None => None::<usize>,
        }));
        let mut hit: Option<usize> = None;
        if let Some(b) = &bullets[i] {
            assert(bullets@[i as int] is Some);
            let mut j: usize = 0;
            while j < asteroids.len() && hit.is_none()
                invariant
                    j <= asteroids.len(),
                    asteroids_wf(asteroids@),
                    bounded(b.position, COORD_BOUND as int),
                    taken@.len() == asteroids@.len(),
                    hit is None ==> first_target(*b, asteroids@, 0) == first_target(*b, asteroids@, j as int),
                    hit is Some ==> hit == first_target(*b, asteroids@, 0),
                    hit matches Some(h) ==> h < asteroids@.len(),
                decreases asteroids.len() - j + (if hit is None { 1int } else { 0int }),
            {
                if let Some(a) = &asteroids[j] {
                    assert(asteroids@[j as int] is Some);
                    if bullet_touches(b, a) {
                        assert(open_target(*b, asteroids@, j as int));
                        hit = Some(j);
                    }
                }
                if hit.is_none() {
                    proof {
                        lemma_first_target_skip(*b, asteroids@, j as int);
                    }
                    j += 1;
                }
            }
            assert(hit is None ==> first_target(*b, asteroids@, j as int) == None::<usize>);
        }
        proof {
            if let Some(b) = bullets@[i as int] {
                lemma_first_target_live(b, asteroids@, 0);
            }
        }
        assert(hit matches Some(h) ==> h < asteroids@.len() && asteroids@[h as int] is Some);
        proof {
            let old_r = r@;
            assert forall|m: usize| m < asteroids@.len() implies (#[trigger] old_r.push(hit).contains(Some(m)) <==> (old_r.contains(Some(m)) || hit == Some(m))) by {
                if old_r.contains(Some(m)) {
                    let w = choose|w: int| 0 <= w < old_r.len() && old_r[w] == Some(m);
                    assert(old_r.push(hit)[w] == Some(m));
                }
                if hit == Some(m) {
                    assert(old_r.push(hit)[old_r.len() as int] == Some(m));
                }
                if old_r.push(hit).contains(Some(m)) {
                    let w = choose|w: int| 0 <= w < old_r.len() + 1 && old_r.push(hit)[w] == Some(m);
                    if w < old_r.len() {
                        assert(old_r[w] == Some(m));
                    }
                }
            }
        }
        if let Some(j) = hit {
            taken.set(j, true);
        }
        r.push(hit);
        i += 1;
    }
    proof {
        lemma_targets_len(bullets@, asteroids@, bullets@.len() as int);
    }
    (r, taken)
}

} // verus!
