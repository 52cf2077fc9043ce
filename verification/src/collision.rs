//! Which bullet destroys which asteroid.
//!
//! Bullets are taken in store order; each destroys the first asteroid, in
//! store order, that it touches and that no earlier bullet has destroyed.

use vstd::prelude::*;
use crate::fixed::abs;
use crate::asteroids::AsteroidBundle;
use crate::weapons::{BulletBundle, BULLET_RADIUS};

verus! {

/// The circles of the bullet and the asteroid touch or overlap.
pub open spec fn collides(bullet: BulletBundle, asteroid: AsteroidBundle) -> bool {
    let dx = bullet.translation.x - asteroid.translation.x;
    let dy = bullet.translation.y - asteroid.translation.y;
    let reach = asteroid.asteroid.size.radius_of() + BULLET_RADIUS;
    dx * dx + dy * dy <= reach * reach
}

/// Tests whether the circles of the bullet and the asteroid touch.
pub fn overlaps(bullet: &BulletBundle, asteroid: &AsteroidBundle) -> (hit: bool)
    ensures
        hit == collides(*bullet, *asteroid),
{
    let dx: i128 = bullet.translation.x as i128 - asteroid.translation.x as i128;
    let dy: i128 = bullet.translation.y as i128 - asteroid.translation.y as i128;
    let reach: i128 = (asteroid.asteroid.size.radius() + BULLET_RADIUS) as i128;
    proof {
        assert(dx * dx >= 0 && dy * dy >= 0) by (nonlinear_arith);
        assert(abs(dx as int) > reach ==> dx * dx > reach * reach) by (nonlinear_arith)
            requires
                reach >= 0,
        ;
        assert(abs(dy as int) > reach ==> dy * dy > reach * reach) by (nonlinear_arith)
            requires
                reach >= 0,
        ;
        assert(abs(dx as int) <= reach ==> dx * dx <= 50_000 * 50_000) by (nonlinear_arith)
            requires
                0 <= reach <= 50_000,
        ;
        assert(abs(dy as int) <= reach ==> dy * dy <= 50_000 * 50_000) by (nonlinear_arith)
            requires
                0 <= reach <= 50_000,
        ;
        assert(reach * reach <= 50_000 * 50_000) by (nonlinear_arith)
            requires
                0 <= reach <= 50_000,
        ;
    }
    if dx > reach || dx < -reach || dy > reach || dy < -reach {
        false
    } else {
        dx * dx + dy * dy <= reach * reach
    }
}

/// The first asteroid at or after index `from` that the bullet touches and
/// that is not yet claimed.
pub open spec fn first_hit(
    bullet: BulletBundle,
    asteroids: Seq<AsteroidBundle>,
    claimed: Seq<bool>,
    from: int,
) -> Option<usize>
    decreases asteroids.len() - from,
{
    if from < 0 || from >= asteroids.len() {
        None
    } else if !claimed[from] && collides(bullet, asteroids[from]) {
        Some(from as usize)
    } else {
        first_hit(bullet, asteroids, claimed, from + 1)
    }
}

/// Which asteroids the first `n` bullets have claimed.
pub open spec fn claimed_after(
    bullets: Seq<BulletBundle>,
    asteroids: Seq<AsteroidBundle>,
    n: int,
) -> Seq<bool>
    decreases n,
{
    if n <= 0 {
        Seq::new(asteroids.len(), |a: int| false)
    } else {
        let earlier = claimed_after(bullets, asteroids, n - 1);
        match first_hit(bullets[n - 1], asteroids, earlier, 0) {
            Some(a) => earlier.update(a as int, true),
            None => earlier,
        }
    }
}

/// The asteroid that bullet `b` destroys, if any.
pub open spec fn hit_of(bullets: Seq<BulletBundle>, asteroids: Seq<AsteroidBundle>, b: int) -> Option<
    usize,
> {
    first_hit(bullets[b], asteroids, claimed_after(bullets, asteroids, b), 0)
}

/// For every bullet, the asteroid it destroys, if any.
pub open spec fn hits_of(bullets: Seq<BulletBundle>, asteroids: Seq<AsteroidBundle>) -> Seq<
    Option<usize>,
> {
    Seq::new(bullets.len(), |b: int| hit_of(bullets, asteroids, b))
}

/// What `first_hit` finds is an unclaimed asteroid that the bullet touches,
/// and the first such; where it finds none, there is none.
pub proof fn lemma_first_hit(
    bullet: BulletBundle,
    asteroids: Seq<AsteroidBundle>,
    claimed: Seq<bool>,
    from: int,
)
    requires
        0 <= from,
        claimed.len() == asteroids.len(),
        asteroids.len() <= usize::MAX,
    ensures
        match first_hit(bullet, asteroids, claimed, from) {
            Some(a) => {
                &&& from <= a < asteroids.len()
                &&& !claimed[a as int]
                &&& collides(bullet, asteroids[a as int])
                &&& forall|k: int|
                    from <= k < a ==> claimed[k] || !collides(bullet, #[trigger] asteroids[k])
            },
            None => forall|k: int|
                from <= k < asteroids.len() ==> claimed[k] || !collides(
                    bullet,
                    #[trigger] asteroids[k],
                ),
        },
    decreases asteroids.len() - from,
{
    if from < asteroids.len() {
        if !claimed[from] && collides(bullet, asteroids[from]) {
        } else {
            lemma_first_hit(bullet, asteroids, claimed, from + 1);
        }
    }
}

/// The claims cover one flag per asteroid, and a claim once made stays.
pub proof fn lemma_claims_grow(
    bullets: Seq<BulletBundle>,
    asteroids: Seq<AsteroidBundle>,
    m: int,
    n: int,
)
    requires
        0 <= m <= n,
        asteroids.len() <= usize::MAX,
    ensures
        claimed_after(bullets, asteroids, m).len() == asteroids.len(),
        claimed_after(bullets, asteroids, n).len() == asteroids.len(),
        forall|a: int|
            0 <= a < asteroids.len() && claimed_after(bullets, asteroids, m)[a]
                ==> #[trigger] claimed_after(bullets, asteroids, n)[a],
    decreases n,
{
    if n <= 0 {
    } else if m == n {
        lemma_claims_grow(bullets, asteroids, m - 1, n - 1);
        let earlier = claimed_after(bullets, asteroids, n - 1);
        lemma_first_hit(bullets[n - 1], asteroids, earlier, 0);
    } else {
        lemma_claims_grow(bullets, asteroids, m, n - 1);
        let earlier = claimed_after(bullets, asteroids, n - 1);
        lemma_first_hit(bullets[n - 1], asteroids, earlier, 0);
    }
}

/// A bullet destroys only an asteroid that it touches, and no asteroid is
/// destroyed by two bullets.
pub proof fn lemma_hits_are_distinct(
    bullets: Seq<BulletBundle>,
    asteroids: Seq<AsteroidBundle>,
    b1: int,
    b2: int,
)
    requires
        0 <= b1 < b2,
        asteroids.len() <= usize::MAX,
    ensures
        hit_of(bullets, asteroids, b1).is_some() ==> {
            &&& hit_of(bullets, asteroids, b1).unwrap() < asteroids.len()
            &&& collides(bullets[b1], asteroids[hit_of(bullets, asteroids, b1).unwrap() as int])
            &&& hit_of(bullets, asteroids, b2) != hit_of(bullets, asteroids, b1)
        },
{
    lemma_claims_grow(bullets, asteroids, b1, b1);
    lemma_first_hit(bullets[b1], asteroids, claimed_after(bullets, asteroids, b1), 0);
    if hit_of(bullets, asteroids, b1).is_some() {
        let a = hit_of(bullets, asteroids, b1).unwrap() as int;
        assert(claimed_after(bullets, asteroids, b1 + 1)[a]);
        lemma_claims_grow(bullets, asteroids, b1 + 1, b2);
        assert(claimed_after(bullets, asteroids, b2)[a]);
        lemma_first_hit(bullets[b2], asteroids, claimed_after(bullets, asteroids, b2), 0);
    }
}

/// Finds, for every bullet, the asteroid it destroys, and which asteroids
/// are destroyed.
pub fn find_collisions(bullets: &Vec<BulletBundle>, asteroids: &Vec<AsteroidBundle>) -> (found: (
    Vec<Option<usize>>,
    Vec<bool>,
))
    ensures
        found.0@ == hits_of(bullets@, asteroids@),
        found.1@ == claimed_after(bullets@, asteroids@, bullets@.len() as int),
        found.1@.len() == asteroids@.len(),
{
    let mut claimed: Vec<bool> = Vec::new();
    let mut a: usize = 0;
    while a < asteroids.len()
        invariant
            a <= asteroids@.len(),
            claimed@.len() == a,
            forall|k: int| 0 <= k < a ==> !claimed@[k],
        decreases asteroids@.len() - a,
    {
        claimed.push(false);
        a = a + 1;
    }
    assert(claimed@ =~= claimed_after(bullets@, asteroids@, 0));
    let mut hits: Vec<Option<usize>> = Vec::new();
    let mut b: usize = 0;
    while b < bullets.len()
        invariant
            b <= bullets@.len(),
            hits@.len() == b,
            claimed@.len() == asteroids@.len(),
            claimed@ == claimed_after(bullets@, asteroids@, b as int),
            forall|k: int| 0 <= k < b ==> hits@[k] == hit_of(bullets@, asteroids@, k),
        decreases bullets@.len() - b,
    {
        let mut found: Option<usize> = None;
        let mut k: usize = 0;
        while k < asteroids.len() && found.is_none()
            invariant
                k <= asteroids@.len(),
                b < bullets@.len(),
                claimed@.len() == asteroids@.len(),
                found.is_none() ==> first_hit(bullets@[b as int], asteroids@, claimed@, 0)
                    == first_hit(bullets@[b as int], asteroids@, claimed@, k as int),
                found.is_some() ==> found == first_hit(
                    bullets@[b as int],
                    asteroids@,
                    claimed@,
                    0,
                ),
            decreases asteroids@.len() - k + (if found.is_none() {
                1int
            } else {
                0int
            }),
        {
            if !claimed[k] && overlaps(&bullets[b], &asteroids[k]) {
                found = Some(k);
            } else {
                k = k + 1;
            }
        }
        if let Some(target) = found {
            proof {
                lemma_first_hit(bullets@[b as int], asteroids@, claimed@, 0);
            }
            claimed.set(target, true);
        }
        hits.push(found);
        b = b + 1;
    }
    assert(hits@ =~= hits_of(bullets@, asteroids@));
    (hits, claimed)
}

} // verus!
