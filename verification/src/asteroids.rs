//! The asteroid population: size classes, timed spawning from the playfield
//! edges, fragments, wrap-around, and the resolution of bullet hits.

use vstd::prelude::*;
use crate::fixed::{
    abs, clamp_abs, clamp_abs_wide, div_trunc, div_trunc_wide, lemma_product_bound, Vec2, MICRO,
};
use crate::timing::{Timer, TimerMode};
use crate::playfield::{wrap_axis, wrapped, Playfield};
use crate::physics::{integrate_position, moved_position, wrapped_previous, ANGLE_LIMIT};
use crate::entity::IdAllocator;
use crate::rng::RandomStream;
use crate::weapons::{all_bullets_wf, bullets_ascend, BulletBundle};
use crate::particles::{
    all_particles_wf, burst_size, is_burst, lemma_appended_run_ascends,
    lemma_particles_ascend_widens, particles_ascend, spawn_asteroid_destruction_particles,
    ParticleBundle,
};
use crate::events::LifecycleEvent;
use crate::sequences::lemma_prefix_of_prefix;
use crate::collision::{
    claimed_after, find_collisions, first_hit, hit_of, hits_of, lemma_claims_grow, lemma_first_hit,
};

verus! {

/// Time between two edge spawns, in microseconds.
pub const ASTEROID_SPAWN_PERIOD_US: u32 = 3_000_000;

/// The number of asteroids above which no edge spawn happens.
pub const MAX_ASTEROIDS: usize = 8;

/// How far beyond the playfield an asteroid travels before it wraps.
pub const ASTEROID_WRAP_MARGIN: i64 = 100_000;

/// How far beyond its own radius outside the playfield an asteroid enters.
pub const EDGE_SPAWN_PADDING: i64 = 50_000;

/// Bound on each velocity component of an edge spawn.
pub const EDGE_SPEED: i64 = 100_000;

/// Bound on the angular velocity of an edge spawn, in microradians per second.
pub const EDGE_SPIN: i64 = 2_000_000;

/// Bound on each velocity component of a fragment.
pub const FRAGMENT_SPEED: i64 = 80_000;

/// Bound on the angular velocity of a fragment, in microradians per second.
pub const FRAGMENT_SPIN: i64 = 3_000_000;

/// The three size classes.
#[derive(Clone, Copy, Debug, PartialEq, Eq, Structural)]
pub enum AsteroidSize {
    Large,
    Medium,
    Small,
}

impl AsteroidSize {
    /// The radius of the class, in thousandths of a pixel.
    pub open spec fn radius_of(self) -> int {
        match self {
            AsteroidSize::Large => 40_000,
            AsteroidSize::Medium => 25_000,
            AsteroidSize::Small => 15_000,
        }
    }

    /// The class one step down, if there is one.
    pub open spec fn split_of(self) -> Option<AsteroidSize> {
        match self {
            AsteroidSize::Large => Some(AsteroidSize::Medium),
            AsteroidSize::Medium => Some(AsteroidSize::Small),
            AsteroidSize::Small => None,
        }
    }

    /// The radius of the class, in thousandths of a pixel.
    pub fn radius(self) -> (r: i64)
        ensures
            r == self.radius_of(),
    {
        match self {
            AsteroidSize::Large => 40_000,
            AsteroidSize::Medium => 25_000,
            AsteroidSize::Small => 15_000,
        }
    }

    /// The class of the fragments this class breaks into, if it breaks.
    pub fn split(self) -> (smaller: Option<AsteroidSize>)
        ensures
            smaller == self.split_of(),
    {
        match self {
            AsteroidSize::Large => Some(AsteroidSize::Medium),
            AsteroidSize::Medium => Some(AsteroidSize::Small),
            AsteroidSize::Small => None,
        }
    }
}

/// Marks an entity as an asteroid of a size class.
#[derive(Clone, Copy, Debug, PartialEq, Eq, Structural)]
pub struct Asteroid {
    pub size: AsteroidSize,
}

/// An asteroid with everything it carries in the store.
#[derive(Clone, Copy, Debug, PartialEq, Eq, Structural)]
pub struct AsteroidBundle {
    pub id: u64,
    pub asteroid: Asteroid,
    pub translation: Vec2,
    pub previous_translation: Vec2,
    pub rotation: i64,
    pub previous_rotation: i64,
    pub linear_velocity: Vec2,
    pub angular_velocity: i64,
}

/// The repeating timer that paces edge spawns.
#[derive(Clone, Copy, Debug, PartialEq, Eq, Structural)]
pub struct AsteroidSpawnTimer(pub Timer);

impl Default for AsteroidSpawnTimer {
    fn default() -> (timer: AsteroidSpawnTimer)
        ensures
            timer.0 == (Timer {
                mode: TimerMode::Repeating,
                duration_us: ASTEROID_SPAWN_PERIOD_US,
                elapsed_us: 0,
                finished: false,
            }),
            timer.0.wf(),
    {
        AsteroidSpawnTimer(Timer::new(ASTEROID_SPAWN_PERIOD_US, TimerMode::Repeating))
    }
}

/// How many asteroids there are, and how many there may be before edge
/// spawning pauses.
#[derive(Clone, Copy, Debug, PartialEq, Eq, Structural)]
pub struct AsteroidCount {
    pub max_asteroids: usize,
    pub current_count: usize,
}

impl Default for AsteroidCount {
    fn default() -> (count: AsteroidCount)
        ensures
            count == (AsteroidCount { max_asteroids: MAX_ASTEROIDS, current_count: 0 }),
    {
        AsteroidCount { max_asteroids: MAX_ASTEROIDS, current_count: 0 }
    }
}

/// The point on one of the four edges, pushed outward by `margin`: edge 0
/// is the top, 1 the right, 2 the bottom, any other the left; `along` is
/// the coordinate along that edge.
pub open spec fn edge_position(playfield: Playfield, margin: int, edge: int, along: int) -> Vec2 {
    if edge == 0 {
        Vec2 { x: along as i64, y: (playfield.half_height() + margin) as i64 }
    } else if edge == 1 {
        Vec2 { x: (playfield.half_width() + margin) as i64, y: along as i64 }
    } else if edge == 2 {
        Vec2 { x: along as i64, y: (-playfield.half_height() - margin) as i64 }
    } else {
        Vec2 { x: (-playfield.half_width() - margin) as i64, y: along as i64 }
    }
}

/// The position lies exactly on one of the four edges of the playfield
/// pushed outward by `margin`.
pub open spec fn on_edge(playfield: Playfield, margin: int, position: Vec2) -> bool {
    let reach_x = playfield.half_width() + margin;
    let reach_y = playfield.half_height() + margin;
    ||| (abs(position.y as int) == reach_y && -reach_x <= position.x < reach_x)
    ||| (abs(position.x as int) == reach_x && -reach_y <= position.y < reach_y)
}

/// Computes the point on the chosen edge.
pub fn edge_spawn_position(playfield: &Playfield, margin: i64, edge: i64, along: i64) -> (position:
    Vec2)
    requires
        playfield.wf(),
        0 <= margin <= crate::playfield::MARGIN_LIMIT,
    ensures
        position == edge_position(*playfield, margin as int, edge as int, along as int),
{
    let reach_x: i64 = playfield.width / 2 + margin;
    let reach_y: i64 = playfield.height / 2 + margin;
    if edge == 0 {
        Vec2 { x: along, y: reach_y }
    } else if edge == 1 {
        Vec2 { x: reach_x, y: along }
    } else if edge == 2 {
        Vec2 { x: along, y: -reach_y }
    } else {
        Vec2 { x: -reach_x, y: along }
    }
}

/// A point chosen along an edge lies on that edge.
pub proof fn lemma_edge_position_on_edge(playfield: Playfield, margin: int, edge: int, along: int)
    requires
        playfield.wf(),
        0 <= margin <= crate::playfield::MARGIN_LIMIT,
        edge == 0 || edge == 2 ==> -playfield.half_width() - margin <= along
            < playfield.half_width() + margin,
        edge != 0 && edge != 2 ==> -playfield.half_height() - margin <= along
            < playfield.half_height() + margin,
    ensures
        on_edge(playfield, margin, edge_position(playfield, margin, edge, along)),
{
}

/// `a` is an asteroid of class `size` as an edge spawn makes it: exactly
/// on an edge pushed outward by its radius and the padding, unrotated,
/// with velocity and spin within the edge bounds.
pub open spec fn is_edge_spawn(
    a: AsteroidBundle,
    playfield: Playfield,
    size: AsteroidSize,
) -> bool {
    &&& a.asteroid.size == size
    &&& on_edge(playfield, size.radius_of() + EDGE_SPAWN_PADDING, a.translation)
    &&& a.previous_translation == a.translation
    &&& a.rotation == 0
    &&& a.previous_rotation == 0
    &&& -EDGE_SPEED <= a.linear_velocity.x < EDGE_SPEED
    &&& -EDGE_SPEED <= a.linear_velocity.y < EDGE_SPEED
    &&& -EDGE_SPIN <= a.angular_velocity < EDGE_SPIN
}

/// `a` is a fragment of class `size` as a destruction makes it: at the
/// place of the destroyed asteroid, unrotated, with velocity and spin
/// within the fragment bounds.
pub open spec fn is_fragment(a: AsteroidBundle, position: Vec2, size: AsteroidSize) -> bool {
    &&& a.asteroid.size == size
    &&& a.translation == position
    &&& a.previous_translation == position
    &&& a.rotation == 0
    &&& a.previous_rotation == 0
    &&& -FRAGMENT_SPEED <= a.linear_velocity.x < FRAGMENT_SPEED
    &&& -FRAGMENT_SPEED <= a.linear_velocity.y < FRAGMENT_SPEED
    &&& -FRAGMENT_SPIN <= a.angular_velocity < FRAGMENT_SPIN
}

/// Adds one asteroid of class `size` on a randomly chosen edge of the
/// playfield.
pub fn spawn_asteroid_at_edge(
    commands: &mut Vec<AsteroidBundle>,
    ids: &mut IdAllocator,
    window: &Playfield,
    size: AsteroidSize,
    rng: &mut RandomStream,
)
    requires
        window.wf(),
    ensures
        final(commands)@.len() == old(commands)@.len() + 1,
        final(commands)@.drop_last() == old(commands)@,
        is_edge_spawn(final(commands)@.last(), *window, size),
        final(commands)@.last().id == old(ids).next,
        final(ids).next == old(ids).upcoming(1),
        asteroids_within(old(commands)@, *window) ==> asteroids_within(final(commands)@, *window),
{
    let radius: i64 = size.radius();
    let margin: i64 = radius + EDGE_SPAWN_PADDING;
    let reach_x: i64 = window.width / 2 + margin;
    let reach_y: i64 = window.height / 2 + margin;
    let edge: i64 = rng.range(0, 4);
    let along: i64 = if edge == 0 || edge == 2 {
        rng.range(-reach_x, reach_x)
    } else {
        rng.range(-reach_y, reach_y)
    };
    let position = edge_spawn_position(window, margin, edge, along);
    proof {
        lemma_edge_position_on_edge(*window, margin as int, edge as int, along as int);
    }
    let velocity = Vec2 { x: rng.symmetric(EDGE_SPEED), y: rng.symmetric(EDGE_SPEED) };
    let angular_velocity: i64 = rng.symmetric(EDGE_SPIN);
    let id: u64 = ids.allocate();
    commands.push(
        AsteroidBundle {
            id,
            asteroid: Asteroid { size },
            translation: position,
            previous_translation: position,
            rotation: 0,
            previous_rotation: 0,
            linear_velocity: velocity,
            angular_velocity,
        },
    );
    assert(commands@.drop_last() =~= old(commands)@);
    proof {
        lemma_edge_spawn_within(commands@.last(), *window, size);
        if asteroids_within(old(commands)@, *window) {
            assert forall|i: int| 0 <= i < commands@.len() implies window.contains(
                (#[trigger] commands@[i]).translation,
                ASTEROID_WRAP_MARGIN as int,
            ) by {
                if i < old(commands)@.len() {
                    assert(commands@.drop_last()[i] == commands@[i]);
                }
            }
        }
    }
}

/// Adds one fragment of class `size` at `position`.
pub fn spawn_asteroid_fragment(
    commands: &mut Vec<AsteroidBundle>,
    ids: &mut IdAllocator,
    position: Vec2,
    size: AsteroidSize,
    rng: &mut RandomStream,
)
    ensures
        final(commands)@.len() == old(commands)@.len() + 1,
        final(commands)@.drop_last() == old(commands)@,
        is_fragment(final(commands)@.last(), position, size),
        final(commands)@.last().id == old(ids).next,
        final(ids).next == old(ids).upcoming(1),
{
    let velocity = Vec2 { x: rng.symmetric(FRAGMENT_SPEED), y: rng.symmetric(FRAGMENT_SPEED) };
    let angular_velocity: i64 = rng.symmetric(FRAGMENT_SPIN);
    let id: u64 = ids.allocate();
    commands.push(
        AsteroidBundle {
            id,
            asteroid: Asteroid { size },
            translation: position,
            previous_translation: position,
            rotation: 0,
            previous_rotation: 0,
            linear_velocity: velocity,
            angular_velocity,
        },
    );
    assert(commands@.drop_last() =~= old(commands)@);
}

/// Ticks the spawn timer and, when it has run out, the population is below
/// its cap and a playfield is known, adds one large asteroid on an edge.
pub fn spawn_asteroid_system(
    commands: &mut Vec<AsteroidBundle>,
    ids: &mut IdAllocator,
    spawn_timer: &mut AsteroidSpawnTimer,
    asteroid_count: &mut AsteroidCount,
    dt_us: u32,
    window: Option<&Playfield>,
    rng: &mut RandomStream,
)
    requires
        old(spawn_timer).0.wf(),
        window.is_some() ==> window.unwrap().wf(),
    ensures
        final(spawn_timer).0 == old(spawn_timer).0.ticked(dt_us as int),
        final(spawn_timer).0.wf(),
        final(asteroid_count).max_asteroids == old(asteroid_count).max_asteroids,
        window.is_some() && asteroids_within(old(commands)@, *window.unwrap()) ==> asteroids_within(
            final(commands)@,
            *window.unwrap(),
        ),
        spawn_is_due(*old(spawn_timer), *old(asteroid_count), dt_us as int, window.is_some()) ==> {
            &&& final(commands)@.len() == old(commands)@.len() + 1
            &&& final(commands)@.drop_last() == old(commands)@
            &&& is_edge_spawn(final(commands)@.last(), *window.unwrap(), AsteroidSize::Large)
            &&& final(commands)@.last().id == old(ids).next
            &&& final(ids).next == old(ids).upcoming(1)
            &&& final(asteroid_count).current_count == old(asteroid_count).current_count + 1
        },
        !spawn_is_due(*old(spawn_timer), *old(asteroid_count), dt_us as int, window.is_some()) ==> {
            &&& final(commands)@ == old(commands)@
            &&& *final(ids) == *old(ids)
            &&& *final(asteroid_count) == *old(asteroid_count)
        },
{
    spawn_timer.0.tick(dt_us);
    if spawn_timer.0.finished() && asteroid_count.current_count < asteroid_count.max_asteroids {
        if let Some(playfield) = window {
            spawn_asteroid_at_edge(commands, ids, playfield, AsteroidSize::Large, rng);
            asteroid_count.current_count = asteroid_count.current_count + 1;
        }
    }
}

/// An edge spawn happens in a tick of `dt_us` exactly when that tick runs
/// the timer out, the population is below its cap and a playfield is known.
pub open spec fn spawn_is_due(
    timer: AsteroidSpawnTimer,
    count: AsteroidCount,
    dt_us: int,
    has_playfield: bool,
) -> bool {
    timer.0.ticked(dt_us).finished && count.current_count < count.max_asteroids && has_playfield
}

/// An asteroid after the wrap: its position wrapped on both axes, its
/// previous position following wherever the position jumped.
pub open spec fn wrapped_asteroid(a: AsteroidBundle, playfield: Playfield) -> AsteroidBundle {
    let reach_x = playfield.half_width() + ASTEROID_WRAP_MARGIN;
    let reach_y = playfield.half_height() + ASTEROID_WRAP_MARGIN;
    AsteroidBundle {
        translation: playfield.wrapped_position(a.translation, ASTEROID_WRAP_MARGIN as int),
        previous_translation: Vec2 {
            x: wrapped_previous(
                a.previous_translation.x as int,
                a.translation.x as int,
                reach_x,
            ) as i64,
            y: wrapped_previous(
                a.previous_translation.y as int,
                a.translation.y as int,
                reach_y,
            ) as i64,
        },
        ..a
    }
}

/// Wraps every asteroid around the playfield widened by the asteroid
/// margin; without a playfield nothing moves.
pub fn wrap_asteroids(asteroids: &mut Vec<AsteroidBundle>, window: Option<&Playfield>)
    requires
        window.is_some() ==> window.unwrap().wf(),
    ensures
        final(asteroids)@.len() == old(asteroids)@.len(),
        window.is_none() ==> final(asteroids)@ == old(asteroids)@,
        window.is_some() ==> asteroids_within(final(asteroids)@, *window.unwrap()),
        window.is_some() ==> forall|i: int|
            0 <= i < old(asteroids)@.len() ==> {
                &&& #[trigger] final(asteroids)@[i] == wrapped_asteroid(
                    old(asteroids)@[i],
                    *window.unwrap(),
                )
                &&& window.unwrap().contains(
                    final(asteroids)@[i].translation,
                    ASTEROID_WRAP_MARGIN as int,
                )
            },
{
    if let Some(playfield) = window {
        let reach_x: i64 = playfield.width / 2 + ASTEROID_WRAP_MARGIN;
        let reach_y: i64 = playfield.height / 2 + ASTEROID_WRAP_MARGIN;
        let mut i: usize = 0;
        while i < asteroids.len()
            invariant
                playfield.wf(),
                reach_x == playfield.half_width() + ASTEROID_WRAP_MARGIN,
                reach_y == playfield.half_height() + ASTEROID_WRAP_MARGIN,
                i <= asteroids@.len(),
                asteroids@.len() == old(asteroids)@.len(),
                forall|k: int|
                    0 <= k < i ==> {
                        &&& #[trigger] asteroids@[k] == wrapped_asteroid(
                            old(asteroids)@[k],
                            *playfield,
                        )
                        &&& playfield.contains(asteroids@[k].translation, ASTEROID_WRAP_MARGIN as int)
                    },
                forall|k: int| i <= k < asteroids@.len() ==> asteroids@[k] == old(asteroids)@[k],
            decreases asteroids@.len() - i,
        {
            let mut a: AsteroidBundle = asteroids[i];
            let x: i64 = wrap_axis(a.translation.x, reach_x);
            if x != a.translation.x {
                a.translation.x = x;
                a.previous_translation.x = x;
            }
            let y: i64 = wrap_axis(a.translation.y, reach_y);
            if y != a.translation.y {
                a.translation.y = y;
                a.previous_translation.y = y;
            }
            asteroids.set(i, a);
            i = i + 1;
        }
    }
}

/// Removes every asteroid and sets the count to zero.
pub fn despawn_asteroids(asteroids: &mut Vec<AsteroidBundle>, asteroid_count: &mut AsteroidCount)
    ensures
        final(asteroids)@.len() == 0,
        final(asteroid_count).current_count == 0,
        final(asteroid_count).max_asteroids == old(asteroid_count).max_asteroids,
{
    asteroids.clear();
    asteroid_count.current_count = 0;
}

/// A rotation after turning at `angular_velocity` for `dt_us`
/// microseconds; it saturates at the angle limit.
pub open spec fn turned(rotation: int, angular_velocity: int, dt_us: int) -> int {
    clamp_abs(rotation + div_trunc(angular_velocity * dt_us, MICRO as int), ANGLE_LIMIT as int)
}

/// An asteroid after drifting for `dt_us` microseconds: it remembers where
/// it was and how it was turned, moves by its velocity and turns by its
/// angular velocity.
pub open spec fn drifted_asteroid(a: AsteroidBundle, dt_us: int) -> AsteroidBundle {
    AsteroidBundle {
        previous_translation: a.translation,
        translation: moved_position(a.translation, a.linear_velocity, dt_us),
        previous_rotation: a.rotation,
        rotation: turned(a.rotation as int, a.angular_velocity as int, dt_us) as i64,
        ..a
    }
}

/// Moves and turns every asteroid for `dt_us` microseconds.
pub fn integrate_asteroids(asteroids: &mut Vec<AsteroidBundle>, dt_us: u32)
    ensures
        final(asteroids)@.len() == old(asteroids)@.len(),
        forall|i: int|
            0 <= i < old(asteroids)@.len() ==> #[trigger] final(asteroids)@[i] == drifted_asteroid(
                old(asteroids)@[i],
                dt_us as int,
            ),
{
    let mut i: usize = 0;
    while i < asteroids.len()
        invariant
            i <= asteroids@.len(),
            asteroids@.len() == old(asteroids)@.len(),
            forall|k: int|
                0 <= k < i ==> #[trigger] asteroids@[k] == drifted_asteroid(
                    old(asteroids)@[k],
                    dt_us as int,
                ),
            forall|k: int| i <= k < asteroids@.len() ==> asteroids@[k] == old(asteroids)@[k],
        decreases asteroids@.len() - i,
    {
        let mut a: AsteroidBundle = asteroids[i];
        a.previous_translation = a.translation;
        a.translation = integrate_position(a.translation, a.linear_velocity, dt_us);
        a.previous_rotation = a.rotation;
        proof {
            lemma_product_bound(
                a.angular_velocity as int,
                dt_us as int,
                0x8000_0000_0000_0000,
                0x1_0000_0000,
            );
        }
        let swing: i128 = div_trunc_wide((a.angular_velocity as i128) * (dt_us as i128), 1_000_000);
        a.rotation = clamp_abs_wide(a.rotation as i128 + swing, ANGLE_LIMIT);
        asteroids.set(i, a);
        i = i + 1;
    }
}

/// Of the first `n` bullets, those that destroyed nothing, in their old
/// order.
pub open spec fn unhit(bullets: Seq<BulletBundle>, hits: Seq<Option<usize>>, n: int) -> Seq<
    BulletBundle,
>
    decreases n,
{
    if n <= 0 {
        Seq::empty()
    } else if hits[n - 1].is_some() {
        unhit(bullets, hits, n - 1)
    } else {
        unhit(bullets, hits, n - 1).push(bullets[n - 1])
    }
}

/// Of the first `n` asteroids, those that no bullet claimed, in their old
/// order.
pub open spec fn unclaimed(asteroids: Seq<AsteroidBundle>, claimed: Seq<bool>, n: int) -> Seq<
    AsteroidBundle,
>
    decreases n,
{
    if n <= 0 {
        Seq::empty()
    } else if claimed[n - 1] {
        unclaimed(asteroids, claimed, n - 1)
    } else {
        unclaimed(asteroids, claimed, n - 1).push(asteroids[n - 1])
    }
}

/// The destruction events of the first `n` bullets, in bullet order.
pub open spec fn destroyed_events(
    asteroids: Seq<AsteroidBundle>,
    hits: Seq<Option<usize>>,
    n: int,
) -> Seq<LifecycleEvent>
    decreases n,
{
    if n <= 0 {
        Seq::empty()
    } else {
        match hits[n - 1] {
            Some(a) => destroyed_events(asteroids, hits, n - 1).push(
                LifecycleEvent::AsteroidDestroyed {
                    position: asteroids[a as int].translation,
                    size_class: asteroids[a as int].asteroid.size,
                },
            ),
            None => destroyed_events(asteroids, hits, n - 1),
        }
    }
}

/// How many fragments a destroyed asteroid of the given class leaves: two
/// of the next smaller class where there is one and a playfield is known.
pub open spec fn fragment_count(size: AsteroidSize, has_window: bool) -> int {
    if has_window && size.split_of().is_some() {
        2
    } else {
        0
    }
}

/// How many particles the first `n` bullets raise.
pub open spec fn particles_made(
    asteroids: Seq<AsteroidBundle>,
    hits: Seq<Option<usize>>,
    n: int,
) -> int
    decreases n,
{
    if n <= 0 {
        0
    } else {
        particles_made(asteroids, hits, n - 1) + match hits[n - 1] {
            Some(a) => burst_size(asteroids[a as int].asteroid.size.radius_of()),
            None => 0,
        }
    }
}

/// How many fragments the first `n` bullets leave.
pub open spec fn fragments_made(
    asteroids: Seq<AsteroidBundle>,
    hits: Seq<Option<usize>>,
    has_window: bool,
    n: int,
) -> int
    decreases n,
{
    if n <= 0 {
        0
    } else {
        fragments_made(asteroids, hits, has_window, n - 1) + match hits[n - 1] {
            Some(a) => fragment_count(asteroids[a as int].asteroid.size, has_window),
            None => 0,
        }
    }
}

/// How many of the first `n` bullets destroyed an asteroid.
pub open spec fn hit_count(hits: Seq<Option<usize>>, n: int) -> int
    decreases n,
{
    if n <= 0 {
        0
    } else {
        hit_count(hits, n - 1) + if hits[n - 1].is_some() {
            1int
        } else {
            0int
        }
    }
}

/// The asteroid count after the first `n` bullets: each destruction takes
/// one away, never below zero, and each fragment adds one.
pub open spec fn count_after(
    count: int,
    asteroids: Seq<AsteroidBundle>,
    hits: Seq<Option<usize>>,
    has_window: bool,
    n: int,
) -> int
    decreases n,
{
    if n <= 0 {
        count
    } else {
        let earlier = count_after(count, asteroids, hits, has_window, n - 1);
        match hits[n - 1] {
            Some(a) => (if earlier > 0 {
                earlier - 1
            } else {
                0
            }) + fragment_count(asteroids[a as int].asteroid.size, has_window),
            None => earlier,
        }
    }
}

/// A small asteroid leaves no fragments, with or without a playfield; the
/// larger classes leave two where a playfield is known.
pub proof fn lemma_small_leaves_no_fragments(has_window: bool)
    ensures
        AsteroidSize::Small.split_of().is_none(),
        fragment_count(AsteroidSize::Small, has_window) == 0,
        fragment_count(AsteroidSize::Medium, true) == 2,
        fragment_count(AsteroidSize::Large, true) == 2,
{
}

/// `fs` holds the fragments of a destroyed asteroid of class `size` at
/// `position`, with consecutive identifiers starting at the next of `ids`.
pub open spec fn are_fragments(
    fs: Seq<AsteroidBundle>,
    position: Vec2,
    size: AsteroidSize,
    has_window: bool,
    ids: IdAllocator,
) -> bool {
    &&& fs.len() == fragment_count(size, has_window)
    &&& forall|j: int|
        0 <= j < fs.len() ==> {
            &&& is_fragment(#[trigger] fs[j], position, size.split_of().unwrap())
            &&& fs[j].id == ids.upcoming(j)
        }
}

/// How many of the first `m` flags are set.
pub open spec fn true_count(flags: Seq<bool>, m: int) -> int
    decreases m,
{
    if m <= 0 {
        0
    } else {
        true_count(flags, m - 1) + if flags[m - 1] {
            1int
        } else {
            0int
        }
    }
}

/// Setting a flag that was clear raises the count of set flags by one.
proof fn lemma_true_count_update(flags: Seq<bool>, a: int, m: int)
    requires
        0 <= a < flags.len(),
        !flags[a],
        0 <= m <= flags.len(),
    ensures
        true_count(flags.update(a, true), m) == true_count(flags, m) + if a < m {
            1int
        } else {
            0int
        },
    decreases m,
{
    if m > 0 {
        lemma_true_count_update(flags, a, m - 1);
    }
}

/// The unclaimed asteroids and the set flags together account for every
/// asteroid.
pub proof fn lemma_unclaimed_len(asteroids: Seq<AsteroidBundle>, claimed: Seq<bool>, m: int)
    requires
        0 <= m <= asteroids.len(),
        claimed.len() == asteroids.len(),
    ensures
        unclaimed(asteroids, claimed, m).len() + true_count(claimed, m) == m,
        0 <= true_count(claimed, m) <= m,
        (exists|a: int| 0 <= a < m && !claimed[a]) ==> true_count(claimed, m) < m,
    decreases m,
{
    if m > 0 {
        lemma_unclaimed_len(asteroids, claimed, m - 1);
        if exists|a: int| 0 <= a < m && !claimed[a] {
            let a = choose|a: int| 0 <= a < m && !claimed[a];
            if a < m - 1 {
                assert(0 <= a < m - 1 && !claimed[a]);
            }
        }
    }
}

/// As many flags are set as bullets have hit.
pub proof fn lemma_claims_count(bullets: Seq<BulletBundle>, asteroids: Seq<AsteroidBundle>, n: int)
    requires
        0 <= n <= bullets.len(),
        asteroids.len() <= usize::MAX,
    ensures
        claimed_after(bullets, asteroids, n).len() == asteroids.len(),
        true_count(claimed_after(bullets, asteroids, n), asteroids.len() as int) == hit_count(
            hits_of(bullets, asteroids),
            n,
        ),
    decreases n,
{
    lemma_claims_grow(bullets, asteroids, n, n);
    if n <= 0 {
        let none = claimed_after(bullets, asteroids, 0);
        lemma_all_false(none, asteroids.len() as int);
    } else {
        lemma_claims_count(bullets, asteroids, n - 1);
        let earlier = claimed_after(bullets, asteroids, n - 1);
        lemma_first_hit(bullets[n - 1], asteroids, earlier, 0);
        assert(hits_of(bullets, asteroids)[n - 1] == hit_of(bullets, asteroids, n - 1));
        match first_hit(bullets[n - 1], asteroids, earlier, 0) {
            Some(a) => {
                lemma_true_count_update(earlier, a as int, asteroids.len() as int);
            },
            None => {},
        }
    }
}

/// Where no flag is set, none is counted.
pub proof fn lemma_all_false(flags: Seq<bool>, m: int)
    requires
        0 <= m <= flags.len(),
        forall|a: int| 0 <= a < flags.len() ==> !flags[a],
    ensures
        true_count(flags, m) == 0,
    decreases m,
{
    if m > 0 {
        lemma_all_false(flags, m - 1);
    }
}

/// The tallies never decrease from one bullet to the next.
pub proof fn lemma_tallies_grow(
    asteroids: Seq<AsteroidBundle>,
    hits: Seq<Option<usize>>,
    has_window: bool,
    m: int,
    n: int,
)
    requires
        0 <= m <= n,
    ensures
        0 <= particles_made(asteroids, hits, m) <= particles_made(asteroids, hits, n),
        0 <= fragments_made(asteroids, hits, has_window, m) <= fragments_made(
            asteroids,
            hits,
            has_window,
            n,
        ),
        fragments_made(asteroids, hits, has_window, n) <= 2 * n,
        0 <= hit_count(hits, m) <= hit_count(hits, n) <= n,
    decreases n,
{
    if n > 0 {
        if m < n {
            lemma_tallies_grow(asteroids, hits, has_window, m, n - 1);
        } else {
            lemma_tallies_grow(asteroids, hits, has_window, m - 1, n - 1);
        }
        match hits[n - 1] {
            Some(a) => {
                lemma_burst_size_nonnegative(asteroids[a as int].asteroid.size.radius_of());
            },
            None => {},
        }
    }
}

/// A burst never has a negative number of particles.
pub proof fn lemma_burst_size_nonnegative(radius: int)
    ensures
        burst_size(radius) >= 0,
        crate::particles::explosion_count(radius) >= 0,
        crate::particles::spark_count(radius) >= 0,
{
}

/// Where the count starts as the number of asteroids, it ends as the
/// number left plus the number of fragments: destructions never drive it
/// below zero.
pub proof fn lemma_count_tracks_population(
    bullets: Seq<BulletBundle>,
    asteroids: Seq<AsteroidBundle>,
    has_window: bool,
    n: int,
)
    requires
        0 <= n <= bullets.len(),
        asteroids.len() <= usize::MAX,
    ensures
        count_after(
            asteroids.len() as int,
            asteroids,
            hits_of(bullets, asteroids),
            has_window,
            n,
        ) == asteroids.len() - hit_count(hits_of(bullets, asteroids), n) + fragments_made(
            asteroids,
            hits_of(bullets, asteroids),
            has_window,
            n,
        ),
        hit_count(hits_of(bullets, asteroids), n) <= asteroids.len(),
        fragments_made(asteroids, hits_of(bullets, asteroids), has_window, n) <= 2 * hit_count(
            hits_of(bullets, asteroids),
            n,
        ),
    decreases n,
{
    let hits = hits_of(bullets, asteroids);
    lemma_claims_count(bullets, asteroids, n);
    lemma_unclaimed_len(
        asteroids,
        claimed_after(bullets, asteroids, n),
        asteroids.len() as int,
    );
    if n > 0 {
        lemma_count_tracks_population(bullets, asteroids, has_window, n - 1);
        lemma_tallies_grow(asteroids, hits, has_window, n - 1, n - 1);
        let earlier = claimed_after(bullets, asteroids, n - 1);
        lemma_claims_count(bullets, asteroids, n - 1);
        lemma_first_hit(bullets[n - 1], asteroids, earlier, 0);
        lemma_unclaimed_len(asteroids, earlier, asteroids.len() as int);
        assert(hits[n - 1] == hit_of(bullets, asteroids, n - 1));
        match hits[n - 1] {
            Some(a) => {
                assert(0 <= a < asteroids.len() && !earlier[a as int]);
                assert(true_count(earlier, asteroids.len() as int) < asteroids.len());
            },
            None => {},
        }
    }
}

/// What bullet `b` left behind is recorded in the particle store `ps` and
/// the asteroid store `fs`: where it destroyed an asteroid, that
/// asteroid's burst and fragments stand at the places the tallies give.
/// `particle_base` and `asteroid_base` are the lengths the stores had before any effect.
pub open spec fn effects_recorded(
    asteroids: Seq<AsteroidBundle>,
    hits: Seq<Option<usize>>,
    has_window: bool,
    ids: IdAllocator,
    particle_base: int,
    asteroid_base: int,
    ps: Seq<ParticleBundle>,
    fs: Seq<AsteroidBundle>,
    b: int,
) -> bool {
    hits[b].is_some() ==> {
        let target = asteroids[hits[b].unwrap() as int];
        let pm = particles_made(asteroids, hits, b);
        let pm_next = particles_made(asteroids, hits, b + 1);
        let fm = fragments_made(asteroids, hits, has_window, b);
        let fm_next = fragments_made(asteroids, hits, has_window, b + 1);
        &&& is_burst(
            ps.subrange(particle_base + pm, particle_base + pm_next),
            target.translation,
            target.asteroid.size.radius_of(),
            IdAllocator { next: ids.upcoming(pm + fm) },
        )
        &&& are_fragments(
            fs.subrange(asteroid_base + fm, asteroid_base + fm_next),
            target.translation,
            target.asteroid.size,
            has_window,
            IdAllocator { next: ids.upcoming(pm_next + fm) },
        )
    }
}

/// What a bullet left behind stays recorded when the stores grow at their
/// ends.
pub proof fn lemma_effects_stable(
    asteroids: Seq<AsteroidBundle>,
    hits: Seq<Option<usize>>,
    has_window: bool,
    ids: IdAllocator,
    particle_base: int,
    asteroid_base: int,
    ps: Seq<ParticleBundle>,
    fs: Seq<AsteroidBundle>,
    ps_later: Seq<ParticleBundle>,
    fs_later: Seq<AsteroidBundle>,
    b: int,
)
    requires
        0 <= b,
        0 <= particle_base,
        0 <= asteroid_base,
        effects_recorded(asteroids, hits, has_window, ids, particle_base, asteroid_base, ps, fs, b),
        particle_base + particles_made(asteroids, hits, b + 1) <= ps.len() <= ps_later.len(),
        asteroid_base + fragments_made(asteroids, hits, has_window, b + 1) <= fs.len() <= fs_later.len(),
        ps_later.subrange(0, ps.len() as int) == ps,
        fs_later.subrange(0, fs.len() as int) == fs,
    ensures
        effects_recorded(asteroids, hits, has_window, ids, particle_base, asteroid_base, ps_later, fs_later, b),
{
    lemma_tallies_grow(asteroids, hits, has_window, b, b + 1);
    let pm = particles_made(asteroids, hits, b);
    let pm_next = particles_made(asteroids, hits, b + 1);
    let fm = fragments_made(asteroids, hits, has_window, b);
    let fm_next = fragments_made(asteroids, hits, has_window, b + 1);
    assert forall|j: int| 0 <= j < ps.len() implies ps_later[j] == ps[j] by {
        assert(ps_later.subrange(0, ps.len() as int)[j] == ps_later[j]);
    }
    assert forall|j: int| 0 <= j < fs.len() implies fs_later[j] == fs[j] by {
        assert(fs_later.subrange(0, fs.len() as int)[j] == fs_later[j]);
    }
    assert(ps_later.subrange(particle_base + pm, particle_base + pm_next) =~= ps.subrange(particle_base + pm, particle_base + pm_next));
    assert(fs_later.subrange(asteroid_base + fm, asteroid_base + fm_next) =~= fs.subrange(asteroid_base + fm, asteroid_base + fm_next));
}

/// Carries out one destruction: reports it, raises the burst of particles
/// and, where the class of the asteroid has a successor and a playfield is
/// known, leaves two fragments of that successor where the asteroid was.
/// Returns the number of fragments.
pub fn destroy_asteroid(
    target: &AsteroidBundle,
    window: Option<&Playfield>,
    asteroids: &mut Vec<AsteroidBundle>,
    particles: &mut Vec<ParticleBundle>,
    events: &mut Vec<LifecycleEvent>,
    ids: &mut IdAllocator,
    rng: &mut RandomStream,
) -> (fragments: usize)
    ensures
        fragments == fragment_count(target.asteroid.size, window.is_some()),
        final(events)@ == old(events)@.push(
            LifecycleEvent::AsteroidDestroyed {
                position: target.translation,
                size_class: target.asteroid.size,
            },
        ),
        final(particles)@.len() == old(particles)@.len() + burst_size(
            target.asteroid.size.radius_of(),
        ),
        final(particles)@.subrange(0, old(particles)@.len() as int) == old(particles)@,
        is_burst(
            final(particles)@.subrange(old(particles)@.len() as int, final(particles)@.len() as int),
            target.translation,
            target.asteroid.size.radius_of(),
            *old(ids),
        ),
        final(asteroids)@.len() == old(asteroids)@.len() + fragments,
        final(asteroids)@.subrange(0, old(asteroids)@.len() as int) == old(asteroids)@,
        are_fragments(
            final(asteroids)@.subrange(old(asteroids)@.len() as int, final(asteroids)@.len() as int),
            target.translation,
            target.asteroid.size,
            window.is_some(),
            IdAllocator { next: old(ids).upcoming(burst_size(target.asteroid.size.radius_of())) },
        ),
        final(ids).next == old(ids).upcoming(
            burst_size(target.asteroid.size.radius_of()) + fragments,
        ),
        all_particles_wf(old(particles)@) ==> all_particles_wf(final(particles)@),
        final(ids).next < u64::MAX && particles_ascend(old(particles)@, old(ids).next as int)
            ==> particles_ascend(final(particles)@, final(ids).next as int),
        final(ids).next < u64::MAX && asteroids_ascend(old(asteroids)@, old(ids).next as int)
            ==> asteroids_ascend(final(asteroids)@, final(ids).next as int),
        window.is_some() && asteroids_within(old(asteroids)@, *window.unwrap())
            && window.unwrap().contains(target.translation, ASTEROID_WRAP_MARGIN as int)
            ==> asteroids_within(final(asteroids)@, *window.unwrap()),
{
    let has_window: bool = window.is_some();
    let position = target.translation;
    let size_radius: i64 = target.asteroid.size.radius();
    let ghost burst = burst_size(size_radius as int);
    let ghost before = asteroids@;
    let ghost dust = particles@;
    events.push(
        LifecycleEvent::AsteroidDestroyed { position, size_class: target.asteroid.size },
    );
    spawn_asteroid_destruction_particles(particles, ids, position, size_radius, rng);
    let ghost ids_mid = *ids;
    let mut fragments: usize = 0;
    if let Some(smaller_size) = target.asteroid.size.split() {
        if has_window {
            spawn_asteroid_fragment(asteroids, ids, position, smaller_size, rng);
            let ghost one = asteroids@;
            spawn_asteroid_fragment(asteroids, ids, position, smaller_size, rng);
            fragments = 2;
            proof {
                assert(asteroids@.drop_last() == one);
                assert(one.drop_last() == before);
                assert(asteroids@[before.len() as int] == one.last());
                if ids.next < u64::MAX && asteroids_ascend(before, old(ids).next as int) {
                    lemma_asteroids_ascend_widens(
                        before,
                        old(ids).next as int,
                        ids_mid.next as int,
                    );
                    lemma_pushed_asteroid_ascends(before, one, ids_mid.next);
                    lemma_pushed_asteroid_ascends(one, asteroids@, (ids_mid.next + 1) as u64);
                }
            }
        }
    }
    proof {
        lemma_burst_size_nonnegative(size_radius as int);
        let raised = particles@.subrange(dust.len() as int, particles@.len() as int);
        assert(asteroids@.subrange(0, before.len() as int) =~= before);
        let fresh = asteroids@.subrange(before.len() as int, asteroids@.len() as int);
        assert forall|j: int| 0 <= j < fresh.len() implies {
            &&& is_fragment(
                #[trigger] fresh[j],
                position,
                target.asteroid.size.split_of().unwrap(),
            )
            &&& fresh[j].id == ids_mid.upcoming(j)
        } by {
            assert(fresh[j] == asteroids@[before.len() + j]);
        }
        if all_particles_wf(dust) {
            assert forall|j: int| 0 <= j < particles@.len() implies (#[trigger] particles@[j]).wf() by {
                if j < dust.len() {
                    assert(particles@.subrange(0, dust.len() as int)[j] == particles@[j]);
                } else {
                    assert(raised[j - dust.len()] == particles@[j]);
                }
            }
        }
        if ids.next < u64::MAX && particles_ascend(dust, old(ids).next as int) {
            assert forall|j: int| 0 <= j < burst implies (#[trigger] particles@[dust.len() + j]).id
                == old(ids).upcoming(j) by {
                assert(raised[j] == particles@[dust.len() + j]);
            }
            lemma_appended_run_ascends(dust, particles@, *old(ids), burst);
            lemma_particles_ascend_widens(particles@, ids_mid.next as int, ids.next as int);
        }
        if window.is_some() && asteroids_within(before, *window.unwrap())
            && window.unwrap().contains(position, ASTEROID_WRAP_MARGIN as int) {
            assert forall|i: int| 0 <= i < asteroids@.len() implies window.unwrap().contains(
                (#[trigger] asteroids@[i]).translation,
                ASTEROID_WRAP_MARGIN as int,
            ) by {
                if i < before.len() {
                    assert(asteroids@.subrange(0, before.len() as int)[i] == asteroids@[i]);
                } else {
                    assert(fresh[i - before.len()] == asteroids@[i]);
                }
            }
        }
        if ids.next < u64::MAX && asteroids_ascend(before, old(ids).next as int) && fragments == 0 {
            assert(asteroids@ =~= before);
            lemma_asteroids_ascend_widens(before, old(ids).next as int, ids.next as int);
        }
    }
    fragments
}

/// Resolves the hits of one tick. Every bullet that touches an asteroid
/// destroys the first one it touches that no earlier bullet destroyed.
/// Both leave their stores; the asteroid's destruction is reported, raises
/// a burst of particles and, where its class has a successor and a
/// playfield is known, leaves two fragments; the count follows.
#[verifier::rlimit(40)]
pub fn bullet_asteroid_collision_system(
    bullets: &mut Vec<BulletBundle>,
    asteroids: &mut Vec<AsteroidBundle>,
    particles: &mut Vec<ParticleBundle>,
    events: &mut Vec<LifecycleEvent>,
    ids: &mut IdAllocator,
    asteroid_count: &mut AsteroidCount,
    window: Option<&Playfield>,
    rng: &mut RandomStream,
)
    ensures
        final(bullets)@ == unhit(
            old(bullets)@,
            hits_of(old(bullets)@, old(asteroids)@),
            old(bullets)@.len() as int,
        ),
        final(events)@ == old(events)@ + destroyed_events(
            old(asteroids)@,
            hits_of(old(bullets)@, old(asteroids)@),
            old(bullets)@.len() as int,
        ),
        final(asteroid_count).max_asteroids == old(asteroid_count).max_asteroids,
        final(asteroid_count).current_count == crate::fixed::clamp(
            count_after(
                old(asteroid_count).current_count as int,
                old(asteroids)@,
                hits_of(old(bullets)@, old(asteroids)@),
                window.is_some(),
                old(bullets)@.len() as int,
            ),
            0,
            usize::MAX as int,
        ),
        old(asteroid_count).current_count == old(asteroids)@.len()
            ==> final(asteroid_count).current_count == final(asteroids)@.len(),
        final(asteroids)@.len() <= old(asteroids)@.len() + hit_count(
            hits_of(old(bullets)@, old(asteroids)@),
            old(bullets)@.len() as int,
        ),
        final(asteroids)@.len() == unclaimed(
            old(asteroids)@,
            claimed_after(old(bullets)@, old(asteroids)@, old(bullets)@.len() as int),
            old(asteroids)@.len() as int,
        ).len() + fragments_made(
            old(asteroids)@,
            hits_of(old(bullets)@, old(asteroids)@),
            window.is_some(),
            old(bullets)@.len() as int,
        ),
        final(asteroids)@.subrange(
            0,
            unclaimed(
                old(asteroids)@,
                claimed_after(old(bullets)@, old(asteroids)@, old(bullets)@.len() as int),
                old(asteroids)@.len() as int,
            ).len() as int,
        ) == unclaimed(
            old(asteroids)@,
            claimed_after(old(bullets)@, old(asteroids)@, old(bullets)@.len() as int),
            old(asteroids)@.len() as int,
        ),
        final(particles)@.len() == old(particles)@.len() + particles_made(
            old(asteroids)@,
            hits_of(old(bullets)@, old(asteroids)@),
            old(bullets)@.len() as int,
        ),
        final(particles)@.len() >= old(particles)@.len(),
        final(particles)@.subrange(0, old(particles)@.len() as int) == old(particles)@,
        all_particles_wf(old(particles)@) ==> all_particles_wf(final(particles)@),
        all_bullets_wf(old(bullets)@) ==> all_bullets_wf(final(bullets)@),
        final(ids).next < u64::MAX && particles_ascend(old(particles)@, old(ids).next as int)
            ==> particles_ascend(final(particles)@, final(ids).next as int),
        final(ids).next < u64::MAX && asteroids_ascend(old(asteroids)@, old(ids).next as int)
            ==> asteroids_ascend(final(asteroids)@, final(ids).next as int),
        forall|b: int|
            0 <= b < old(bullets)@.len() ==> #[trigger] effects_recorded(
                old(asteroids)@,
                hits_of(old(bullets)@, old(asteroids)@),
                window.is_some(),
                *old(ids),
                old(particles)@.len() as int,
                unclaimed(
                    old(asteroids)@,
                    claimed_after(old(bullets)@, old(asteroids)@, old(bullets)@.len() as int),
                    old(asteroids)@.len() as int,
                ).len() as int,
                final(particles)@,
                final(asteroids)@,
                b,
            ),
        final(ids).next == old(ids).upcoming(
            particles_made(
                old(asteroids)@,
                hits_of(old(bullets)@, old(asteroids)@),
                old(bullets)@.len() as int,
            ) + fragments_made(
                old(asteroids)@,
                hits_of(old(bullets)@, old(asteroids)@),
                window.is_some(),
                old(bullets)@.len() as int,
            ),
        ),
        window.is_some() && asteroids_within(old(asteroids)@, *window.unwrap()) ==> asteroids_within(
            final(asteroids)@,
            *window.unwrap(),
        ),
{
    let (hits, claimed) = find_collisions(bullets, asteroids);
    let has_window: bool = window.is_some();
    let ghost shots = bullets@;
    let ghost rocks = asteroids@;
    let ghost ids0 = *ids;
    let ghost particle_base = particles@.len() as int;
    let ghost particles0 = particles@;
    let ghost events0 = events@;
    let ghost count_base = asteroid_count.current_count as int;

    let mut survivors: Vec<AsteroidBundle> = Vec::new();
    let mut a: usize = 0;
    while a < asteroids.len()
        invariant
            a <= asteroids@.len(),
            asteroids@ == rocks,
            claimed@.len() == rocks.len(),
            survivors@ == unclaimed(rocks, claimed@, a as int),
        decreases asteroids@.len() - a,
    {
        if !claimed[a] {
            survivors.push(asteroids[a]);
        }
        a = a + 1;
    }
    let ghost kept = survivors@;
    let ghost asteroid_base = kept.len() as int;
    proof {
        assert forall|k: int|
            0 <= k < shots.len() && (#[trigger] hits@[k]).is_some() implies hits@[k].unwrap()
            < rocks.len() by {
            lemma_claims_grow(shots, rocks, k, k);
            lemma_first_hit(shots[k], rocks, claimed_after(shots, rocks, k), 0);
        }
    }
    proof {
        if asteroids_ascend(rocks, ids0.next as int) {
            lemma_unclaimed_ascend(rocks, claimed@, rocks.len() as int, ids0.next as int);
        }
        if window.is_some() && asteroids_within(rocks, *window.unwrap()) {
            lemma_unclaimed_within(rocks, claimed@, rocks.len() as int, *window.unwrap());
        }
    }
    let mut kept_bullets: Vec<BulletBundle> = Vec::new();
    let mut running: u128 = asteroid_count.current_count as u128;
    let mut b: usize = 0;
    while b < bullets.len()
        invariant
            b <= bullets@.len(),
            bullets@ == shots,
            asteroids@ == rocks,
            hits@ == hits_of(shots, rocks),
            has_window == window.is_some(),
            particle_base == particles0.len(),
            asteroid_base == kept.len(),
            forall|k: int|
                0 <= k < shots.len() && (#[trigger] hits@[k]).is_some() ==> hits@[k].unwrap()
                    < rocks.len(),
            kept_bullets@ == unhit(shots, hits@, b as int),
            all_bullets_wf(shots) ==> all_bullets_wf(kept_bullets@),
            all_particles_wf(particles0) ==> all_particles_wf(particles@),
            ids.next >= ids0.next,
            ids.next < u64::MAX && particles_ascend(particles0, ids0.next as int)
                ==> particles_ascend(particles@, ids.next as int),
            ids.next < u64::MAX && asteroids_ascend(rocks, ids0.next as int) ==> asteroids_ascend(
                survivors@,
                ids.next as int,
            ),
            window.is_some() && asteroids_within(rocks, *window.unwrap()) ==> asteroids_within(
                survivors@,
                *window.unwrap(),
            ),
            events@ == events0 + destroyed_events(rocks, hits@, b as int),
            running == count_after(count_base, rocks, hits@, has_window, b as int),
            running <= count_base + 2 * b,
            0 <= count_base <= usize::MAX,
            particles@.len() == particle_base + particles_made(rocks, hits@, b as int),
            particles@.subrange(0, particle_base) == particles0,
            survivors@.len() == asteroid_base + fragments_made(rocks, hits@, has_window, b as int),
            survivors@.subrange(0, asteroid_base) == kept,
            ids.next == ids0.upcoming(
                particles_made(rocks, hits@, b as int) + fragments_made(
                    rocks,
                    hits@,
                    has_window,
                    b as int,
                ),
            ),
            forall|k: int|
                0 <= k < b ==> #[trigger] effects_recorded(
                    rocks,
                    hits@,
                    has_window,
                    ids0,
                    particle_base,
                    asteroid_base,
                    particles@,
                    survivors@,
                    k,
                ),
        decreases bullets@.len() - b,
    {
        let ghost ps_before = particles@;
        let ghost fs_before = survivors@;
        let ghost ids_before = *ids;
        let ghost pm = particles_made(rocks, hits@, b as int);
        let ghost fm = fragments_made(rocks, hits@, has_window, b as int);
        proof {
            lemma_tallies_grow(rocks, hits@, has_window, b as int, b as int);
        }
        match hits[b] {
            None => {
                kept_bullets.push(bullets[b]);
            },
            Some(index) => {
                let target: AsteroidBundle = asteroids[index];
                if running > 0 {
                    running = running - 1;
                }
                let fragments: usize = destroy_asteroid(
                    &target,
                    window,
                    &mut survivors,
                    particles,
                    events,
                    ids,
                    rng,
                );
                running = running + fragments as u128;
                proof {
                    let burst = burst_size(target.asteroid.size.radius_of());
                    lemma_burst_size_nonnegative(target.asteroid.size.radius_of());
                    assert(ids_before == (IdAllocator { next: ids0.upcoming(pm + fm) }));
                    assert(ids0.upcoming(pm + burst + fm) == ids_before.upcoming(burst));
                    assert(particles@.subrange(particle_base + pm, particle_base + pm + burst) =~= particles@.subrange(
                        ps_before.len() as int,
                        particles@.len() as int,
                    ));
                    assert(survivors@.subrange(asteroid_base + fm, asteroid_base + fm + fragments) =~= survivors@.subrange(
                        fs_before.len() as int,
                        survivors@.len() as int,
                    ));
                }
            },
        }
        proof {
            let next = b as int + 1;
            assert(survivors@.subrange(0, fs_before.len() as int) =~= fs_before);
            assert(particles@.subrange(0, ps_before.len() as int) =~= ps_before);
            lemma_prefix_of_prefix(kept, fs_before, survivors@);
            lemma_prefix_of_prefix(particles0, ps_before, particles@);
            assert forall|k: int| 0 <= k < next implies #[trigger] effects_recorded(
                rocks,
                hits@,
                has_window,
                ids0,
                particle_base,
                asteroid_base,
                particles@,
                survivors@,
                k,
            ) by {
                if k < b {
                    lemma_tallies_grow(rocks, hits@, has_window, k + 1, b as int);
                    lemma_effects_stable(
                        rocks,
                        hits@,
                        has_window,
                        ids0,
                        particle_base,
                        asteroid_base,
                        ps_before,
                        fs_before,
                        particles@,
                        survivors@,
                        k,
                    );
                }
            }
        }
        b = b + 1;
    }
    proof {
        lemma_claims_count(shots, rocks, shots.len() as int);
        lemma_unclaimed_len(rocks, claimed@, rocks.len() as int);
        lemma_count_tracks_population(shots, rocks, has_window, shots.len() as int);
        lemma_tallies_grow(rocks, hits@, has_window, 0, shots.len() as int);
        assert(claimed@ == claimed_after(shots, rocks, shots.len() as int));
        assert(kept == unclaimed(rocks, claimed@, rocks.len() as int));
        assert(asteroid_base + hit_count(hits@, shots.len() as int) == rocks.len());
        if count_base == rocks.len() {
            assert(running == asteroid_base + fragments_made(rocks, hits@, has_window, shots.len() as int));
            assert(running == survivors@.len());
        }
    }
    // the population fits a machine word, and where the count tracked it so does the count
    let population: usize = survivors.len();
    assert(count_base == rocks.len() ==> running == population);
    *bullets = kept_bullets;
    *asteroids = survivors;
    asteroid_count.current_count = if running > usize::MAX as u128 {
        usize::MAX
    } else {
        running as usize
    };
}

/// The identifiers of the store ascend strictly and lie below `bound`: no
/// two asteroids share one, and none has yet to be handed out.
#[verifier::opaque]
pub open spec fn asteroids_ascend(asteroids: Seq<AsteroidBundle>, bound: int) -> bool {
    &&& forall|i: int, j: int|
        0 <= i < j < asteroids.len() ==> (#[trigger] asteroids[i]).id < (
        #[trigger] asteroids[j]).id
    &&& forall|i: int| 0 <= i < asteroids.len() ==> (#[trigger] asteroids[i]).id < bound
}

/// Removing the destroyed asteroids keeps the identifiers in ascending
/// order.
pub proof fn lemma_unclaimed_ascend(
    asteroids: Seq<AsteroidBundle>,
    claimed: Seq<bool>,
    n: int,
    bound: int,
)
    requires
        asteroids_ascend(asteroids, bound),
        0 <= n <= asteroids.len(),
    ensures
        asteroids_ascend(unclaimed(asteroids, claimed, n), bound),
        forall|k: int|
            0 <= k < unclaimed(asteroids, claimed, n).len() && n > 0 ==> (#[trigger] unclaimed(
                asteroids,
                claimed,
                n,
            )[k]).id <= asteroids[n - 1].id,
    decreases n,
{
    reveal(asteroids_ascend);
    if n > 0 {
        lemma_unclaimed_ascend(asteroids, claimed, n - 1, bound);
        let earlier = unclaimed(asteroids, claimed, n - 1);
        let now = unclaimed(asteroids, claimed, n);
        assert forall|k: int| 0 <= k < now.len() implies (#[trigger] now[k]).id <= asteroids[n
            - 1].id by {
            if k < earlier.len() {
                assert(now[k] == earlier[k]);
            }
        }
        assert forall|i: int, j: int| 0 <= i < j < now.len() implies (#[trigger] now[i]).id < (
        #[trigger] now[j]).id by {
            if j < earlier.len() {
                assert(now[i] == earlier[i] && now[j] == earlier[j]);
            } else {
                assert(now[i] == earlier[i]);
            }
        }
    }
}

/// Removing the bullets that hit keeps the identifiers in ascending order.
pub proof fn lemma_unhit_ascend(
    bullets: Seq<BulletBundle>,
    hits: Seq<Option<usize>>,
    n: int,
    bound: int,
)
    requires
        bullets_ascend(bullets, bound),
        0 <= n <= bullets.len(),
    ensures
        bullets_ascend(unhit(bullets, hits, n), bound),
        forall|k: int|
            0 <= k < unhit(bullets, hits, n).len() && n > 0 ==> (#[trigger] unhit(
                bullets,
                hits,
                n,
            )[k]).id <= bullets[n - 1].id,
    decreases n,
{
    reveal(bullets_ascend);
    if n > 0 {
        lemma_unhit_ascend(bullets, hits, n - 1, bound);
        let earlier = unhit(bullets, hits, n - 1);
        let now = unhit(bullets, hits, n);
        assert forall|k: int| 0 <= k < now.len() implies (#[trigger] now[k]).id <= bullets[n
            - 1].id by {
            if k < earlier.len() {
                assert(now[k] == earlier[k]);
            }
        }
        assert forall|i: int, j: int| 0 <= i < j < now.len() implies (#[trigger] now[i]).id < (
        #[trigger] now[j]).id by {
            if j < earlier.len() {
                assert(now[i] == earlier[i] && now[j] == earlier[j]);
            } else {
                assert(now[i] == earlier[i]);
            }
        }
    }
}

/// An asteroid with a fresh identifier appended to the store keeps its
/// identifiers in ascending order.
pub proof fn lemma_pushed_asteroid_ascends(
    before: Seq<AsteroidBundle>,
    after: Seq<AsteroidBundle>,
    id: u64,
)
    requires
        after.len() == before.len() + 1,
        after.drop_last() == before,
        after.last().id == id,
        id < u64::MAX,
        asteroids_ascend(before, id as int),
    ensures
        asteroids_ascend(after, id + 1),
{
    reveal(asteroids_ascend);
    assert forall|i: int| 0 <= i < before.len() implies after[i] == before[i] by {
        assert(after.drop_last()[i] == after[i]);
    }
}

/// Identifiers below a bound lie below every larger bound, and an empty
/// store is in order.
pub proof fn lemma_asteroids_ascend_widens(asteroids: Seq<AsteroidBundle>, bound: int, wider: int)
    requires
        asteroids_ascend(asteroids, bound),
        bound <= wider,
    ensures
        asteroids_ascend(asteroids, wider),
        asteroids_ascend(Seq::empty(), wider),
{
    reveal(asteroids_ascend);
}

/// Asteroids that keep their identifiers, one for one, keep their order.
pub proof fn lemma_asteroids_ascend_carries(
    before: Seq<AsteroidBundle>,
    after: Seq<AsteroidBundle>,
    bound: int,
)
    requires
        asteroids_ascend(before, bound),
        after.len() == before.len(),
        forall|i: int| 0 <= i < before.len() ==> (#[trigger] after[i]).id == before[i].id,
    ensures
        asteroids_ascend(after, bound),
{
    reveal(asteroids_ascend);
}

/// Every asteroid of the store lies within the playfield widened by the
/// asteroid margin.
pub open spec fn asteroids_within(asteroids: Seq<AsteroidBundle>, playfield: Playfield) -> bool {
    forall|i: int|
        0 <= i < asteroids.len() ==> playfield.contains(
            (#[trigger] asteroids[i]).translation,
            ASTEROID_WRAP_MARGIN as int,
        )
}

/// The asteroids that no bullet claimed lie where they lay.
pub proof fn lemma_unclaimed_within(
    asteroids: Seq<AsteroidBundle>,
    claimed: Seq<bool>,
    n: int,
    playfield: Playfield,
)
    requires
        asteroids_within(asteroids, playfield),
        0 <= n <= asteroids.len(),
    ensures
        asteroids_within(unclaimed(asteroids, claimed, n), playfield),
    decreases n,
{
    if n > 0 {
        lemma_unclaimed_within(asteroids, claimed, n - 1, playfield);
    }
}

/// An edge spawn enters within the asteroid margin: its distance from the
/// playfield, its radius and the padding, is less than the margin.
pub proof fn lemma_edge_spawn_within(a: AsteroidBundle, playfield: Playfield, size: AsteroidSize)
    requires
        playfield.wf(),
        is_edge_spawn(a, playfield, size),
    ensures
        playfield.contains(a.translation, ASTEROID_WRAP_MARGIN as int),
{
}

} // verus!
