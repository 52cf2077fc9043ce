//! Bullets: firing under a cooldown, ballistic motion and lifetimes.

use vstd::prelude::*;
use crate::fixed::{
    displace, displaced, div_trunc, lemma_product_bound, mul_div, scale_to, scaled, Vec2, MICRO,
};
use crate::timing::{Timer, TimerMode, lemma_one_shot_runs_down};
use crate::trig::{forward, forward_of};
use crate::entity::{IdAllocator, Transform2d};
use crate::input::InputSnapshot;
use crate::physics::{moved_position, integrate_position};

verus! {

/// The speed of a bullet, in thousandths of a pixel per second.
pub const BULLET_SPEED: i64 = 400_000;

/// How long a bullet lives, in microseconds.
pub const BULLET_LIFETIME_US: u32 = 2_000_000;

/// The radius of a bullet, in thousandths of a pixel.
pub const BULLET_RADIUS: i64 = 3_000;

/// The time between two shots, in microseconds.
pub const SHOOT_COOLDOWN_US: u32 = 200_000;

/// How far ahead of the ship's centre a bullet appears.
pub const MUZZLE_OFFSET: i64 = 40_000;

/// The period of the repeating shoot timer, in microseconds.
pub const SHOOT_TIMER_PERIOD_US: u32 = 2_000_000;

/// A repeating timer kept beside the cooldown.
#[derive(Clone, Copy, Debug, PartialEq, Eq, Structural)]
pub struct ShootTimer(pub Timer);

impl Default for ShootTimer {
    fn default() -> (timer: ShootTimer)
        ensures
            timer.0 == (Timer {
                mode: TimerMode::Repeating,
                duration_us: SHOOT_TIMER_PERIOD_US,
                elapsed_us: 0,
                finished: false,
            }),
            timer.0.wf(),
    {
        ShootTimer(Timer::new(SHOOT_TIMER_PERIOD_US, TimerMode::Repeating))
    }
}

/// The one-shot timer that must run out between two shots.
#[derive(Clone, Copy, Debug, PartialEq, Eq, Structural)]
pub struct ShootCooldown {
    pub cooldown_us: u32,
    pub timer: Timer,
}

impl ShootCooldown {
    /// The timer is a well-formed one-shot timer.
    pub open spec fn wf(self) -> bool {
        self.timer.wf() && self.timer.mode == TimerMode::Once
    }

    /// Tests the cooldown's invariant.
    pub fn is_well_formed(&self) -> (ok: bool)
        ensures
            ok == self.wf(),
    {
        let one_shot: bool = match self.timer.mode {
            TimerMode::Once => true,
            TimerMode::Repeating => false,
        };
        self.timer.is_well_formed() && one_shot
    }
}

impl Default for ShootCooldown {
    fn default() -> (cooldown: ShootCooldown)
        ensures
            cooldown == (ShootCooldown {
                cooldown_us: SHOOT_COOLDOWN_US,
                timer: Timer {
                    mode: TimerMode::Once,
                    duration_us: SHOOT_COOLDOWN_US,
                    elapsed_us: 0,
                    finished: false,
                },
            }),
            cooldown.wf(),
    {
        ShootCooldown {
            cooldown_us: SHOOT_COOLDOWN_US,
            timer: Timer::new(SHOOT_COOLDOWN_US, TimerMode::Once),
        }
    }
}

/// Marks an entity as a bullet and holds its lifetime.
#[derive(Clone, Copy, Debug, PartialEq, Eq, Structural)]
pub struct Bullet {
    pub lifetime: Timer,
}

impl Default for Bullet {
    fn default() -> (bullet: Bullet)
        ensures
            bullet.lifetime == (Timer {
                mode: TimerMode::Once,
                duration_us: BULLET_LIFETIME_US,
                elapsed_us: 0,
                finished: false,
            }),
    {
        Bullet { lifetime: Timer::new(BULLET_LIFETIME_US, TimerMode::Once) }
    }
}

/// A bullet with everything it carries in the store.
#[derive(Clone, Copy, Debug, PartialEq, Eq, Structural)]
pub struct BulletBundle {
    pub id: u64,
    pub bullet: Bullet,
    pub translation: Vec2,
    pub previous_translation: Vec2,
    pub linear_velocity: Vec2,
}

impl BulletBundle {
    /// The lifetime is a well-formed one-shot timer of at most the bullet
    /// lifetime.
    pub open spec fn wf(self) -> bool {
        &&& self.bullet.lifetime.wf()
        &&& self.bullet.lifetime.mode == TimerMode::Once
        &&& self.bullet.lifetime.duration_us <= BULLET_LIFETIME_US
    }

    /// Tests the bullet's invariant.
    pub fn is_well_formed(&self) -> (ok: bool)
        ensures
            ok == self.wf(),
    {
        let one_shot: bool = match self.bullet.lifetime.mode {
            TimerMode::Once => true,
            TimerMode::Repeating => false,
        };
        self.bullet.lifetime.is_well_formed() && one_shot && self.bullet.lifetime.duration_us
            <= BULLET_LIFETIME_US
    }

    /// What is left of the bullet's life, in microseconds.
    pub open spec fn remaining_lifetime(self) -> int {
        self.bullet.lifetime.remaining()
    }
}

/// Every bullet of the store is well formed.
pub open spec fn all_bullets_wf(bullets: Seq<BulletBundle>) -> bool {
    forall|i: int| 0 <= i < bullets.len() ==> (#[trigger] bullets[i]).wf()
}

/// The bullet that a ship with the given rendered transform fires: it
/// appears the muzzle offset ahead of the ship along its nose and flies
/// along the nose at bullet speed.
pub open spec fn bullet_from(id: u64, transform: Transform2d) -> BulletBundle {
    let nose = forward_of(transform.rotation as int);
    let muzzle = displaced(
        transform.translation,
        (
            div_trunc(nose.0 * MUZZLE_OFFSET, MICRO as int),
            div_trunc(nose.1 * MUZZLE_OFFSET, MICRO as int),
        ),
    );
    BulletBundle {
        id,
        bullet: Bullet {
            lifetime: Timer {
                mode: TimerMode::Once,
                duration_us: BULLET_LIFETIME_US,
                elapsed_us: 0,
                finished: false,
            },
        },
        translation: muzzle,
        previous_translation: muzzle,
        linear_velocity: scaled(nose, BULLET_SPEED as int),
    }
}

/// Adds the bullet that the ship fires.
pub fn spawn_bullet(
    commands: &mut Vec<BulletBundle>,
    ids: &mut IdAllocator,
    player_transform: &Transform2d,
)
    ensures
        final(commands)@.len() == old(commands)@.len() + 1,
        final(commands)@.drop_last() == old(commands)@,
        final(commands)@.last() == bullet_from(old(ids).next, *player_transform),
        final(commands)@.last().wf(),
        final(ids).next == old(ids).upcoming(1),
{
    let nose = forward(player_transform.rotation);
    let ahead_x: i128 = mul_div(nose.x, MUZZLE_OFFSET, 1_000_000);
    let ahead_y: i128 = mul_div(nose.y, MUZZLE_OFFSET, 1_000_000);
    proof {
        lemma_product_bound(nose.x as int, MUZZLE_OFFSET as int, 1_000_000, 40_000);
        lemma_product_bound(nose.y as int, MUZZLE_OFFSET as int, 1_000_000, 40_000);
    }
    let spawn_offset = Vec2 { x: ahead_x as i64, y: ahead_y as i64 };
    let spawn_position = displace(player_transform.translation, spawn_offset);
    let velocity = scale_to(nose, BULLET_SPEED);
    let id: u64 = ids.allocate();
    commands.push(
        BulletBundle {
            id,
            bullet: Bullet::default(),
            translation: spawn_position,
            previous_translation: spawn_position,
            linear_velocity: velocity,
        },
    );
    assert(commands@.drop_last() =~= old(commands)@);
}

/// A shot is fired in a frame of `dt_us` exactly when the trigger is held,
/// that frame finds the cooldown run out, and there is a ship.
pub open spec fn shot_is_due(
    cooldown: ShootCooldown,
    keyboard: InputSnapshot,
    dt_us: int,
    has_player: bool,
) -> bool {
    keyboard.fire && cooldown.timer.ticked(dt_us).finished && has_player
}

/// Ticks the cooldown and fires a bullet when one is due; a shot starts
/// the cooldown anew.
pub fn shoot_system(
    commands: &mut Vec<BulletBundle>,
    ids: &mut IdAllocator,
    shoot_cooldown: &mut ShootCooldown,
    dt_us: u32,
    keyboard_input: &InputSnapshot,
    player: Option<&Transform2d>,
)
    requires
        old(shoot_cooldown).wf(),
    ensures
        final(shoot_cooldown).wf(),
        final(shoot_cooldown).cooldown_us == old(shoot_cooldown).cooldown_us,
        shot_is_due(*old(shoot_cooldown), *keyboard_input, dt_us as int, player.is_some()) ==> {
            &&& final(commands)@.len() == old(commands)@.len() + 1
            &&& final(commands)@.drop_last() == old(commands)@
            &&& final(commands)@.last() == bullet_from(old(ids).next, *player.unwrap())
            &&& final(commands)@.last().wf()
            &&& final(ids).next == old(ids).upcoming(1)
            &&& final(shoot_cooldown).timer == (Timer {
                mode: TimerMode::Once,
                duration_us: old(shoot_cooldown).cooldown_us,
                elapsed_us: 0,
                finished: false,
            })
        },
        !shot_is_due(*old(shoot_cooldown), *keyboard_input, dt_us as int, player.is_some()) ==> {
            &&& final(commands)@ == old(commands)@
            &&& *final(ids) == *old(ids)
            &&& final(shoot_cooldown).timer == old(shoot_cooldown).timer.ticked(dt_us as int)
        },
{
    shoot_cooldown.timer.tick(dt_us);
    if keyboard_input.fire && shoot_cooldown.timer.finished() {
        if let Some(player_transform) = player {
            spawn_bullet(commands, ids, player_transform);
            shoot_cooldown.timer = Timer::new(shoot_cooldown.cooldown_us, TimerMode::Once);
        }
    }
}

/// While the cooldown has not run out, no shot is due, whatever is held.
pub proof fn lemma_no_shot_during_cooldown(
    cooldown: ShootCooldown,
    keyboard: InputSnapshot,
    dt_us: u32,
    has_player: bool,
)
    requires
        cooldown.wf(),
        !cooldown.timer.finished,
        dt_us < cooldown.timer.remaining(),
    ensures
        !shot_is_due(cooldown, keyboard, dt_us as int, has_player),
{
    lemma_one_shot_runs_down(cooldown.timer, dt_us);
}

/// A bullet after `dt_us` microseconds of its life.
pub open spec fn aged_bullet(b: BulletBundle, dt_us: int) -> BulletBundle {
    BulletBundle { bullet: Bullet { lifetime: b.bullet.lifetime.ticked(dt_us) }, ..b }
}

/// The first `n` bullets after their lifetimes are ticked: those whose
/// lifetime ended are gone, the others are older, in their old order.
pub open spec fn unexpired(bullets: Seq<BulletBundle>, dt_us: int, n: int) -> Seq<BulletBundle>
    decreases n,
{
    if n <= 0 {
        Seq::empty()
    } else if bullets[n - 1].bullet.lifetime.ticked(dt_us).finished {
        unexpired(bullets, dt_us, n - 1)
    } else {
        unexpired(bullets, dt_us, n - 1).push(aged_bullet(bullets[n - 1], dt_us))
    }
}

/// Ages every bullet by `dt_us` microseconds and removes those whose
/// lifetime has ended.
pub fn bullet_lifetime_system(bullets: &mut Vec<BulletBundle>, dt_us: u32)
    requires
        forall|i: int| 0 <= i < old(bullets)@.len() ==> (#[trigger] old(bullets)@[i]).wf(),
    ensures
        final(bullets)@ == unexpired(old(bullets)@, dt_us as int, old(bullets)@.len() as int),
        final(bullets)@.len() <= old(bullets)@.len(),
        forall|i: int| 0 <= i < final(bullets)@.len() ==> (#[trigger] final(bullets)@[i]).wf(),
{
    let mut kept: Vec<BulletBundle> = Vec::new();
    let mut i: usize = 0;
    while i < bullets.len()
        invariant
            i <= bullets@.len(),
            bullets@ == old(bullets)@,
            forall|k: int| 0 <= k < bullets@.len() ==> (#[trigger] bullets@[k]).wf(),
            kept@ == unexpired(bullets@, dt_us as int, i as int),
            kept@.len() <= i,
            forall|k: int| 0 <= k < kept@.len() ==> (#[trigger] kept@[k]).wf(),
        decreases bullets@.len() - i,
    {
        let mut b: BulletBundle = bullets[i];
        b.bullet.lifetime.tick(dt_us);
        if !b.bullet.lifetime.finished() {
            kept.push(b);
        }
        i = i + 1;
    }
    *bullets = kept;
}

/// A bullet's remaining lifetime never grows and stays between zero and
/// the bullet lifetime.
pub proof fn lemma_bullet_lifetime_runs_down(b: BulletBundle, dt_us: u32)
    requires
        b.wf(),
    ensures
        aged_bullet(b, dt_us as int).wf(),
        0 <= aged_bullet(b, dt_us as int).remaining_lifetime() <= b.remaining_lifetime()
            <= BULLET_LIFETIME_US,
{
    lemma_one_shot_runs_down(b.bullet.lifetime, dt_us);
}

/// A bullet after flying for `dt_us` microseconds: it remembers where it
/// was and moves by its velocity, undamped.
pub open spec fn flown_bullet(b: BulletBundle, dt_us: int) -> BulletBundle {
    BulletBundle {
        previous_translation: b.translation,
        translation: moved_position(b.translation, b.linear_velocity, dt_us),
        ..b
    }
}

/// Moves every bullet by its velocity for `dt_us` microseconds.
pub fn integrate_bullets(bullets: &mut Vec<BulletBundle>, dt_us: u32)
    ensures
        final(bullets)@.len() == old(bullets)@.len(),
        forall|i: int|
            0 <= i < old(bullets)@.len() ==> #[trigger] final(bullets)@[i] == flown_bullet(
                old(bullets)@[i],
                dt_us as int,
            ),
{
    let mut i: usize = 0;
    while i < bullets.len()
        invariant
            i <= bullets@.len(),
            bullets@.len() == old(bullets)@.len(),
            forall|k: int|
                0 <= k < i ==> #[trigger] bullets@[k] == flown_bullet(
                    old(bullets)@[k],
                    dt_us as int,
                ),
            forall|k: int| i <= k < bullets@.len() ==> bullets@[k] == old(bullets)@[k],
        decreases bullets@.len() - i,
    {
        let mut b: BulletBundle = bullets[i];
        b.previous_translation = b.translation;
        b.translation = integrate_position(b.translation, b.linear_velocity, dt_us);
        bullets.set(i, b);
        i = i + 1;
    }
}

/// The identifiers of the store ascend strictly and lie below `bound`: no
/// two bullets share one, and none has yet to be handed out.
#[verifier::opaque]
pub open spec fn bullets_ascend(bullets: Seq<BulletBundle>, bound: int) -> bool {
    &&& forall|i: int, j: int|
        0 <= i < j < bullets.len() ==> (#[trigger] bullets[i]).id < (#[trigger] bullets[j]).id
    &&& forall|i: int| 0 <= i < bullets.len() ==> (#[trigger] bullets[i]).id < bound
}

/// Ending the bullets whose time is up keeps the identifiers in ascending
/// order.
pub proof fn lemma_unexpired_ascend(bullets: Seq<BulletBundle>, dt_us: int, n: int, bound: int)
    requires
        bullets_ascend(bullets, bound),
        0 <= n <= bullets.len(),
    ensures
        bullets_ascend(unexpired(bullets, dt_us, n), bound),
        forall|k: int|
            0 <= k < unexpired(bullets, dt_us, n).len() && n > 0 ==> (#[trigger] unexpired(
                bullets,
                dt_us,
                n,
            )[k]).id <= bullets[n - 1].id,
    decreases n,
{
    reveal(bullets_ascend);
    if n > 0 {
        lemma_unexpired_ascend(bullets, dt_us, n - 1, bound);
        let earlier = unexpired(bullets, dt_us, n - 1);
        let now = unexpired(bullets, dt_us, n);
        assert forall|k: int| 0 <= k < now.len() implies (#[trigger] now[k]).id <= bullets[n
            - 1].id by {
            if k < earlier.len() {
                assert(now[k] == earlier[k]);
            }
        }
        assert forall|i: int, j: int| 0 <= i < j < now.len() implies (#[trigger] now[i]).id < (
        #[trigger] now[j]).id by {
            if j < earlier.len() {
                assert(now[i] == earlier[i] && now[j] == earlier[j]);
            } else {
                assert(now[i] == earlier[i]);
            }
        }
    }
}

/// A bullet with a fresh identifier appended to the store keeps its
/// identifiers in ascending order.
pub proof fn lemma_pushed_bullet_ascends(
    before: Seq<BulletBundle>,
    after: Seq<BulletBundle>,
    id: u64,
)
    requires
        after.len() == before.len() + 1,
        after.drop_last() == before,
        after.last().id == id,
        id < u64::MAX,
        bullets_ascend(before, id as int),
    ensures
        bullets_ascend(after, id + 1),
{
    reveal(bullets_ascend);
    assert forall|i: int| 0 <= i < before.len() implies after[i] == before[i] by {
        assert(after.drop_last()[i] == after[i]);
    }
}

/// Identifiers below a bound lie below every larger bound, and an empty
/// store is in order.
pub proof fn lemma_bullets_ascend_widens(bullets: Seq<BulletBundle>, bound: int, wider: int)
    requires
        bullets_ascend(bullets, bound),
        bound <= wider,
    ensures
        bullets_ascend(bullets, wider),
        bullets_ascend(Seq::empty(), wider),
{
    reveal(bullets_ascend);
}

/// Bullets that keep their identifiers, one for one, keep their order.
pub proof fn lemma_bullets_ascend_carries(
    before: Seq<BulletBundle>,
    after: Seq<BulletBundle>,
    bound: int,
)
    requires
        bullets_ascend(before, bound),
        after.len() == before.len(),
        forall|i: int| 0 <= i < before.len() ==> (#[trigger] after[i]).id == before[i].id,
    ensures
        bullets_ascend(after, bound),
{
    reveal(bullets_ascend);
}

} // verus!
