//! Short-lived cosmetic particles: explosion bursts and engine exhaust.

use vstd::prelude::*;
use crate::fixed::{
    abs, clamp_abs, clamp_abs_wide, displace, displaced, div_trunc, div_trunc_wide,
    lemma_product_bound, mul_div, scale_to, scaled, Vec2, MICRO, SPEED_LIMIT,
};
use crate::timing::{Timer, TimerMode};
use crate::trig::{direction, direction_of, forward, forward_of};
use crate::entity::{lemma_upcoming_step, Color, IdAllocator, Transform2d};
use crate::physics::{
    integrate_position, moved_position, InputAccumulator, MovementInputAccumulator,
    PhysicalRotation, TRILLION,
};
use crate::rng::RandomStream;

verus! {

/// The drag of every particle, per second.
pub const PARTICLE_DRAG: i64 = 2;

/// Largest drag a particle may have, per second.
pub const DRAG_LIMIT: i64 = 1_000;

/// A full turn in microradians, rounded down.
pub const TURN_URAD: i64 = 6_283_185;

/// Largest asteroid radius a burst is sized for.
pub const BURST_RADIUS_LIMIT: i64 = 1_000_000_000;

/// How far behind the ship's centre the exhaust appears.
pub const EXHAUST_OFFSET: i64 = 20_000;

/// The lifetime and size of a particle.
#[derive(Clone, Copy, Debug, PartialEq, Eq, Structural)]
pub struct Particle {
    pub lifetime: Timer,
    pub initial_size: i64,
    pub fade_rate: i64,
}

impl Particle {
    /// A particle that lives `lifetime_us` microseconds. Its fade rate is
    /// the inverse of its lifetime, in millionths per second.
    pub fn new(lifetime_us: u32, size: i64) -> (particle: Particle)
        requires
            lifetime_us > 0,
        ensures
            particle == Self::made(lifetime_us, size),
            particle.lifetime.wf(),
    {
        Particle {
            lifetime: Timer::new(lifetime_us, TimerMode::Once),
            initial_size: size,
            fade_rate: 1_000_000_000_000 / (lifetime_us as i64),
        }
    }

    /// The particle that `new` makes.
    pub open spec fn made(lifetime_us: u32, size: i64) -> Particle {
        Particle {
            lifetime: Timer {
                mode: TimerMode::Once,
                duration_us: lifetime_us,
                elapsed_us: 0,
                finished: false,
            },
            initial_size: size,
            fade_rate: (TRILLION as int / (lifetime_us as int)) as i64,
        }
    }
}

/// The velocity of a particle and the drag that slows it.
#[derive(Clone, Copy, Debug, PartialEq, Eq, Structural)]
pub struct ParticleVelocity {
    pub velocity: Vec2,
    pub drag: i64,
}

impl ParticleVelocity {
    /// A velocity with its drag.
    pub fn new(velocity: Vec2, drag: i64) -> (motion: ParticleVelocity)
        ensures
            motion == (ParticleVelocity { velocity, drag }),
    {
        ParticleVelocity { velocity, drag }
    }
}

/// A particle with everything it carries in the store.
#[derive(Clone, Copy, Debug, PartialEq, Eq, Structural)]
pub struct ParticleBundle {
    pub id: u64,
    pub particle: Particle,
    pub motion: ParticleVelocity,
    pub translation: Vec2,
    pub scale: i64,
    pub color: Color,
}

impl ParticleBundle {
    /// The lifetime is a well-formed one-shot timer, and velocity and drag
    /// are within their limits.
    pub open spec fn wf(self) -> bool {
        &&& self.particle.lifetime.wf()
        &&& self.particle.lifetime.mode == TimerMode::Once
        &&& self.motion.velocity.within(SPEED_LIMIT as int)
        &&& 0 <= self.motion.drag <= DRAG_LIMIT
    }

    /// Tests the particle's invariant.
    pub fn is_well_formed(&self) -> (ok: bool)
        ensures
            ok == self.wf(),
    {
        let one_shot: bool = match self.particle.lifetime.mode {
            TimerMode::Once => true,
            TimerMode::Repeating => false,
        };
        self.particle.lifetime.is_well_formed() && one_shot && self.motion.velocity.is_within(
            SPEED_LIMIT,
        ) && 0 <= self.motion.drag && self.motion.drag <= DRAG_LIMIT
    }
}

/// Every particle of the store is well formed.
pub open spec fn all_particles_wf(particles: Seq<ParticleBundle>) -> bool {
    forall|i: int| 0 <= i < particles.len() ==> (#[trigger] particles[i]).wf()
}

/// A colour channel brightened or darkened by `tint` millionths, capped at
/// full intensity.
pub open spec fn tinted_channel(channel: int, tint: int) -> int {
    let product = channel * tint / (MICRO as int);
    if product > MICRO {
        MICRO as int
    } else {
        product
    }
}

/// An opaque colour with each channel of `base` tinted.
pub open spec fn tinted(base: Color, tint: int) -> Color {
    Color {
        red: tinted_channel(base.red as int, tint) as u32,
        green: tinted_channel(base.green as int, tint) as u32,
        blue: tinted_channel(base.blue as int, tint) as u32,
        alpha: 1_000_000,
    }
}

/// Tints one colour channel.
pub fn tint_channel(channel: u32, tint: u32) -> (result: u32)
    ensures
        result == tinted_channel(channel as int, tint as int),
        result <= MICRO,
{
    assert(channel * tint <= 0xFFFF_FFFF * 0xFFFF_FFFF) by (nonlinear_arith)
        requires
            channel <= 0xFFFF_FFFF,
            tint <= 0xFFFF_FFFF,
    ;
    let product: u64 = (channel as u64) * (tint as u64) / 1_000_000;
    if product > 1_000_000 {
        1_000_000
    } else {
        product as u32
    }
}

/// Tints a colour and makes it opaque.
pub fn tint(base: Color, amount: u32) -> (color: Color)
    ensures
        color == tinted(base, amount as int),
        color.wf(),
{
    Color {
        red: tint_channel(base.red, amount),
        green: tint_channel(base.green, amount),
        blue: tint_channel(base.blue, amount),
        alpha: 1_000_000,
    }
}

/// The random choices that shape one explosion particle.
#[derive(Clone, Copy, Debug, PartialEq, Eq, Structural)]
pub struct ExplosionDraw {
    pub size: i64,
    pub lifetime_us: u32,
    pub angle: i64,
    pub speed: i64,
    pub tint: u32,
    pub offset: Vec2,
}

impl ExplosionDraw {
    /// Each choice lies in its range: size from one to four pixels,
    /// lifetime from half a second to one and a half, any direction, speed
    /// from 50 to 150 pixels per second, tint from 0.8 to 1.2, and an
    /// offset below five pixels on each axis.
    pub open spec fn wf(self) -> bool {
        &&& 1_000 <= self.size < 4_000
        &&& 500_000 <= self.lifetime_us < 1_500_000
        &&& 0 <= self.angle < TURN_URAD
        &&& 50_000 <= self.speed < 150_000
        &&& 800_000 <= self.tint < 1_200_000
        &&& -5_000 <= self.offset.x < 5_000
        &&& -5_000 <= self.offset.y < 5_000
    }
}

/// The explosion particle that the given choices shape.
pub open spec fn explosion_particle(
    id: u64,
    position: Vec2,
    base_color: Color,
    draw: ExplosionDraw,
) -> ParticleBundle {
    ParticleBundle {
        id,
        particle: Particle::made(draw.lifetime_us, draw.size),
        motion: ParticleVelocity {
            velocity: scaled(direction_of(draw.angle as int), draw.speed as int),
            drag: PARTICLE_DRAG,
        },
        translation: displaced(position, (draw.offset.x as int, draw.offset.y as int)),
        scale: MICRO,
        color: tinted(base_color, draw.tint as int),
    }
}

/// `p` is an explosion particle around `position` in a tint of
/// `base_color`, shaped by some admissible choices.
pub open spec fn is_explosion_particle(
    p: ParticleBundle,
    position: Vec2,
    base_color: Color,
) -> bool {
    exists|draw: ExplosionDraw|
        draw.wf() && p == #[trigger] explosion_particle(p.id, position, base_color, draw)
}

/// Shapes one explosion particle from the given choices.
pub fn make_explosion_particle(
    id: u64,
    position: Vec2,
    base_color: Color,
    draw: ExplosionDraw,
) -> (p: ParticleBundle)
    requires
        draw.lifetime_us > 0,
    ensures
        p == explosion_particle(id, position, base_color, draw),
        p.wf(),
        draw.wf() ==> is_explosion_particle(p, position, base_color),
{
    let heading = direction(draw.angle);
    ParticleBundle {
        id,
        particle: Particle::new(draw.lifetime_us, draw.size),
        motion: ParticleVelocity::new(scale_to(heading, draw.speed), PARTICLE_DRAG),
        translation: displace(position, draw.offset),
        scale: MICRO,
        color: tint(base_color, draw.tint),
    }
}

/// Adds `particle_count` explosion particles around `position`, each in
/// its own tint of `base_color`.
pub fn spawn_explosion_particles(
    commands: &mut Vec<ParticleBundle>,
    ids: &mut IdAllocator,
    position: Vec2,
    particle_count: usize,
    base_color: Color,
    rng: &mut RandomStream,
)
    ensures
        final(commands)@.len() == old(commands)@.len() + particle_count,
        final(commands)@.subrange(0, old(commands)@.len() as int) == old(commands)@,
        forall|j: int|
            0 <= j < particle_count ==> {
                &&& is_explosion_particle(
                    #[trigger] final(commands)@[old(commands)@.len() + j],
                    position,
                    base_color,
                )
                &&& final(commands)@[old(commands)@.len() + j].wf()
                &&& final(commands)@[old(commands)@.len() + j].id == old(ids).upcoming(j)
            },
        final(ids).next == old(ids).upcoming(particle_count as int),
{
    let ghost before = commands@;
    let mut made: usize = 0;
    while made < particle_count
        invariant
            made <= particle_count,
            commands@.len() == before.len() + made,
            commands@.subrange(0, before.len() as int) == before,
            forall|j: int|
                0 <= j < made ==> {
                    &&& is_explosion_particle(
                        #[trigger] commands@[before.len() + j],
                        position,
                        base_color,
                    )
                    &&& commands@[before.len() + j].wf()
                    &&& commands@[before.len() + j].id == old(ids).upcoming(j)
                },
            ids.next == old(ids).upcoming(made as int),
        decreases particle_count - made,
    {
        let size: i64 = rng.range(1_000, 4_000);
        let lifetime: i64 = rng.range(500_000, 1_500_000);
        let angle: i64 = rng.range(0, TURN_URAD);
        let speed: i64 = rng.range(50_000, 150_000);
        let variation: i64 = rng.range(800_000, 1_200_000);
        let offset = Vec2 { x: rng.range(-5_000, 5_000), y: rng.range(-5_000, 5_000) };
        let draw = ExplosionDraw {
            size,
            lifetime_us: lifetime as u32,
            angle,
            speed,
            tint: variation as u32,
            offset,
        };
        proof {
            lemma_upcoming_step(*old(ids), made as int);
        }
        let id: u64 = ids.allocate();
        let p = make_explosion_particle(id, position, base_color, draw);
        let ghost earlier = commands@;
        commands.push(p);
        proof {
            assert(commands@.subrange(0, before.len() as int) =~= before);
            assert forall|j: int| 0 <= j < made + 1 implies {
                &&& is_explosion_particle(
                    #[trigger] commands@[before.len() + j],
                    position,
                    base_color,
                )
                &&& commands@[before.len() + j].wf()
                &&& commands@[before.len() + j].id == old(ids).upcoming(j)
            } by {
                if j < made {
                    assert(commands@[before.len() + j] == earlier[before.len() + j]);
                }
            }
        }
        made = made + 1;
    }
}

/// A velocity component after drag has acted for `dt_us` microseconds: it
/// is multiplied by one minus drag times the elapsed seconds.
pub open spec fn decayed(v: int, drag: int, dt_us: int) -> int {
    clamp_abs(div_trunc(v * (MICRO - drag * dt_us), MICRO as int), SPEED_LIMIT as int)
}

/// The scale, in millionths, of a particle that has lived the given share
/// of its lifetime: it shrinks to half and never below a tenth.
pub open spec fn scale_at(fraction: int) -> int {
    if MICRO - fraction / 2 < 100_000 {
        100_000
    } else {
        MICRO - fraction / 2
    }
}

/// The opacity, in millionths, of a particle that has lived the given
/// share of its lifetime: it fades to nothing.
pub open spec fn alpha_at(fraction: int) -> int {
    if MICRO - fraction < 0 {
        0
    } else {
        MICRO - fraction
    }
}

/// Whether a particle's lifetime ends within the next `dt_us` microseconds.
pub open spec fn expires(p: ParticleBundle, dt_us: int) -> bool {
    p.particle.lifetime.ticked(dt_us).finished
}

/// A particle one update later: older, moved by its velocity, slowed by
/// its drag, smaller and fainter.
pub open spec fn advanced_particle(p: ParticleBundle, dt_us: int) -> ParticleBundle {
    let lifetime = p.particle.lifetime.ticked(dt_us);
    ParticleBundle {
        particle: Particle { lifetime, ..p.particle },
        motion: ParticleVelocity {
            velocity: Vec2 {
                x: decayed(p.motion.velocity.x as int, p.motion.drag as int, dt_us) as i64,
                y: decayed(p.motion.velocity.y as int, p.motion.drag as int, dt_us) as i64,
            },
            drag: p.motion.drag,
        },
        translation: moved_position(p.translation, p.motion.velocity, dt_us),
        scale: scale_at(lifetime.fraction()) as i64,
        color: Color { alpha: alpha_at(lifetime.fraction()) as u32, ..p.color },
        ..p
    }
}

/// The first `n` particles after an update: those whose lifetime ended are
/// gone, the others are advanced, in their old order.
pub open spec fn surviving(particles: Seq<ParticleBundle>, dt_us: int, n: int) -> Seq<
    ParticleBundle,
>
    decreases n,
{
    if n <= 0 {
        Seq::empty()
    } else if expires(particles[n - 1], dt_us) {
        surviving(particles, dt_us, n - 1)
    } else {
        surviving(particles, dt_us, n - 1).push(advanced_particle(particles[n - 1], dt_us))
    }
}

/// Slows one velocity component by drag.
fn decay_axis(v: i64, drag: i64, dt_us: u32) -> (result: i64)
    requires
        abs(v as int) <= SPEED_LIMIT,
        0 <= drag <= DRAG_LIMIT,
    ensures
        result == decayed(v as int, drag as int, dt_us as int),
        abs(result as int) <= SPEED_LIMIT,
{
    proof {
        lemma_product_bound(drag as int, dt_us as int, 1_000, 0x1_0000_0000);
    }
    let factor: i128 = 1_000_000 - (drag as i128) * (dt_us as i128);
    proof {
        lemma_product_bound(v as int, factor as int, 1_000_000_000, 4_294_968_296_000);
    }
    let slowed: i128 = div_trunc_wide((v as i128) * factor, 1_000_000);
    clamp_abs_wide(slowed, SPEED_LIMIT)
}

/// Advances one particle that survives the update.
pub fn advance_particle(p: &ParticleBundle, dt_us: u32) -> (next: ParticleBundle)
    requires
        p.wf(),
    ensures
        next == advanced_particle(*p, dt_us as int),
        next.wf(),
{
    let mut lifetime = p.particle.lifetime;
    lifetime.tick(dt_us);
    let fraction: u32 = lifetime.elapsed_fraction();
    let shrunk: i64 = 1_000_000 - (fraction as i64) / 2;
    let faded: i64 = 1_000_000 - (fraction as i64);
    ParticleBundle {
        id: p.id,
        particle: Particle {
            lifetime,
            initial_size: p.particle.initial_size,
            fade_rate: p.particle.fade_rate,
        },
        motion: ParticleVelocity {
            velocity: Vec2 {
                x: decay_axis(p.motion.velocity.x, p.motion.drag, dt_us),
                y: decay_axis(p.motion.velocity.y, p.motion.drag, dt_us),
            },
            drag: p.motion.drag,
        },
        translation: integrate_position(p.translation, p.motion.velocity, dt_us),
        scale: if shrunk < 100_000 {
            100_000
        } else {
            shrunk
        },
        color: Color {
            red: p.color.red,
            green: p.color.green,
            blue: p.color.blue,
            alpha: if faded < 0 {
                0
            } else {
                faded as u32
            },
        },
    }
}

/// Ages every particle by `dt_us` microseconds: removes those whose
/// lifetime has ended and advances the others.
pub fn update_particles(particles: &mut Vec<ParticleBundle>, dt_us: u32)
    requires
        forall|i: int| 0 <= i < old(particles)@.len() ==> (#[trigger] old(particles)@[i]).wf(),
    ensures
        final(particles)@ == surviving(old(particles)@, dt_us as int, old(particles)@.len() as int),
        final(particles)@.len() <= old(particles)@.len(),
        forall|i: int| 0 <= i < final(particles)@.len() ==> (#[trigger] final(particles)@[i]).wf(),
{
    let mut kept: Vec<ParticleBundle> = Vec::new();
    let mut i: usize = 0;
    while i < particles.len()
        invariant
            i <= particles@.len(),
            particles@ == old(particles)@,
            forall|k: int| 0 <= k < particles@.len() ==> (#[trigger] particles@[k]).wf(),
            kept@ == surviving(particles@, dt_us as int, i as int),
            kept@.len() <= i,
            forall|k: int| 0 <= k < kept@.len() ==> (#[trigger] kept@[k]).wf(),
        decreases particles@.len() - i,
    {
        let p: ParticleBundle = particles[i];
        let mut lifetime = p.particle.lifetime;
        lifetime.tick(dt_us);
        if !lifetime.finished() {
            let next = advance_particle(&p, dt_us);
            kept.push(next);
        }
        i = i + 1;
    }
    *particles = kept;
}

/// Age never restores a particle: with more of its lifetime elapsed it is
/// no larger and no more opaque.
pub proof fn lemma_particle_fades(earlier: int, later: int)
    requires
        earlier <= later,
    ensures
        scale_at(later) <= scale_at(earlier),
        alpha_at(later) <= alpha_at(earlier),
{
}

/// A one-shot lifetime's elapsed share never decreases from tick to tick,
/// and what is left of it never grows.
pub proof fn lemma_lifetime_share_grows(lifetime: Timer, dt_us: u32)
    requires
        lifetime.wf(),
        lifetime.mode == TimerMode::Once,
    ensures
        lifetime.fraction() <= lifetime.ticked(dt_us as int).fraction(),
        0 <= lifetime.ticked(dt_us as int).remaining() <= lifetime.remaining(),
{
    let next = lifetime.ticked(dt_us as int);
    if lifetime.duration_us > 0 {
        assert(lifetime.elapsed_us * MICRO <= next.elapsed_us * MICRO) by (nonlinear_arith)
            requires
                lifetime.elapsed_us <= next.elapsed_us,
        ;
        vstd::arithmetic::div_mod::lemma_div_is_ordered(
            lifetime.elapsed_us * MICRO,
            next.elapsed_us * MICRO,
            lifetime.duration_us as int,
        );
    }
}

/// The base colour of explosion particles: orange.
pub open spec fn explosion_color() -> Color {
    Color { red: 900_000, green: 600_000, blue: 200_000, alpha: 1_000_000 }
}

/// The base colour of spark particles: near white.
pub open spec fn spark_color() -> Color {
    Color { red: 1_000_000, green: 1_000_000, blue: 800_000, alpha: 1_000_000 }
}

/// The colour of engine exhaust: a fixed orange.
pub open spec fn engine_color() -> Color {
    Color { red: 1_000_000, green: 500_000, blue: 200_000, alpha: 1_000_000 }
}

/// The number of explosion particles for an asteroid of the given radius:
/// eight for every ten pixels, rounded down.
pub open spec fn explosion_count(radius: int) -> int {
    if radius <= 0 {
        0
    } else {
        radius * 8 / 10_000
    }
}

/// The number of spark particles for an asteroid of the given radius:
/// five for every fifteen pixels, rounded down.
pub open spec fn spark_count(radius: int) -> int {
    if radius <= 0 {
        0
    } else {
        radius * 5 / 15_000
    }
}

/// The number of particles in the burst for an asteroid of the given radius.
pub open spec fn burst_size(radius: int) -> int {
    explosion_count(radius) + spark_count(radius)
}

/// `ps` is the burst of a destroyed asteroid of the given radius at
/// `position`: first the explosion particles, then the sparks, with
/// consecutive identifiers starting at the next of `ids`.
pub open spec fn is_burst(
    ps: Seq<ParticleBundle>,
    position: Vec2,
    radius: int,
    ids: IdAllocator,
) -> bool {
    &&& ps.len() == burst_size(radius)
    &&& forall|j: int|
        0 <= j < ps.len() ==> {
            &&& is_explosion_particle(
                #[trigger] ps[j],
                position,
                if j < explosion_count(radius) {
                    explosion_color()
                } else {
                    spark_color()
                },
            )
            &&& ps[j].wf()
            &&& ps[j].id == ids.upcoming(j)
        }
}

/// Adds the burst of a destroyed asteroid: explosion particles and sparks,
/// as many as its radius calls for.
pub fn spawn_asteroid_destruction_particles(
    commands: &mut Vec<ParticleBundle>,
    ids: &mut IdAllocator,
    position: Vec2,
    asteroid_size: i64,
    rng: &mut RandomStream,
)
    requires
        asteroid_size <= BURST_RADIUS_LIMIT,
    ensures
        final(commands)@.len() == old(commands)@.len() + burst_size(asteroid_size as int),
        final(commands)@.subrange(0, old(commands)@.len() as int) == old(commands)@,
        is_burst(
            final(commands)@.subrange(old(commands)@.len() as int, final(commands)@.len() as int),
            position,
            asteroid_size as int,
            *old(ids),
        ),
        final(ids).next == old(ids).upcoming(burst_size(asteroid_size as int)),
{
    let particle_count: usize = if asteroid_size <= 0 {
        0
    } else {
        (asteroid_size * 8 / 10_000) as usize
    };
    let base_color = Color { red: 900_000, green: 600_000, blue: 200_000, alpha: 1_000_000 };
    spawn_explosion_particles(commands, ids, position, particle_count, base_color, rng);
    let ghost middle = commands@;
    let ghost middle_ids = *ids;
    let sparks_count: usize = if asteroid_size <= 0 {
        0
    } else {
        (asteroid_size * 5 / 15_000) as usize
    };
    let sparks = Color { red: 1_000_000, green: 1_000_000, blue: 800_000, alpha: 1_000_000 };
    spawn_explosion_particles(commands, ids, position, sparks_count, sparks, rng);
    proof {
        let start = old(commands)@.len() as int;
        let burst = commands@.subrange(start, commands@.len() as int);
        assert(commands@.subrange(0, start) =~= middle.subrange(0, start));
        assert forall|j: int| 0 <= j < burst.len() implies {
            &&& is_explosion_particle(
                #[trigger] burst[j],
                position,
                if j < explosion_count(asteroid_size as int) {
                    explosion_color()
                } else {
                    spark_color()
                },
            )
            &&& burst[j].wf()
            &&& burst[j].id == old(ids).upcoming(j)
        } by {
            if j < particle_count {
                assert(commands@.subrange(0, middle.len() as int)[start + j] == middle[start + j]);
                assert(burst[j] == middle[start + j]);
            } else {
                let k = j - particle_count;
                assert(burst[j] == commands@[middle.len() + k]);
                assert(middle_ids.upcoming(k) == old(ids).upcoming(j));
            }
        }
    }
}

/// The random choices that shape one exhaust particle.
#[derive(Clone, Copy, Debug, PartialEq, Eq, Structural)]
pub struct EngineDraw {
    pub size: i64,
    pub lifetime_us: u32,
    pub variance: Vec2,
    pub speed: i64,
}

impl EngineDraw {
    /// Each choice lies in its range: size from one to three pixels,
    /// lifetime from 0.2 to 0.4 seconds, a variance below 0.2 on each
    /// axis, and speed from 60 to 100 pixels per second.
    pub open spec fn wf(self) -> bool {
        &&& 1_000 <= self.size < 3_000
        &&& 200_000 <= self.lifetime_us < 400_000
        &&& -200_000 <= self.variance.x < 200_000
        &&& -200_000 <= self.variance.y < 200_000
        &&& 60_000 <= self.speed < 100_000
    }
}

/// The exhaust particle that the given choices shape: it starts at
/// `position` and travels along `direction`, a vector of millionths,
/// disturbed by the variance.
pub open spec fn engine_particle(
    id: u64,
    position: Vec2,
    direction: Vec2,
    draw: EngineDraw,
) -> ParticleBundle {
    let disturbed = displaced(direction, (draw.variance.x as int, draw.variance.y as int));
    ParticleBundle {
        id,
        particle: Particle::made(draw.lifetime_us, draw.size),
        motion: ParticleVelocity {
            velocity: scaled((disturbed.x as int, disturbed.y as int), draw.speed as int),
            drag: PARTICLE_DRAG,
        },
        translation: position,
        scale: MICRO,
        color: engine_color(),
    }
}

/// `p` is an exhaust particle at `position` travelling along `direction`,
/// shaped by some admissible choices.
pub open spec fn is_engine_particle(p: ParticleBundle, position: Vec2, direction: Vec2) -> bool {
    exists|draw: EngineDraw|
        draw.wf() && p == #[trigger] engine_particle(p.id, position, direction, draw)
}

/// Shapes one exhaust particle from the given choices.
pub fn make_engine_particle(id: u64, position: Vec2, direction: Vec2, draw: EngineDraw) -> (p:
    ParticleBundle)
    requires
        draw.lifetime_us > 0,
    ensures
        p == engine_particle(id, position, direction, draw),
        p.wf(),
        draw.wf() ==> is_engine_particle(p, position, direction),
{
    let disturbed = displace(direction, draw.variance);
    ParticleBundle {
        id,
        particle: Particle::new(draw.lifetime_us, draw.size),
        motion: ParticleVelocity::new(scale_to(disturbed, draw.speed), PARTICLE_DRAG),
        translation: position,
        scale: MICRO,
        color: Color { red: 1_000_000, green: 500_000, blue: 200_000, alpha: 1_000_000 },
    }
}

/// Adds one exhaust particle at `position`, travelling along `direction`
/// with a slight random variation.
pub fn spawn_engine_particle(
    commands: &mut Vec<ParticleBundle>,
    ids: &mut IdAllocator,
    position: Vec2,
    direction: Vec2,
    rng: &mut RandomStream,
)
    ensures
        final(commands)@.len() == old(commands)@.len() + 1,
        final(commands)@.drop_last() == old(commands)@,
        is_engine_particle(final(commands)@.last(), position, direction),
        final(commands)@.last().wf(),
        final(commands)@.last().id == old(ids).next,
        final(ids).next == old(ids).upcoming(1),
{
    let size: i64 = rng.range(1_000, 3_000);
    let lifetime: i64 = rng.range(200_000, 400_000);
    let variance = Vec2 { x: rng.symmetric(200_000), y: rng.symmetric(200_000) };
    let speed: i64 = rng.range(60_000, 100_000);
    let draw = EngineDraw { size, lifetime_us: lifetime as u32, variance, speed };
    let id: u64 = ids.allocate();
    let p = make_engine_particle(id, position, direction, draw);
    commands.push(p);
    assert(commands@.drop_last() =~= old(commands)@);
}

/// Where the exhaust of a ship at `translation`, turned by `rotation`,
/// appears: the exhaust offset behind its centre.
pub open spec fn exhaust_position(translation: Vec2, rotation: int) -> Vec2 {
    let nose = forward_of(rotation);
    displaced(
        translation,
        (
            -div_trunc(nose.0 * EXHAUST_OFFSET, MICRO as int),
            -div_trunc(nose.1 * EXHAUST_OFFSET, MICRO as int),
        ),
    )
}

/// The direction opposite to the nose of a ship turned by `rotation`.
pub open spec fn exhaust_direction(rotation: int) -> Vec2 {
    let nose = forward_of(rotation);
    Vec2 { x: (-nose.0) as i64, y: (-nose.1) as i64 }
}

/// Emits one exhaust particle behind the ship while forward thrust is
/// accumulated; without it, nothing.
pub fn engine_particle_system(
    commands: &mut Vec<ParticleBundle>,
    ids: &mut IdAllocator,
    input_acc: &MovementInputAccumulator,
    transform: &Transform2d,
    rotation: &PhysicalRotation,
    rng: &mut RandomStream,
)
    ensures
        input_acc.value.y > 0 ==> {
            &&& final(commands)@.len() == old(commands)@.len() + 1
            &&& final(commands)@.drop_last() == old(commands)@
            &&& is_engine_particle(
                final(commands)@.last(),
                exhaust_position(transform.translation, rotation.0 as int),
                exhaust_direction(rotation.0 as int),
            )
            &&& final(commands)@.last().wf()
            &&& final(commands)@.last().id == old(ids).next
            &&& final(ids).next == old(ids).upcoming(1)
        },
        input_acc.value.y <= 0 ==> final(commands)@ == old(commands)@ && *final(ids) == *old(ids),
{
    let input = input_acc.get();
    if input.y > 0 {
        let nose = forward(rotation.0);
        let back_x: i128 = mul_div(nose.x, EXHAUST_OFFSET, 1_000_000);
        let back_y: i128 = mul_div(nose.y, EXHAUST_OFFSET, 1_000_000);
        proof {
            lemma_product_bound(nose.x as int, EXHAUST_OFFSET as int, 1_000_000, 20_000);
            lemma_product_bound(nose.y as int, EXHAUST_OFFSET as int, 1_000_000, 20_000);
        }
        let offset = Vec2 { x: (-back_x) as i64, y: (-back_y) as i64 };
        let spawn_pos = displace(transform.translation, offset);
        let opposite = Vec2 { x: -nose.x, y: -nose.y };
        spawn_engine_particle(commands, ids, spawn_pos, opposite, rng);
    }
}

/// The identifiers of the store ascend strictly and lie below `bound`: no
/// two particles share one, and none has yet to be handed out.
#[verifier::opaque]
pub open spec fn particles_ascend(particles: Seq<ParticleBundle>, bound: int) -> bool {
    &&& forall|i: int, j: int|
        0 <= i < j < particles.len() ==> (#[trigger] particles[i]).id < (#[trigger] particles[j]).id
    &&& forall|i: int| 0 <= i < particles.len() ==> (#[trigger] particles[i]).id < bound
}

/// Ageing keeps the identifiers in ascending order.
pub proof fn lemma_surviving_ascend(
    particles: Seq<ParticleBundle>,
    dt_us: int,
    n: int,
    bound: int,
)
    requires
        particles_ascend(particles, bound),
        0 <= n <= particles.len(),
    ensures
        particles_ascend(surviving(particles, dt_us, n), bound),
        forall|k: int|
            0 <= k < surviving(particles, dt_us, n).len() && n < particles.len() ==> (
            #[trigger] surviving(particles, dt_us, n)[k]).id < particles[n].id,
        forall|k: int|
            0 <= k < surviving(particles, dt_us, n).len() && n > 0 ==> (#[trigger] surviving(
                particles,
                dt_us,
                n,
            )[k]).id <= particles[n - 1].id,
    decreases n,
{
    reveal(particles_ascend);
    if n > 0 {
        lemma_surviving_ascend(particles, dt_us, n - 1, bound);
        let earlier = surviving(particles, dt_us, n - 1);
        let now = surviving(particles, dt_us, n);
        assert forall|k: int| 0 <= k < now.len() implies (#[trigger] now[k]).id <= particles[n
            - 1].id by {
            if k < earlier.len() {
                assert(now[k] == earlier[k]);
            }
        }
        assert forall|i: int, j: int| 0 <= i < j < now.len() implies (#[trigger] now[i]).id < (
        #[trigger] now[j]).id by {
            if j < earlier.len() {
                assert(now[i] == earlier[i] && now[j] == earlier[j]);
            } else {
                assert(now[i] == earlier[i]);
            }
        }
    }
}

/// A run of consecutive fresh identifiers appended to the store keeps its
/// identifiers in ascending order.
pub proof fn lemma_appended_run_ascends(
    before: Seq<ParticleBundle>,
    after: Seq<ParticleBundle>,
    ids: IdAllocator,
    count: int,
)
    requires
        particles_ascend(before, ids.next as int),
        0 <= count,
        after.len() == before.len() + count,
        after.subrange(0, before.len() as int) == before,
        forall|j: int| 0 <= j < count ==> (#[trigger] after[before.len() + j]).id == ids.upcoming(j),
        ids.upcoming(count) < u64::MAX,
    ensures
        particles_ascend(after, ids.upcoming(count) as int),
{
    reveal(particles_ascend);
    assert forall|i: int| 0 <= i < before.len() implies after[i] == before[i] by {
        assert(after.subrange(0, before.len() as int)[i] == after[i]);
    }
    assert forall|i: int| 0 <= i < after.len() implies (#[trigger] after[i]).id < ids.upcoming(
        count,
    ) by {
        if i >= before.len() {
            assert(after[before.len() + (i - before.len())].id == ids.upcoming(i - before.len()));
        }
    }
    assert forall|i: int, j: int| 0 <= i < j < after.len() implies (#[trigger] after[i]).id < (
    #[trigger] after[j]).id by {
        if i >= before.len() {
            assert(after[before.len() + (i - before.len())].id == ids.upcoming(i - before.len()));
        }
        if j >= before.len() {
            assert(after[before.len() + (j - before.len())].id == ids.upcoming(j - before.len()));
        }
    }
}

/// A particle with a fresh identifier appended to the store keeps its
/// identifiers in ascending order.
pub proof fn lemma_pushed_particle_ascends(
    before: Seq<ParticleBundle>,
    after: Seq<ParticleBundle>,
    id: u64,
)
    requires
        after.len() == before.len() + 1,
        after.drop_last() == before,
        after.last().id == id,
        id < u64::MAX,
        particles_ascend(before, id as int),
    ensures
        particles_ascend(after, id + 1),
{
    reveal(particles_ascend);
    assert forall|i: int| 0 <= i < before.len() implies after[i] == before[i] by {
        assert(after.drop_last()[i] == after[i]);
    }
}

/// Identifiers below a bound lie below every larger bound, and an empty
/// store is in order.
pub proof fn lemma_particles_ascend_widens(particles: Seq<ParticleBundle>, bound: int, wider: int)
    requires
        particles_ascend(particles, bound),
        bound <= wider,
    ensures
        particles_ascend(particles, wider),
        particles_ascend(Seq::empty(), wider),
{
    reveal(particles_ascend);
}

} // verus!
