use asteroids_core::entity::{Color, IdAllocator};
use asteroids_core::fixed::{displace, scale_to, Vec2};
use asteroids_core::particles::{
    advance_particle, make_engine_particle, make_explosion_particle,
    spawn_asteroid_destruction_particles, spawn_engine_particle, spawn_explosion_particles, tint,
    tint_channel, update_particles, EngineDraw, ExplosionDraw, Particle, ParticleBundle,
    ParticleVelocity,
};
use asteroids_core::rng::RandomStream;
use asteroids_core::timing::{Timer, TimerMode};

fn orange() -> Color {
    Color::srgb(900_000, 600_000, 200_000)
}

fn mote(lifetime_us: u32, vx: i64, vy: i64) -> ParticleBundle {
    ParticleBundle {
        id: 1,
        particle: Particle::new(lifetime_us, 2_000),
        motion: ParticleVelocity::new(Vec2::new(vx, vy), 2),
        translation: Vec2::zero(),
        scale: 1_000_000,
        color: orange(),
    }
}

#[test]
fn particle_constructor() {
    let p = Particle::new(500_000, 3_000);
    assert_eq!(p.lifetime, Timer::new(500_000, TimerMode::Once));
    assert_eq!(p.initial_size, 3_000);
    // the inverse of half a second: two per second
    assert_eq!(p.fade_rate, 2_000_000);
    assert_eq!(Particle::new(1_500_000, 1).fade_rate, 666_666);
    let v = ParticleVelocity::new(Vec2::new(1, 2), 2);
    assert_eq!(v.velocity, Vec2::new(1, 2));
    assert_eq!(v.drag, 2);
}

#[test]
fn helpers_scale_displace_and_tint() {
    assert_eq!(scale_to(Vec2::new(1_000_000, 0), 150_000), Vec2::new(150_000, 0));
    assert_eq!(scale_to(Vec2::new(-707_107, 707_106), 100_000), Vec2::new(-70_710, 70_710));
    assert_eq!(scale_to(Vec2::new(i64::MAX, i64::MIN), i64::MAX), Vec2::new(1_000_000_000, -1_000_000_000));
    assert_eq!(displace(Vec2::new(5, 6), Vec2::new(-7, 8)), Vec2::new(-2, 14));
    assert_eq!(
        displace(Vec2::new(i64::MAX, i64::MIN), Vec2::new(i64::MAX, i64::MIN)),
        Vec2::new(1_000_000_000_000, -1_000_000_000_000)
    );
    assert_eq!(tint_channel(900_000, 1_199_999), 1_000_000);
    assert_eq!(tint_channel(900_000, 800_000), 720_000);
    assert_eq!(tint_channel(200_000, 1_100_000), 220_000);
    assert_eq!(tint_channel(u32::MAX, u32::MAX), 1_000_000);
    assert_eq!(
        tint(orange(), 1_150_000),
        Color { red: 1_000_000, green: 690_000, blue: 230_000, alpha: 1_000_000 }
    );
}

#[test]
fn explosion_particle_from_its_draw() {
    let draw = ExplosionDraw {
        size: 2_500,
        lifetime_us: 1_000_000,
        angle: 0,
        speed: 100_000,
        tint: 1_000_000,
        offset: Vec2::new(-4_000, 3_000),
    };
    let p = make_explosion_particle(9, Vec2::new(100_000, 100_000), orange(), draw);
    assert_eq!(p.id, 9);
    assert_eq!(p.particle, Particle::new(1_000_000, 2_500));
    assert_eq!(p.motion, ParticleVelocity::new(Vec2::new(100_000, 0), 2));
    assert_eq!(p.translation, Vec2::new(96_000, 103_000));
    assert_eq!(p.scale, 1_000_000);
    assert_eq!(p.color, orange());
    let up = ExplosionDraw { angle: 1_570_796, ..draw };
    let q = make_explosion_particle(9, Vec2::zero(), orange(), up);
    assert_eq!(q.motion.velocity, Vec2::new(0, 100_000));
}

#[test]
fn engine_particle_from_its_draw() {
    let draw = EngineDraw { size: 1_500, lifetime_us: 300_000, variance: Vec2::new(100_000, -200_000), speed: 80_000 };
    let p = make_engine_particle(4, Vec2::new(1, 2), Vec2::new(0, -1_000_000), draw);
    assert_eq!(p.id, 4);
    assert_eq!(p.translation, Vec2::new(1, 2));
    // (0 + 0.1, -1 - 0.2) * 80
    assert_eq!(p.motion.velocity, Vec2::new(8_000, -96_000));
    assert_eq!(p.motion.drag, 2);
    assert_eq!(p.particle, Particle::new(300_000, 1_500));
    assert_eq!(p.color, Color::srgb(1_000_000, 500_000, 200_000));
}

#[test]
fn explosion_particles_within_their_ranges() {
    let mut rng = RandomStream::from_seed(31);
    let mut ids = IdAllocator { next: 50 };
    let mut store: Vec<ParticleBundle> = vec![mote(1_000_000, 0, 0)];
    let centre = Vec2::new(100_000, -50_000);
    spawn_explosion_particles(&mut store, &mut ids, centre, 300, orange(), &mut rng);
    assert_eq!(store.len(), 301);
    assert_eq!(store[0], mote(1_000_000, 0, 0));
    assert_eq!(ids.next, 350);
    let mut left = 0;
    let mut right = 0;
    for (i, p) in store.iter().enumerate().skip(1) {
        assert_eq!(p.id, 49 + i as u64);
        assert!(p.particle.initial_size >= 1_000 && p.particle.initial_size < 4_000);
        let life = p.particle.lifetime.duration_us;
        assert!(life >= 500_000 && life < 1_500_000);
        assert_eq!(p.particle.lifetime.elapsed_us, 0);
        let v = p.motion.velocity;
        let speed = ((v.x as f64).powi(2) + (v.y as f64).powi(2)).sqrt();
        assert!(speed >= 49_998.0 && speed < 150_000.0);
        assert_eq!(p.motion.drag, 2);
        assert!((p.translation.x - centre.x).abs() <= 5_000);
        assert!((p.translation.y - centre.y).abs() <= 5_000);
        assert!(p.color.red >= 720_000 && p.color.red <= 1_000_000);
        assert!(p.color.green >= 480_000 && p.color.green < 720_000);
        assert!(p.color.blue >= 160_000 && p.color.blue < 240_000);
        assert_eq!(p.color.alpha, 1_000_000);
        assert_eq!(p.scale, 1_000_000);
        if v.x < 0 {
            left += 1;
        } else {
            right += 1;
        }
    }
    // directions are spread around the circle
    assert!(left > 100 && right > 100);
    assert!(store.iter().skip(1).any(|p| p.motion.velocity.y > 100_000));
    assert!(store.iter().skip(1).any(|p| p.motion.velocity.y < -100_000));
}

#[test]
fn no_particles_asked_none_made() {
    let mut rng = RandomStream::from_seed(31);
    let mut ids = IdAllocator::new();
    let mut store: Vec<ParticleBundle> = Vec::new();
    spawn_explosion_particles(&mut store, &mut ids, Vec2::zero(), 0, orange(), &mut rng);
    assert!(store.is_empty());
    assert_eq!(ids.next, 0);
}

#[test]
fn burst_sizes() {
    for (radius, explosion, sparks) in [
        (40_000i64, 32usize, 13usize),
        (25_000, 20, 8),
        (15_000, 12, 5),
        (30_000, 24, 10),
        (1_249, 0, 0),
        (1_250, 1, 0),
        (3_000, 2, 1),
        (0, 0, 0),
        (-40_000, 0, 0),
    ] {
        let mut rng = RandomStream::from_seed(radius as u64);
        let mut ids = IdAllocator::new();
        let mut store: Vec<ParticleBundle> = Vec::new();
        spawn_asteroid_destruction_particles(&mut store, &mut ids, Vec2::zero(), radius, &mut rng);
        assert_eq!(store.len(), explosion + sparks, "radius {}", radius);
        assert_eq!(ids.next as usize, explosion + sparks);
        for p in &store[..explosion] {
            assert!(p.color.green < 720_000);
        }
        for p in &store[explosion..] {
            assert!(p.color.green >= 800_000);
        }
    }
}

#[test]
fn engine_particles_within_their_ranges() {
    let mut rng = RandomStream::from_seed(13);
    let mut ids = IdAllocator::new();
    let mut store: Vec<ParticleBundle> = Vec::new();
    for _ in 0..200 {
        spawn_engine_particle(&mut store, &mut ids, Vec2::new(7, 8), Vec2::new(1_000_000, 0), &mut rng);
    }
    for p in &store {
        assert_eq!(p.translation, Vec2::new(7, 8));
        assert!(p.particle.initial_size >= 1_000 && p.particle.initial_size < 3_000);
        let life = p.particle.lifetime.duration_us;
        assert!(life >= 200_000 && life < 400_000);
        assert!(p.motion.velocity.x >= 48_000 && p.motion.velocity.x <= 120_000);
        assert!(p.motion.velocity.y.abs() <= 20_000);
    }
    assert!(store.iter().any(|p| p.motion.velocity.y > 0));
    assert!(store.iter().any(|p| p.motion.velocity.y < 0));
    assert!(store.iter().any(|p| p.particle.lifetime.duration_us != store[0].particle.lifetime.duration_us));
}

#[test]
fn particle_moves_slows_shrinks_and_fades() {
    let p = mote(1_000_000, 100_000, -50_000);
    let q = advance_particle(&p, 100_000);
    assert_eq!(q.translation, Vec2::new(10_000, -5_000));
    assert_eq!(q.motion.velocity, Vec2::new(80_000, -40_000));
    assert_eq!(q.motion.drag, 2);
    assert_eq!(q.particle.lifetime.elapsed_us, 100_000);
    assert_eq!(q.scale, 950_000);
    assert_eq!(q.color.alpha, 900_000);
    assert_eq!((q.color.red, q.color.green, q.color.blue), (900_000, 600_000, 200_000));
    let r = advance_particle(&q, 400_000);
    assert_eq!(r.translation, Vec2::new(42_000, -21_000));
    assert_eq!(r.motion.velocity, Vec2::new(16_000, -8_000));
    assert_eq!(r.scale, 750_000);
    assert_eq!(r.color.alpha, 500_000);
}

#[test]
fn scale_and_alpha_decay_monotonically() {
    let mut p = mote(1_000_000, 0, 0);
    let mut scale = p.scale;
    let mut alpha = p.color.alpha;
    for _ in 0..59 {
        p = advance_particle(&p, 16_667);
        assert!(p.scale <= scale && p.scale >= 100_000);
        assert!(p.color.alpha <= alpha);
        assert!(p.particle.lifetime.remaining_us() <= 1_000_000);
        scale = p.scale;
        alpha = p.color.alpha;
    }
    assert_eq!(p.scale, 1_000_000 - 983_353 / 2);
    assert_eq!(p.color.alpha, 1_000_000 - 983_353);
}

#[test]
fn particles_expire() {
    let mut store = vec![mote(500_000, 10_000, 0), mote(1_000_000, 0, 10_000), mote(500_001, 0, 0)];
    store[1].id = 2;
    store[2].id = 3;
    update_particles(&mut store, 250_000);
    assert_eq!(store.len(), 3);
    assert_eq!(store[0].translation, Vec2::new(2_500, 0));
    assert_eq!(store[0].motion.velocity, Vec2::new(5_000, 0));
    update_particles(&mut store, 250_000);
    // the first has lived its half second and is gone; order is kept
    assert_eq!(store.len(), 2);
    assert_eq!(store[0].id, 2);
    assert_eq!(store[1].id, 3);
    assert_eq!(store[0].color.alpha, 500_000);
    assert_eq!(store[0].scale, 750_000);
    update_particles(&mut store, 1);
    assert_eq!(store.len(), 1);
    assert_eq!(store[0].id, 2);
    update_particles(&mut store, 10_000_000);
    assert!(store.is_empty());
}

#[test]
fn drag_over_a_long_step_reverses_the_velocity() {
    // one minus drag times dt is negative beyond half a second
    let p = mote(4_000_000, 100_000, 0);
    let q = advance_particle(&p, 1_000_000);
    assert_eq!(q.motion.velocity, Vec2::new(-100_000, 0));
    assert_eq!(q.translation, Vec2::new(100_000, 0));
}
