use asteroids_core::asteroids::{Asteroid, AsteroidBundle, AsteroidSize};
use asteroids_core::entity::EntityKind;
use asteroids_core::events::LifecycleEvent;
use asteroids_core::fixed::Vec2;
use asteroids_core::game::Game;
use asteroids_core::input::InputSnapshot;
use asteroids_core::physics::{InputAccumulator, MAX_VELOCITY};
use asteroids_core::player::{spawn_player, Name, Outline};
use asteroids_core::playfield::Playfield;

fn rock(id: u64, size: AsteroidSize, x: i64, y: i64) -> AsteroidBundle {
    AsteroidBundle {
        id,
        asteroid: Asteroid { size },
        translation: Vec2::new(x, y),
        previous_translation: Vec2::new(x, y),
        rotation: 0,
        previous_rotation: 0,
        linear_velocity: Vec2::zero(),
        angular_velocity: 0,
    }
}

fn pressing(forward: bool, turn_left: bool, fire: bool) -> InputSnapshot {
    InputSnapshot { forward, turn_left, fire, ..InputSnapshot::idle() }
}

fn speed_sq(game: &Game) -> i128 {
    let v = game.ship.velocity.0;
    (v.x as i128) * (v.x as i128) + (v.y as i128) * (v.y as i128)
}

#[test]
fn player_enters_at_rest() {
    let player = spawn_player();
    assert_eq!(player.name.0, "Player");
    assert_eq!(player.transform.scale, 400_000);
    assert_eq!(player.transform.translation, Vec2::zero());
    assert_eq!(player.physics.velocity.0, Vec2::zero());
    assert_eq!(
        player.outline,
        Outline {
            nose: Vec2::new(0, 66_667),
            bottom_left: Vec2::new(-50_000, -33_333),
            bottom_right: Vec2::new(50_000, -33_333),
        }
    );
    assert_eq!(Name::new("Asteroid").0, "Asteroid");
}

#[test]
fn outline_is_centred_on_its_centroid() {
    let outline = Outline {
        nose: Vec2::new(30_000, 90_000),
        bottom_left: Vec2::new(0, 0),
        bottom_right: Vec2::new(60_000, -30_001),
    };
    let centred = outline.centered();
    assert_eq!(centred.nose, Vec2::new(0, 70_001));
    assert_eq!(centred.bottom_left, Vec2::new(-30_000, -19_999));
    assert_eq!(centred.bottom_right, Vec2::new(30_000, -50_000));
}

#[test]
fn new_game_is_empty() {
    let game = Game::new(1);
    assert!(game.asteroids.is_empty());
    assert!(game.bullets.is_empty());
    assert!(game.particles.is_empty());
    assert_eq!(game.asteroid_count.current_count, 0);
    assert_eq!(game.asteroid_count.max_asteroids, 8);
    assert_eq!(game.window, Playfield::new(1_280_000, 720_000));
    assert_eq!(game.ship_id, 0);
    assert_eq!(game.ids.next, 1);
    let view = game.render_entities();
    assert_eq!(view.len(), 1);
    assert_eq!(view[0].kind, EntityKind::Ship);
    assert_eq!(view[0].scale, 400_000);
}

#[test]
fn first_asteroid_arrives_after_three_seconds() {
    let mut game = Game::new(5);
    let idle = InputSnapshot::idle();
    // 191 ticks: just short of three seconds
    for _ in 0..191 {
        game.advance(&idle, 15_625);
    }
    assert_eq!(game.asteroids.len(), 0);
    game.advance(&idle, 15_625);
    assert_eq!(game.asteroids.len(), 1);
    assert_eq!(game.asteroid_count.current_count, 1);
    let a = game.asteroids[0];
    assert_eq!(a.asteroid.size, AsteroidSize::Large);
    let on_edge = a.translation.x.abs() == 730_000 || a.translation.y.abs() == 450_000;
    assert!(on_edge);
}

#[test]
fn population_stops_at_the_cap() {
    let mut game = Game::new(11);
    let idle = InputSnapshot::idle();
    // forty seconds without a shot: eight spawns, then none
    for frame in 0..(40 * 64) {
        game.advance(&idle, 15_625);
        assert_eq!(game.asteroid_count.current_count, game.asteroids.len());
        assert!(game.asteroids.len() <= 8);
        if frame == 24 * 64 {
            assert_eq!(game.asteroids.len(), 8);
        }
    }
    assert_eq!(game.asteroids.len(), 8);
    for a in &game.asteroids {
        assert!(a.translation.x.abs() <= 740_000);
        assert!(a.translation.y.abs() <= 460_000);
    }
}

#[test]
fn full_field_for_ten_seconds() {
    let mut game = Game::new(3);
    game.asteroids = (0..8).map(|i| rock(100 + i, AsteroidSize::Large, 0, 50_000 * i as i64)).collect();
    game.asteroid_count.current_count = 8;
    let idle = InputSnapshot::idle();
    for _ in 0..40 {
        game.advance(&idle, 250_000);
    }
    assert_eq!(game.asteroids.len(), 8);
    assert_eq!(game.asteroid_count.current_count, 8);
    assert_eq!(game.render_entities().len(), 9);
}

#[test]
fn same_seed_same_game() {
    let mut first = Game::new(4242);
    let mut second = Game::new(4242);
    let mut other = Game::new(4243);
    let mut log_first = Vec::new();
    let mut log_second = Vec::new();
    for frame in 0..1_500u32 {
        let input = InputSnapshot {
            forward: frame % 7 < 5,
            reverse: false,
            turn_left: frame % 50 < 20,
            turn_right: frame % 90 > 80,
            fire: frame % 3 == 0,
            reset: frame == 700,
        };
        let dt = 12_000 + (frame % 5) * 2_000;
        log_first.extend(first.advance(&input, dt));
        log_second.extend(second.advance(&input, dt));
        other.advance(&input, dt);
    }
    assert_eq!(first.ship, second.ship);
    assert_eq!(first.asteroids, second.asteroids);
    assert_eq!(first.bullets, second.bullets);
    assert_eq!(first.particles, second.particles);
    assert_eq!(first.render_entities(), second.render_entities());
    assert_eq!(log_first, log_second);
    assert!(!first.asteroids.is_empty());
    assert_ne!(first.asteroids, other.asteroids);
}

#[test]
fn invariants_hold_through_a_busy_game() {
    let mut game = Game::new(2718);
    let limit = (MAX_VELOCITY as i128) * (MAX_VELOCITY as i128);
    let mut destroyed = 0usize;
    let mut fired = 0usize;
    let mut most = 0usize;
    for frame in 0..6_000u32 {
        let input = InputSnapshot {
            forward: frame % 11 < 8,
            reverse: frame % 97 == 0,
            turn_left: frame % 40 < 25,
            turn_right: false,
            fire: true,
            reset: false,
        };
        let events = game.advance(&input, 16_667);
        for e in &events {
            match e {
                LifecycleEvent::AsteroidDestroyed { .. } => destroyed += 1,
                LifecycleEvent::BulletFired { .. } => fired += 1,
                LifecycleEvent::ShipReset => panic!("no reset was asked for"),
            }
        }
        assert_eq!(game.asteroid_count.current_count, game.asteroids.len());
        assert!(speed_sq(&game) <= limit);
        for b in &game.bullets {
            assert!(b.bullet.lifetime.remaining_us() <= 2_000_000);
            assert!(!b.bullet.lifetime.finished());
        }
        for p in &game.particles {
            assert!(p.particle.lifetime.elapsed_us < p.particle.lifetime.duration_us);
            assert!(p.scale >= 100_000 && p.scale <= 1_000_000);
            assert!(p.color.alpha <= 1_000_000);
        }
        let ship = game.ship.physical_translation.0;
        assert!(ship.x.abs() <= 690_000 && ship.y.abs() <= 410_000);
        for a in &game.asteroids {
            assert!(a.translation.x.abs() <= 740_000 && a.translation.y.abs() <= 460_000);
        }
        assert!(game.fixed_time.overstep_us < game.fixed_time.timestep_us);
        most = most.max(game.asteroids.len());
    }
    // a hundred seconds with the trigger held: five shots a second at most
    assert!(fired > 400 && fired <= 500);
    assert!(destroyed > 0);
    assert!(most >= 1);
    // identifiers stay distinct
    let mut seen: Vec<u64> = game.render_entities().iter().map(|e| e.id).collect();
    let total = seen.len();
    seen.sort();
    seen.dedup();
    assert_eq!(seen.len(), total);
}

#[test]
fn thrust_builds_speed_up_to_the_limit() {
    let mut game = Game::new(1);
    game.window = None;
    let input = pressing(true, false, false);
    game.advance(&input, 15_625);
    assert_eq!(game.ship.velocity.0, Vec2::new(0, 12_496));
    assert_eq!(game.ship.physical_translation.0, Vec2::new(0, 195));
    assert_eq!(game.ship.movement_input_accumulator.get(), Vec2::zero());
    for _ in 0..(64 * 20) {
        game.advance(&input, 15_625);
        assert!(speed_sq(&game) <= 360_000_000_000);
    }
    assert_eq!(game.ship.velocity.0.x, 0);
    assert!(game.ship.velocity.0.y > 599_000);
    // without a playfield nothing wraps
    assert!(game.ship.physical_translation.0.y > 5_000_000);
}

#[test]
fn input_between_ticks_is_not_lost() {
    let mut game = Game::new(1);
    let thrust = pressing(true, false, false);
    let idle = InputSnapshot::idle();
    // three short frames without a tick: the input adds up
    game.advance(&thrust, 5_000);
    game.advance(&thrust, 5_000);
    assert_eq!(game.ship.movement_input_accumulator.get(), Vec2::new(0, 2));
    assert_eq!(game.ship.velocity.0, Vec2::zero());
    game.advance(&idle, 5_000);
    assert_eq!(game.ship.movement_input_accumulator.get(), Vec2::new(0, 2));
    // the tick consumes it once
    game.advance(&idle, 5_000);
    assert_eq!(game.ship.movement_input_accumulator.get(), Vec2::zero());
    assert_eq!(game.ship.velocity.0, Vec2::new(0, 24_992));
    game.advance(&idle, 15_625);
    assert!(game.ship.velocity.0.y < 24_992);
}

#[test]
fn turning_runs_on_wall_time() {
    let mut game = Game::new(1);
    let left = pressing(false, true, false);
    game.advance(&left, 1_000);
    assert_eq!(game.ship.physical_rotation.0, 4_500);
    assert_eq!(game.ship.previous_physical_rotation.0, 0);
    game.advance(&left, 200_000);
    assert_eq!(game.ship.physical_rotation.0, 904_500);
    assert_eq!(game.ship.previous_physical_rotation.0, 4_500);
}

#[test]
fn reset_is_reported_once_per_press() {
    let mut game = Game::new(1);
    let thrust = pressing(true, true, false);
    for _ in 0..200 {
        game.advance(&thrust, 16_667);
    }
    assert_ne!(game.ship.physical_translation.0, Vec2::zero());
    let reset = InputSnapshot { reset: true, ..InputSnapshot::idle() };
    let events = game.advance(&reset, 1_000);
    assert!(events.contains(&LifecycleEvent::ShipReset));
    assert_eq!(game.ship.physical_translation.0, Vec2::zero());
    assert_eq!(game.ship.velocity.0, Vec2::zero());
    assert_eq!(game.ship.physical_rotation.0, 0);
    // held down: no second reset
    let events = game.advance(&reset, 1_000);
    assert!(!events.contains(&LifecycleEvent::ShipReset));
    // released and pressed again
    game.advance(&InputSnapshot::idle(), 1_000);
    let events = game.advance(&reset, 1_000);
    assert!(events.contains(&LifecycleEvent::ShipReset));
}

#[test]
fn firing_reports_the_muzzle_position() {
    let mut game = Game::new(1);
    let fire = pressing(false, false, true);
    let events = game.advance(&fire, 100_000);
    assert!(events.is_empty());
    let events = game.advance(&fire, 100_000);
    assert_eq!(events, vec![LifecycleEvent::BulletFired { position: Vec2::new(0, 40_000) }]);
    // the bullet has flown for the six ticks of its first frame
    assert_eq!(game.bullets.len(), 1);
    assert_eq!(game.bullets[0].translation, Vec2::new(0, 40_000 + 6 * 6_250));
    let events = game.advance(&fire, 100_000);
    assert!(events.is_empty());
    assert_eq!(game.bullets.len(), 1);
}

#[test]
fn bullet_destroys_asteroid_in_the_game() {
    let mut game = Game::new(9);
    game.asteroids = vec![rock(50, AsteroidSize::Large, 0, 300_000)];
    game.asteroid_count.current_count = 1;
    game.ids.next = 51;
    let fire = pressing(false, false, true);
    let mut seen = Vec::new();
    for _ in 0..64 {
        seen.extend(game.advance(&fire, 15_625));
        if game.asteroids.len() != 1 {
            break;
        }
    }
    assert_eq!(game.asteroids.len(), 2);
    assert_eq!(game.asteroid_count.current_count, 2);
    assert!(game.asteroids.iter().all(|a| a.asteroid.size == AsteroidSize::Medium));
    assert!(game.asteroids.iter().all(|a| a.translation == Vec2::new(0, 300_000)));
    assert_eq!(
        seen.last(),
        Some(&LifecycleEvent::AsteroidDestroyed {
            position: Vec2::new(0, 300_000),
            size_class: AsteroidSize::Large
        })
    );
    // the burst of the same frame has been aged once and is all still there
    assert_eq!(game.particles.len(), 45);
}

#[test]
fn thrust_leaves_an_exhaust_trail() {
    let mut game = Game::new(6);
    let thrust = pressing(true, false, false);
    game.advance(&thrust, 16_667);
    assert_eq!(game.particles.len(), 1);
    assert_eq!(game.particles[0].translation, Vec2::new(0, -20_000));
    game.advance(&InputSnapshot::idle(), 16_667);
    assert_eq!(game.particles.len(), 1);
    for _ in 0..30 {
        game.advance(&InputSnapshot::idle(), 16_667);
    }
    assert!(game.particles.is_empty());
}

#[test]
fn ship_is_rendered_between_ticks() {
    let mut game = Game::new(1);
    game.ship.velocity.0 = Vec2::new(64_000, 0);
    let idle = InputSnapshot::idle();
    // one tick and a fifth of the next
    game.advance(&idle, 15_625 + 3_125);
    assert_eq!(game.ship.previous_physical_translation.0, Vec2::zero());
    assert_eq!(game.ship.physical_translation.0, Vec2::new(999, 0));
    assert_eq!(game.ship_transform.translation, Vec2::new(199, 0));
    let view = game.render_entities();
    assert_eq!(view[0].position, Vec2::new(199, 0));
}

#[test]
fn render_lists_every_entity() {
    let mut game = Game::new(21);
    let busy = pressing(true, true, true);
    for _ in 0..400 {
        game.advance(&busy, 16_667);
    }
    let view = game.render_entities();
    assert_eq!(view.len(), 1 + game.asteroids.len() + game.bullets.len() + game.particles.len());
    assert_eq!(view[0].kind, EntityKind::Ship);
    let asteroids = view.iter().filter(|e| e.kind == EntityKind::Asteroid).count();
    let bullets = view.iter().filter(|e| e.kind == EntityKind::Bullet).count();
    let particles = view.iter().filter(|e| e.kind == EntityKind::Particle).count();
    assert_eq!(asteroids, game.asteroids.len());
    assert_eq!(bullets, game.bullets.len());
    assert_eq!(particles, game.particles.len());
    assert!(bullets > 0 && particles > 0 && asteroids > 0);
}

#[test]
fn stalled_frame_runs_sixteen_ticks() {
    let mut game = Game::new(1);
    game.ship.velocity.0 = Vec2::new(0, -64_000);
    game.advance(&InputSnapshot::idle(), 3_000_000);
    // sixteen ticks of 1/64 s, each damped a little
    assert!(game.ship.physical_translation.0.y <= -15_900);
    assert!(game.ship.physical_translation.0.y >= -16_000);
    assert_eq!(game.fixed_time.overstep_us, 0);
}

#[test]
fn render_blends_asteroids_and_bullets_but_not_particles() {
    let mut game = Game::new(1);
    let mut a = rock(40, AsteroidSize::Medium, 1_000, 2_000);
    a.previous_translation = Vec2::new(0, 0);
    a.rotation = 500;
    a.previous_rotation = 100;
    game.asteroids.push(a);
    game.asteroid_count.current_count = 1;
    game.fixed_time.overstep_us = 15_625 / 4 + 1;
    assert!(game.is_well_formed());
    let view = game.render_entities();
    assert_eq!(view.len(), 2);
    assert_eq!(view[1].kind, EntityKind::Asteroid);
    assert_eq!(view[1].id, 40);
    // a quarter of the way from the previous to the current state
    assert_eq!(view[1].position, Vec2::new(250, 500));
    assert_eq!(view[1].rotation, 200);
    assert_eq!(view[1].scale, 1_000_000);
    assert_eq!((view[1].color.red, view[1].color.green, view[1].color.blue), (700_000, 700_000, 700_000));

    let mut flying = Game::new(1);
    flying.advance(&pressing(true, false, true), 250_000);
    flying.advance(&pressing(true, false, true), 20_000);
    let view = flying.render_entities();
    let bullets: Vec<_> = view.iter().filter(|e| e.kind == EntityKind::Bullet).collect();
    let particles: Vec<_> = view.iter().filter(|e| e.kind == EntityKind::Particle).collect();
    assert_eq!(bullets.len(), 1);
    assert_eq!(particles.len(), flying.particles.len());
    let b = flying.bullets[0];
    assert!(bullets[0].position.y >= b.previous_translation.y);
    assert!(bullets[0].position.y <= b.translation.y);
    assert_eq!((bullets[0].color.red, bullets[0].color.green, bullets[0].color.blue), (1_000_000, 1_000_000, 0));
    for (drawn, p) in particles.iter().zip(flying.particles.iter()) {
        assert_eq!(drawn.position, p.translation);
        assert_eq!(drawn.scale, p.scale);
        assert_eq!(drawn.color, p.color);
        assert_eq!(drawn.id, p.id);
    }
}
