use asteroids_core::asteroids::{
    bullet_asteroid_collision_system, despawn_asteroids, destroy_asteroid, edge_spawn_position,
    integrate_asteroids, spawn_asteroid_at_edge, spawn_asteroid_fragment, spawn_asteroid_system,
    wrap_asteroids, Asteroid, AsteroidBundle, AsteroidCount, AsteroidSize, AsteroidSpawnTimer,
};
use asteroids_core::collision::{find_collisions, overlaps};
use asteroids_core::entity::IdAllocator;
use asteroids_core::events::LifecycleEvent;
use asteroids_core::fixed::Vec2;
use asteroids_core::particles::ParticleBundle;
use asteroids_core::playfield::Playfield;
use asteroids_core::rng::RandomStream;
use asteroids_core::weapons::{Bullet, BulletBundle};

fn rock(id: u64, size: AsteroidSize, x: i64, y: i64) -> AsteroidBundle {
    AsteroidBundle {
        id,
        asteroid: Asteroid { size },
        translation: Vec2::new(x, y),
        previous_translation: Vec2::new(x, y),
        rotation: 0,
        previous_rotation: 0,
        linear_velocity: Vec2::zero(),
        angular_velocity: 0,
    }
}

fn shot(id: u64, x: i64, y: i64) -> BulletBundle {
    BulletBundle {
        id,
        bullet: Bullet::default(),
        translation: Vec2::new(x, y),
        previous_translation: Vec2::new(x, y),
        linear_velocity: Vec2::zero(),
    }
}

fn field() -> Playfield {
    Playfield::new(1_280_000, 720_000).unwrap()
}

#[test]
fn radii_of_the_size_classes() {
    assert_eq!(AsteroidSize::Large.radius(), 40_000);
    assert_eq!(AsteroidSize::Medium.radius(), 25_000);
    assert_eq!(AsteroidSize::Small.radius(), 15_000);
}

#[test]
fn split_steps_down_one_class() {
    assert_eq!(AsteroidSize::Large.split(), Some(AsteroidSize::Medium));
    assert_eq!(AsteroidSize::Medium.split(), Some(AsteroidSize::Small));
    assert_eq!(AsteroidSize::Small.split(), None);
}

#[test]
fn defaults_of_the_resources() {
    let count = AsteroidCount::default();
    assert_eq!(count.max_asteroids, 8);
    assert_eq!(count.current_count, 0);
    let timer = AsteroidSpawnTimer::default();
    assert_eq!(timer.0.duration_us, 3_000_000);
    assert!(!timer.0.finished());
}

#[test]
fn edge_positions() {
    let f = field();
    assert_eq!(edge_spawn_position(&f, 90_000, 0, 12), Vec2::new(12, 450_000));
    assert_eq!(edge_spawn_position(&f, 90_000, 1, -7), Vec2::new(730_000, -7));
    assert_eq!(edge_spawn_position(&f, 90_000, 2, 12), Vec2::new(12, -450_000));
    assert_eq!(edge_spawn_position(&f, 90_000, 3, -7), Vec2::new(-730_000, -7));
}

#[test]
fn edge_spawn_lies_on_an_edge() {
    let f = field();
    let mut rng = RandomStream::from_seed(2024);
    let mut ids = IdAllocator::new();
    let mut store: Vec<AsteroidBundle> = Vec::new();
    for _ in 0..400 {
        spawn_asteroid_at_edge(&mut store, &mut ids, &f, AsteroidSize::Large, &mut rng);
    }
    assert_eq!(store.len(), 400);
    let mut on_top = 0;
    let mut on_right = 0;
    let mut on_bottom = 0;
    let mut on_left = 0;
    for (i, a) in store.iter().enumerate() {
        assert_eq!(a.id, i as u64);
        assert_eq!(a.asteroid.size, AsteroidSize::Large);
        assert_eq!(a.previous_translation, a.translation);
        let p = a.translation;
        let horizontal = p.y.abs() == 450_000 && p.x >= -730_000 && p.x < 730_000;
        let vertical = p.x.abs() == 730_000 && p.y >= -450_000 && p.y < 450_000;
        assert!(horizontal || vertical);
        if p.y == 450_000 {
            on_top += 1;
        } else if p.y == -450_000 {
            on_bottom += 1;
        } else if p.x == 730_000 {
            on_right += 1;
        } else {
            on_left += 1;
        }
        assert!(a.linear_velocity.x >= -100_000 && a.linear_velocity.x < 100_000);
        assert!(a.linear_velocity.y >= -100_000 && a.linear_velocity.y < 100_000);
        assert!(a.angular_velocity >= -2_000_000 && a.angular_velocity < 2_000_000);
    }
    // the draws are spread: every edge is used and the velocities differ
    assert!(on_top > 40 && on_right > 40 && on_bottom > 40 && on_left > 40);
    assert!(store.iter().any(|a| a.linear_velocity.x > 0));
    assert!(store.iter().any(|a| a.linear_velocity.x < 0));
    assert!(store.iter().any(|a| a.angular_velocity > 1_000_000));
    assert_eq!(ids.next, 400);
}

#[test]
fn same_seed_same_asteroids() {
    let f = field();
    let mut first: Vec<AsteroidBundle> = Vec::new();
    let mut second: Vec<AsteroidBundle> = Vec::new();
    let mut other: Vec<AsteroidBundle> = Vec::new();
    let mut rng_a = RandomStream::from_seed(99);
    let mut rng_b = RandomStream::from_seed(99);
    let mut rng_c = RandomStream::from_seed(100);
    let mut ids_a = IdAllocator::new();
    let mut ids_b = IdAllocator::new();
    let mut ids_c = IdAllocator::new();
    for _ in 0..20 {
        spawn_asteroid_at_edge(&mut first, &mut ids_a, &f, AsteroidSize::Large, &mut rng_a);
        spawn_asteroid_at_edge(&mut second, &mut ids_b, &f, AsteroidSize::Large, &mut rng_b);
        spawn_asteroid_at_edge(&mut other, &mut ids_c, &f, AsteroidSize::Large, &mut rng_c);
    }
    assert_eq!(first, second);
    assert_ne!(first, other);
}

#[test]
fn fragments_start_where_the_asteroid_was() {
    let mut rng = RandomStream::from_seed(5);
    let mut ids = IdAllocator { next: 10 };
    let mut store: Vec<AsteroidBundle> = vec![rock(1, AsteroidSize::Large, 0, 0)];
    for _ in 0..100 {
        spawn_asteroid_fragment(&mut store, &mut ids, Vec2::new(3, -4), AsteroidSize::Small, &mut rng);
    }
    assert_eq!(store.len(), 101);
    assert_eq!(store[0], rock(1, AsteroidSize::Large, 0, 0));
    for (i, a) in store.iter().enumerate().skip(1) {
        assert_eq!(a.id, 9 + i as u64);
        assert_eq!(a.asteroid.size, AsteroidSize::Small);
        assert_eq!(a.translation, Vec2::new(3, -4));
        assert!(a.linear_velocity.x >= -80_000 && a.linear_velocity.x < 80_000);
        assert!(a.linear_velocity.y >= -80_000 && a.linear_velocity.y < 80_000);
        assert!(a.angular_velocity >= -3_000_000 && a.angular_velocity < 3_000_000);
    }
    assert!(store.iter().any(|a| a.linear_velocity.y > 0));
    assert!(store.iter().any(|a| a.linear_velocity.y < 0));
}

#[test]
fn spawn_timer_adds_one_large_asteroid() {
    let f = field();
    let mut rng = RandomStream::from_seed(1);
    let mut ids = IdAllocator::new();
    let mut store: Vec<AsteroidBundle> = Vec::new();
    let mut timer = AsteroidSpawnTimer::default();
    let mut count = AsteroidCount::default();
    spawn_asteroid_system(&mut store, &mut ids, &mut timer, &mut count, 2_999_999, Some(&f), &mut rng);
    assert_eq!(store.len(), 0);
    assert_eq!(count.current_count, 0);
    spawn_asteroid_system(&mut store, &mut ids, &mut timer, &mut count, 1, Some(&f), &mut rng);
    assert_eq!(store.len(), 1);
    assert_eq!(count.current_count, 1);
    assert_eq!(store[0].asteroid.size, AsteroidSize::Large);
    // several periods in one tick still spawn one asteroid
    spawn_asteroid_system(&mut store, &mut ids, &mut timer, &mut count, 9_000_000, Some(&f), &mut rng);
    assert_eq!(store.len(), 2);
    assert_eq!(count.current_count, 2);
}

#[test]
fn spawn_needs_a_playfield() {
    let mut rng = RandomStream::from_seed(1);
    let mut ids = IdAllocator::new();
    let mut store: Vec<AsteroidBundle> = Vec::new();
    let mut timer = AsteroidSpawnTimer::default();
    let mut count = AsteroidCount::default();
    spawn_asteroid_system(&mut store, &mut ids, &mut timer, &mut count, 3_000_000, None, &mut rng);
    assert!(timer.0.finished());
    assert_eq!(store.len(), 0);
    assert_eq!(count.current_count, 0);
    assert_eq!(ids.next, 0);
}

#[test]
fn spawn_cap() {
    let f = field();
    let mut rng = RandomStream::from_seed(3);
    let mut ids = IdAllocator { next: 8 };
    let mut store: Vec<AsteroidBundle> =
        (0..8).map(|i| rock(i, AsteroidSize::Large, 1_000 * i as i64, 0)).collect();
    let before = store.clone();
    let mut timer = AsteroidSpawnTimer::default();
    let mut count = AsteroidCount { max_asteroids: 8, current_count: 8 };
    let mut fired = 0;
    for _ in 0..640 {
        spawn_asteroid_system(&mut store, &mut ids, &mut timer, &mut count, 15_625, Some(&f), &mut rng);
        if timer.0.finished() {
            fired += 1;
        }
    }
    // ten seconds: the timer ran out three times and nothing was added
    assert_eq!(fired, 3);
    assert_eq!(store, before);
    assert_eq!(count.current_count, 8);
    assert_eq!(ids.next, 8);
    // one below the cap the next period spawns again
    count.current_count = 7;
    store.pop();
    for _ in 0..192 {
        spawn_asteroid_system(&mut store, &mut ids, &mut timer, &mut count, 15_625, Some(&f), &mut rng);
    }
    assert_eq!(store.len(), 8);
    assert_eq!(count.current_count, 8);
}

#[test]
fn wrap() {
    let f = field();
    // just beyond W/2 + margin on the right
    let mut store = vec![rock(0, AsteroidSize::Large, 640_000 + 100_000 + 1, 0)];
    wrap_asteroids(&mut store, Some(&f));
    assert_eq!(store[0].translation, Vec2::new(-740_000, 0));
    assert_eq!(store[0].previous_translation, Vec2::new(-740_000, 0));
    // a second wrap is the identity
    wrap_asteroids(&mut store, Some(&f));
    assert_eq!(store[0].translation, Vec2::new(-740_000, 0));
}

#[test]
fn wrap_on_every_side() {
    let f = field();
    let mut store = vec![
        rock(0, AsteroidSize::Small, -740_001, 460_001),
        rock(1, AsteroidSize::Small, 740_000, -460_000),
        rock(2, AsteroidSize::Small, 0, -460_001),
    ];
    store[2].previous_translation = Vec2::new(5, -450_000);
    wrap_asteroids(&mut store, Some(&f));
    assert_eq!(store[0].translation, Vec2::new(740_000, -460_000));
    assert_eq!(store[1].translation, Vec2::new(740_000, -460_000));
    assert_eq!(store[2].translation, Vec2::new(0, 460_000));
    assert_eq!(store[2].previous_translation, Vec2::new(5, 460_000));
    for a in &store {
        assert!(a.translation.x.abs() <= 740_000 && a.translation.y.abs() <= 460_000);
    }
}

#[test]
fn no_playfield_no_wrap() {
    let mut store = vec![rock(0, AsteroidSize::Large, 5_000_000, -5_000_000)];
    wrap_asteroids(&mut store, None);
    assert_eq!(store[0].translation, Vec2::new(5_000_000, -5_000_000));
}

#[test]
fn asteroids_drift_and_turn() {
    let mut a = rock(0, AsteroidSize::Medium, 1_000, 2_000);
    a.linear_velocity = Vec2::new(64_000, -128_000);
    a.angular_velocity = -2_000_000;
    let mut store = vec![a];
    integrate_asteroids(&mut store, 15_625);
    assert_eq!(store[0].previous_translation, Vec2::new(1_000, 2_000));
    assert_eq!(store[0].translation, Vec2::new(2_000, 0));
    assert_eq!(store[0].previous_rotation, 0);
    assert_eq!(store[0].rotation, -31_250);
}

#[test]
fn despawn_clears_store_and_count() {
    let mut store = vec![rock(0, AsteroidSize::Large, 0, 0), rock(1, AsteroidSize::Small, 1, 1)];
    let mut count = AsteroidCount { max_asteroids: 8, current_count: 2 };
    despawn_asteroids(&mut store, &mut count);
    assert!(store.is_empty());
    assert_eq!(count.current_count, 0);
    assert_eq!(count.max_asteroids, 8);
}

#[test]
fn circles_touch_at_the_sum_of_radii() {
    let a = rock(0, AsteroidSize::Large, 0, 0);
    assert!(overlaps(&shot(0, 43_000, 0), &a));
    assert!(!overlaps(&shot(0, 43_001, 0), &a));
    assert!(overlaps(&shot(0, 0, -43_000), &a));
    assert!(overlaps(&shot(0, 25_800, 34_400), &a));
    assert!(!overlaps(&shot(0, 25_801, 34_400), &a));
    assert!(!overlaps(&shot(0, i64::MAX, i64::MIN), &rock(0, AsteroidSize::Small, i64::MIN, i64::MAX)));
    let small = rock(0, AsteroidSize::Small, 100, 100);
    assert!(overlaps(&shot(0, 100, 18_100), &small));
    assert!(!overlaps(&shot(0, 100, 18_101), &small));
}

#[test]
fn one_bullet_destroys_the_first_asteroid_it_touches() {
    let rocks = vec![
        rock(0, AsteroidSize::Large, 500_000, 0),
        rock(1, AsteroidSize::Large, 10_000, 0),
        rock(2, AsteroidSize::Large, -10_000, 0),
    ];
    let shots = vec![shot(10, 0, 0)];
    let (hits, claimed) = find_collisions(&shots, &rocks);
    assert_eq!(hits, vec![Some(1)]);
    assert_eq!(claimed, vec![false, true, false]);
}

#[test]
fn one_asteroid_is_destroyed_by_one_bullet() {
    let rocks = vec![rock(0, AsteroidSize::Large, 0, 0), rock(1, AsteroidSize::Small, 30_000, 0)];
    let shots = vec![shot(10, 1_000, 0), shot(11, 2_000, 0), shot(12, 25_000, 0), shot(13, 900_000, 0)];
    let (hits, claimed) = find_collisions(&shots, &rocks);
    // the second bullet finds the large asteroid taken and touches no other;
    // the third touches both and takes the one that is left
    assert_eq!(hits, vec![Some(0), None, Some(1), None]);
    assert_eq!(claimed, vec![true, true]);
}

#[test]
fn split_chain() {
    let f = field();
    let mut rng = RandomStream::from_seed(77);
    let mut ids = IdAllocator { next: 100 };
    let mut rocks = vec![rock(1, AsteroidSize::Large, 200_000, -100_000)];
    let mut shots = vec![shot(2, 200_000, -100_000)];
    let mut particles: Vec<ParticleBundle> = Vec::new();
    let mut events: Vec<LifecycleEvent> = Vec::new();
    let mut count = AsteroidCount { max_asteroids: 8, current_count: 1 };
    bullet_asteroid_collision_system(
        &mut shots, &mut rocks, &mut particles, &mut events, &mut ids, &mut count, Some(&f), &mut rng,
    );
    assert!(shots.is_empty());
    assert_eq!(particles.len(), 45);
    assert_eq!(rocks.len(), 2);
    for a in &rocks {
        assert_eq!(a.asteroid.size, AsteroidSize::Medium);
        assert_eq!(a.translation, Vec2::new(200_000, -100_000));
    }
    assert_eq!(count.current_count, 2);
    assert_eq!(
        events,
        vec![LifecycleEvent::AsteroidDestroyed {
            position: Vec2::new(200_000, -100_000),
            size_class: AsteroidSize::Large,
        }]
    );
    // identifiers: the burst first, then the two fragments
    for (i, p) in particles.iter().enumerate() {
        assert_eq!(p.id, 100 + i as u64);
    }
    assert_eq!(rocks[0].id, 145);
    assert_eq!(rocks[1].id, 146);
    assert_eq!(ids.next, 147);
    // 32 explosion particles in orange tints, then 13 sparks in near-white tints
    for p in &particles[..32] {
        assert!(p.color.blue >= 160_000 && p.color.blue < 240_000);
    }
    for p in &particles[32..] {
        assert!(p.color.blue >= 640_000 && p.color.blue < 960_000);
    }

    // the chain goes on: medium breaks into two small
    let mut shots = vec![shot(3, 200_000, -100_000)];
    bullet_asteroid_collision_system(
        &mut shots, &mut rocks, &mut particles, &mut events, &mut ids, &mut count, Some(&f), &mut rng,
    );
    assert_eq!(rocks.len(), 3);
    assert_eq!(count.current_count, 3);
    assert_eq!(rocks[0].asteroid.size, AsteroidSize::Medium);
    assert_eq!(rocks[0].id, 146);
    assert_eq!(rocks[1].asteroid.size, AsteroidSize::Small);
    assert_eq!(rocks[2].asteroid.size, AsteroidSize::Small);
    assert_eq!(particles.len(), 45 + 28);
}

#[test]
fn small_asteroid_leaves_no_children() {
    let f = field();
    let mut rng = RandomStream::from_seed(77);
    let mut ids = IdAllocator::new();
    let mut rocks = vec![rock(1, AsteroidSize::Small, 0, 0), rock(2, AsteroidSize::Small, 500_000, 0)];
    let mut shots = vec![shot(2, 1_000, 1_000)];
    let mut particles: Vec<ParticleBundle> = Vec::new();
    let mut events: Vec<LifecycleEvent> = Vec::new();
    let mut count = AsteroidCount { max_asteroids: 8, current_count: 2 };
    bullet_asteroid_collision_system(
        &mut shots, &mut rocks, &mut particles, &mut events, &mut ids, &mut count, Some(&f), &mut rng,
    );
    assert!(shots.is_empty());
    assert_eq!(rocks, vec![rock(2, AsteroidSize::Small, 500_000, 0)]);
    assert_eq!(count.current_count, 1);
    assert_eq!(particles.len(), 12 + 5);
    assert_eq!(
        events,
        vec![LifecycleEvent::AsteroidDestroyed { position: Vec2::zero(), size_class: AsteroidSize::Small }]
    );
}

#[test]
fn misses_change_nothing() {
    let f = field();
    let mut rng = RandomStream::from_seed(77);
    let mut ids = IdAllocator { next: 5 };
    let mut rocks = vec![rock(1, AsteroidSize::Large, 0, 0)];
    let mut shots = vec![shot(2, 43_001, 0), shot(3, 0, 100_000)];
    let mut particles: Vec<ParticleBundle> = Vec::new();
    let mut events: Vec<LifecycleEvent> = Vec::new();
    let mut count = AsteroidCount { max_asteroids: 8, current_count: 1 };
    bullet_asteroid_collision_system(
        &mut shots, &mut rocks, &mut particles, &mut events, &mut ids, &mut count, Some(&f), &mut rng,
    );
    assert_eq!(shots, vec![shot(2, 43_001, 0), shot(3, 0, 100_000)]);
    assert_eq!(rocks, vec![rock(1, AsteroidSize::Large, 0, 0)]);
    assert!(particles.is_empty());
    assert!(events.is_empty());
    assert_eq!(count.current_count, 1);
    assert_eq!(ids.next, 5);
}

#[test]
fn several_hits_in_one_tick() {
    let f = field();
    let mut rng = RandomStream::from_seed(8);
    let mut ids = IdAllocator::new();
    let mut rocks = vec![
        rock(1, AsteroidSize::Large, 0, 0),
        rock(2, AsteroidSize::Medium, 300_000, 0),
        rock(3, AsteroidSize::Small, -300_000, 0),
        rock(4, AsteroidSize::Large, 0, 300_000),
    ];
    let mut shots = vec![shot(5, -300_000, 0), shot(6, 0, 0), shot(7, 0, 1), shot(8, 300_000, 0)];
    let mut particles: Vec<ParticleBundle> = Vec::new();
    let mut events: Vec<LifecycleEvent> = Vec::new();
    let mut count = AsteroidCount { max_asteroids: 8, current_count: 4 };
    bullet_asteroid_collision_system(
        &mut shots, &mut rocks, &mut particles, &mut events, &mut ids, &mut count, Some(&f), &mut rng,
    );
    assert_eq!(shots, vec![shot(7, 0, 1)]);
    // the survivor first, then the fragments in bullet order: large, then medium
    let sizes: Vec<AsteroidSize> = rocks.iter().map(|a| a.asteroid.size).collect();
    assert_eq!(
        sizes,
        vec![
            AsteroidSize::Large,
            AsteroidSize::Medium,
            AsteroidSize::Medium,
            AsteroidSize::Small,
            AsteroidSize::Small
        ]
    );
    assert_eq!(rocks[0].id, 4);
    assert_eq!(rocks[1].translation, Vec2::zero());
    assert_eq!(rocks[3].translation, Vec2::new(300_000, 0));
    assert_eq!(count.current_count, 5);
    assert_eq!(count.current_count, rocks.len());
    assert_eq!(particles.len(), 17 + 45 + 28);
    assert_eq!(
        events,
        vec![
            LifecycleEvent::AsteroidDestroyed {
                position: Vec2::new(-300_000, 0),
                size_class: AsteroidSize::Small
            },
            LifecycleEvent::AsteroidDestroyed { position: Vec2::zero(), size_class: AsteroidSize::Large },
            LifecycleEvent::AsteroidDestroyed {
                position: Vec2::new(300_000, 0),
                size_class: AsteroidSize::Medium
            },
        ]
    );
}

#[test]
fn count_saturates_at_zero() {
    let f = field();
    let mut rng = RandomStream::from_seed(8);
    let mut ids = IdAllocator::new();
    let mut rocks = vec![rock(1, AsteroidSize::Small, 0, 0)];
    let mut shots = vec![shot(5, 0, 0)];
    let mut particles: Vec<ParticleBundle> = Vec::new();
    let mut events: Vec<LifecycleEvent> = Vec::new();
    let mut count = AsteroidCount { max_asteroids: 8, current_count: 0 };
    bullet_asteroid_collision_system(
        &mut shots, &mut rocks, &mut particles, &mut events, &mut ids, &mut count, Some(&f), &mut rng,
    );
    assert!(rocks.is_empty());
    assert_eq!(count.current_count, 0);
}

#[test]
fn no_playfield_no_fragments() {
    let mut rng = RandomStream::from_seed(8);
    let mut ids = IdAllocator::new();
    let mut rocks = vec![rock(1, AsteroidSize::Large, 0, 0)];
    let mut shots = vec![shot(5, 0, 0)];
    let mut particles: Vec<ParticleBundle> = Vec::new();
    let mut events: Vec<LifecycleEvent> = Vec::new();
    let mut count = AsteroidCount { max_asteroids: 8, current_count: 1 };
    bullet_asteroid_collision_system(
        &mut shots, &mut rocks, &mut particles, &mut events, &mut ids, &mut count, None, &mut rng,
    );
    assert!(rocks.is_empty());
    assert!(shots.is_empty());
    assert_eq!(count.current_count, 0);
    assert_eq!(particles.len(), 45);
    assert_eq!(events.len(), 1);
}

#[test]
fn one_destruction_at_a_time() {
    let f = field();
    let mut rng = RandomStream::from_seed(12);
    let mut ids = IdAllocator { next: 1_000 };
    let mut rocks = vec![rock(3, AsteroidSize::Small, 9, 9)];
    let mut particles: Vec<ParticleBundle> = Vec::new();
    let mut events: Vec<LifecycleEvent> = Vec::new();
    let target = rock(1, AsteroidSize::Medium, 50_000, -60_000);
    let made = destroy_asteroid(
        &target, Some(&f), &mut rocks, &mut particles, &mut events, &mut ids, &mut rng,
    );
    assert_eq!(made, 2);
    assert_eq!(particles.len(), 28);
    assert_eq!(rocks.len(), 3);
    assert_eq!(rocks[0], rock(3, AsteroidSize::Small, 9, 9));
    assert_eq!(rocks[1].asteroid.size, AsteroidSize::Small);
    assert_eq!(rocks[2].translation, Vec2::new(50_000, -60_000));
    assert_eq!((rocks[1].id, rocks[2].id), (1_028, 1_029));
    assert_eq!(ids.next, 1_030);
    assert_eq!(
        events,
        vec![LifecycleEvent::AsteroidDestroyed {
            position: Vec2::new(50_000, -60_000),
            size_class: AsteroidSize::Medium
        }]
    );
    for p in &particles {
        assert!((p.translation.x - 50_000).abs() <= 5_000);
        assert!((p.translation.y + 60_000).abs() <= 5_000);
    }
    // without a playfield the burst still rises, and no fragment is left
    let made = destroy_asteroid(&target, None, &mut rocks, &mut particles, &mut events, &mut ids, &mut rng);
    assert_eq!(made, 0);
    assert_eq!(rocks.len(), 3);
    assert_eq!(particles.len(), 56);
    assert_eq!(events.len(), 2);
    // a small asteroid leaves none either
    let small = rock(7, AsteroidSize::Small, 0, 0);
    let made = destroy_asteroid(&small, Some(&f), &mut rocks, &mut particles, &mut events, &mut ids, &mut rng);
    assert_eq!(made, 0);
    assert_eq!(rocks.len(), 3);
    assert_eq!(particles.len(), 56 + 17);
}
