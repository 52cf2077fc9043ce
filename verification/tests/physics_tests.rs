use asteroids_core::entity::{IdAllocator, Transform2d};
use asteroids_core::fixed::Vec2;
use asteroids_core::input::InputSnapshot;
use asteroids_core::particles::{engine_particle_system, ParticleBundle};
use asteroids_core::physics::{
    apply_movement, apply_rotation_input, damping_factor, gather_movement_input,
    get_pressed_directions, interpolate, interpolate_rendered_transform, limit_speed,
    reset_ship_position, update_physics_state, wrap_screen_position, InputAccumulator,
    MoveDirection, MovementInputAccumulator, PhysicalRotation, PhysicalTranslation,
    PreviousPhysicalRotation, PreviousPhysicalTranslation, ShipPhysicsBundle, Velocity,
    INPUT_LIMIT, MAX_VELOCITY,
};
use asteroids_core::playfield::Playfield;
use asteroids_core::rng::RandomStream;
use asteroids_core::timing::Pacer;
use asteroids_core::trig::forward;

fn held(forward: bool, reverse: bool, turn_left: bool, turn_right: bool) -> InputSnapshot {
    InputSnapshot { forward, reverse, turn_left, turn_right, fire: false, reset: false }
}

#[test]
fn test_forward_vector_calculation() {
    let rotation = PhysicalRotation(0);
    let nose = forward(rotation.0);
    assert_eq!(nose, Vec2::new(0, 1_000_000));
}

#[test]
fn test_apply_movement_clamp() {
    let input = MovementInputAccumulator { value: Vec2::new(0, 1) };
    let rotation = PhysicalRotation(0);
    let mut velocity = Velocity(Vec2::zero());
    apply_movement(1_000_000, &input, &rotation, &mut velocity);
    assert_eq!(velocity.0.y, MAX_VELOCITY);
    assert_eq!(velocity.0.x, 0);
}

#[test]
fn test_engine_particle_spawn() {
    let input = MovementInputAccumulator { value: Vec2::new(0, 1) };
    let transform = Transform2d::identity();
    let rotation = PhysicalRotation(0);
    let mut particles: Vec<ParticleBundle> = Vec::new();
    let mut ids = IdAllocator::new();
    let mut rng = RandomStream::from_seed(7);
    engine_particle_system(&mut particles, &mut ids, &input, &transform, &rotation, &mut rng);
    assert_eq!(particles.len(), 1);
    assert_eq!(particles[0].translation, Vec2::new(0, -20_000));
}

#[test]
fn engine_is_silent_without_forward_thrust() {
    let transform = Transform2d::identity();
    let rotation = PhysicalRotation(0);
    let mut particles: Vec<ParticleBundle> = Vec::new();
    let mut ids = IdAllocator::new();
    let mut rng = RandomStream::from_seed(7);
    for y in [0i64, -1, -5] {
        let input = MovementInputAccumulator { value: Vec2::new(3, y) };
        engine_particle_system(&mut particles, &mut ids, &input, &transform, &rotation, &mut rng);
    }
    assert!(particles.is_empty());
    assert_eq!(ids.next, 0);
}

#[test]
fn engine_particle_flies_backwards() {
    let input = MovementInputAccumulator { value: Vec2::new(0, 2) };
    let transform = Transform2d::from_translation(Vec2::new(5_000, 7_000));
    let rotation = PhysicalRotation(0);
    let mut rng = RandomStream::from_seed(11);
    let mut ids = IdAllocator::new();
    let mut particles: Vec<ParticleBundle> = Vec::new();
    for _ in 0..50 {
        engine_particle_system(&mut particles, &mut ids, &input, &transform, &rotation, &mut rng);
    }
    assert_eq!(particles.len(), 50);
    for p in &particles {
        assert_eq!(p.translation, Vec2::new(5_000, -13_000));
        // direction (0, -1) disturbed by at most 0.2, at 60 to 100 pixels per second
        assert!(p.motion.velocity.y < 0);
        assert!(p.motion.velocity.y >= -120_000 && p.motion.velocity.y <= -48_000);
        assert!(p.motion.velocity.x.abs() <= 20_000);
        assert_eq!(p.motion.drag, 2);
        assert!(p.particle.initial_size >= 1_000 && p.particle.initial_size < 3_000);
        let life = p.particle.lifetime.duration_us;
        assert!(life >= 200_000 && life < 400_000);
        assert_eq!((p.color.red, p.color.green, p.color.blue), (1_000_000, 500_000, 200_000));
    }
}

#[test]
fn thrust_below_the_limit_is_not_clamped() {
    // one tick of thrust from rest: 800 px/s^2 for 1/64 s, then damping
    let input = MovementInputAccumulator { value: Vec2::new(0, 1) };
    let rotation = PhysicalRotation(0);
    let mut velocity = Velocity(Vec2::zero());
    apply_movement(15_625, &input, &rotation, &mut velocity);
    // 12_500 * 0.999684382 = 12_496.05..., rounded toward zero
    assert_eq!(velocity.0, Vec2::new(0, 12_496));
}

#[test]
fn reverse_thrust_pushes_backwards() {
    let input = MovementInputAccumulator { value: Vec2::new(0, -1) };
    let rotation = PhysicalRotation(0);
    let mut velocity = Velocity(Vec2::zero());
    apply_movement(15_625, &input, &rotation, &mut velocity);
    assert_eq!(velocity.0, Vec2::new(0, -12_496));
}

#[test]
fn further_ticks_do_not_exceed_the_limit() {
    let input = MovementInputAccumulator { value: Vec2::new(0, 1) };
    let mut velocity = Velocity(Vec2::zero());
    let limit = (MAX_VELOCITY as i128) * (MAX_VELOCITY as i128);
    let mut rotation = PhysicalRotation(0);
    for step in 0..2_000 {
        rotation.0 += 37_000 * (step % 5);
        apply_movement(15_625, &input, &rotation, &mut velocity);
        let x = velocity.0.x as i128;
        let y = velocity.0.y as i128;
        assert!(x * x + y * y <= limit);
    }
    // held on one course, thrust saturates the speed
    for _ in 0..400 {
        apply_movement(15_625, &input, &rotation, &mut velocity);
    }
    let x = velocity.0.x as i128;
    let y = velocity.0.y as i128;
    assert!(x * x + y * y > (limit * 99) / 100);
}

#[test]
fn drifting_ship_slows_by_two_percent_per_second() {
    let input = MovementInputAccumulator { value: Vec2::zero() };
    let rotation = PhysicalRotation(1_234_567);
    let mut velocity = Velocity(Vec2::new(100_000, -50_000));
    apply_movement(1_000_000, &input, &rotation, &mut velocity);
    assert_eq!(velocity.0, Vec2::new(98_000, -49_000));
}

#[test]
fn damping_factor_values() {
    assert_eq!(damping_factor(0), 1_000_000_000);
    assert_eq!(damping_factor(1_000_000), 980_000_000);
    assert_eq!(damping_factor(2_000_000), 960_400_000);
    assert_eq!(damping_factor(15_625), 999_684_382);
    assert_eq!(damping_factor(500_000), 989_949_493);
    assert_eq!(damping_factor(250_000), 994_962_056);
}

#[test]
fn damping_factor_tracks_the_power() {
    for dt in [1u32, 999, 15_625, 16_667, 333_333, 999_999, 1_500_000, 7_250_000] {
        let exact = 0.98f64.powf(dt as f64 / 1e6) * 1e9;
        let got = damping_factor(dt) as f64;
        assert!((got - exact).abs() <= 10.0, "dt {} got {} exact {}", dt, got, exact);
    }
}

#[test]
fn limit_speed_keeps_direction() {
    assert_eq!(limit_speed(3_000_000, 4_000_000, 600_000), Vec2::new(360_000, 480_000));
    assert_eq!(limit_speed(-3_000_000, 4_000_000, 600_000), Vec2::new(-360_000, 480_000));
    assert_eq!(limit_speed(300_000, 400_000, 600_000), Vec2::new(300_000, 400_000));
    assert_eq!(limit_speed(600_000, 0, 600_000), Vec2::new(600_000, 0));
    assert_eq!(limit_speed(0, -600_001, 600_000), Vec2::new(0, -600_000));
}

#[test]
fn pressed_directions_in_order() {
    assert_eq!(get_pressed_directions(&held(false, false, false, false)), vec![]);
    assert_eq!(
        get_pressed_directions(&held(true, true, true, true)),
        vec![MoveDirection::Up, MoveDirection::Down, MoveDirection::Left, MoveDirection::Right]
    );
    assert_eq!(
        get_pressed_directions(&held(false, true, false, true)),
        vec![MoveDirection::Down, MoveDirection::Right]
    );
}

#[test]
fn gather_sums_between_ticks() {
    let mut acc = MovementInputAccumulator { value: Vec2::zero() };
    gather_movement_input(&held(true, false, false, false), &mut acc);
    gather_movement_input(&held(true, false, true, false), &mut acc);
    gather_movement_input(&held(true, false, false, true), &mut acc);
    assert_eq!(acc.get(), Vec2::new(0, 3));
    gather_movement_input(&held(false, true, false, false), &mut acc);
    assert_eq!(acc.get(), Vec2::new(0, 2));
    gather_movement_input(&held(true, true, false, false), &mut acc);
    assert_eq!(acc.get(), Vec2::new(0, 2));
    gather_movement_input(&held(false, false, true, true), &mut acc);
    assert_eq!(acc.get(), Vec2::new(0, 2));
    acc.reset();
    assert_eq!(acc.get(), Vec2::zero());
}

#[test]
fn accumulate_adds_componentwise_and_saturates() {
    let mut acc = MovementInputAccumulator { value: Vec2::new(1, -2) };
    acc.accumulate(Vec2::new(10, 20));
    assert_eq!(acc.get(), Vec2::new(11, 18));
    acc.accumulate(Vec2::new(i64::MAX, i64::MIN));
    assert_eq!(acc.get(), Vec2::new(INPUT_LIMIT, -INPUT_LIMIT));
    acc.accumulate(Vec2::new(1, -1));
    assert_eq!(acc.get(), Vec2::new(INPUT_LIMIT, -INPUT_LIMIT));
}

#[test]
fn rotation_follows_wall_time() {
    let mut rotation = PhysicalRotation(100);
    let mut previous = PreviousPhysicalRotation(-7);
    apply_rotation_input(&held(false, false, true, false), 1_000_000, &mut rotation, &mut previous);
    assert_eq!(previous.0, 100);
    assert_eq!(rotation.0, 4_500_100);
    apply_rotation_input(&held(false, false, false, true), 16_667, &mut rotation, &mut previous);
    assert_eq!(previous.0, 4_500_100);
    assert_eq!(rotation.0, 4_500_100 - 75_001);
    apply_rotation_input(&held(false, false, true, true), 250_000, &mut rotation, &mut previous);
    assert_eq!(rotation.0, 4_425_099);
    apply_rotation_input(&held(true, true, false, false), 250_000, &mut rotation, &mut previous);
    assert_eq!(rotation.0, 4_425_099);
    assert_eq!(previous.0, 4_425_099);
}

#[test]
fn rotation_is_not_reduced_modulo_a_turn() {
    let mut rotation = PhysicalRotation(0);
    let mut previous = PreviousPhysicalRotation(0);
    for _ in 0..10 {
        apply_rotation_input(&held(false, false, true, false), 1_000_000, &mut rotation, &mut previous);
    }
    assert_eq!(rotation.0, 45_000_000);
}

#[test]
fn physics_state_integrates_and_consumes_input() {
    let mut current = PhysicalTranslation(Vec2::new(1_000, -2_000));
    let mut previous = PreviousPhysicalTranslation(Vec2::new(9, 9));
    let mut acc = MovementInputAccumulator { value: Vec2::new(0, 4) };
    let velocity = Velocity(Vec2::new(64_000, -640_000));
    update_physics_state(15_625, &mut current, &mut previous, &mut acc, &velocity);
    assert_eq!(previous.0, Vec2::new(1_000, -2_000));
    assert_eq!(current.0, Vec2::new(2_000, -12_000));
    assert_eq!(acc.get(), Vec2::zero());
}

#[test]
fn interpolation_blends_linearly() {
    assert_eq!(interpolate(0, 1_000, 500_000), 500);
    assert_eq!(interpolate(1_000, 0, 250_000), 750);
    assert_eq!(interpolate(-400, 400, 0), -400);
    assert_eq!(interpolate(-400, 400, 1_000_000), 400);
    assert_eq!(interpolate(i64::MIN, i64::MAX, 1_000_000), i64::MAX);
    assert_eq!(interpolate(7, 7, 123_456), 7);
}

#[test]
fn rendered_transform_uses_overstep_fraction() {
    let mut pacer = Pacer::new();
    assert_eq!(pacer.advance(15_625 + 15_625 / 5), 1);
    assert_eq!(pacer.overstep_fraction(), 200_000);
    let mut transform = Transform2d { translation: Vec2::new(1, 1), rotation: 1, scale: 400_000 };
    interpolate_rendered_transform(
        &pacer,
        &mut transform,
        &PhysicalTranslation(Vec2::new(1_000, 2_000)),
        &PreviousPhysicalTranslation(Vec2::new(0, 1_000)),
        &PhysicalRotation(50),
        &PreviousPhysicalRotation(100),
    );
    assert_eq!(transform.translation, Vec2::new(200, 1_200));
    assert_eq!(transform.rotation, 90);
    assert_eq!(transform.scale, 400_000);
}

#[test]
fn ship_wraps_with_its_own_margin() {
    let playfield = Playfield::new(1_280_000, 720_000).unwrap();
    let mut at = PhysicalTranslation(Vec2::new(690_001, -410_001));
    let mut previous = PreviousPhysicalTranslation(Vec2::new(680_000, -400_000));
    wrap_screen_position(&playfield, &mut at, &mut previous);
    assert_eq!(at.0, Vec2::new(-690_000, 410_000));
    assert_eq!(previous.0, Vec2::new(-690_000, 410_000));
    // a second wrap is the identity
    wrap_screen_position(&playfield, &mut at, &mut previous);
    assert_eq!(at.0, Vec2::new(-690_000, 410_000));
    assert_eq!(previous.0, Vec2::new(-690_000, 410_000));
}

#[test]
fn ship_on_the_margin_stays() {
    let playfield = Playfield::new(1_280_000, 720_000).unwrap();
    let mut at = PhysicalTranslation(Vec2::new(690_000, -410_000));
    let mut previous = PreviousPhysicalTranslation(Vec2::new(1, 2));
    wrap_screen_position(&playfield, &mut at, &mut previous);
    assert_eq!(at.0, Vec2::new(690_000, -410_000));
    assert_eq!(previous.0, Vec2::new(1, 2));
}

#[test]
fn reset_is_edge_triggered_by_the_caller() {
    let mut at = PhysicalTranslation(Vec2::new(5, 6));
    let mut velocity = Velocity(Vec2::new(7, 8));
    let mut rotation = PhysicalRotation(9);
    reset_ship_position(false, &mut at, &mut velocity, &mut rotation);
    assert_eq!((at.0, velocity.0, rotation.0), (Vec2::new(5, 6), Vec2::new(7, 8), 9));
    reset_ship_position(true, &mut at, &mut velocity, &mut rotation);
    assert_eq!((at.0, velocity.0, rotation.0), (Vec2::zero(), Vec2::zero(), 0));
}

#[test]
fn reset_then_idle_stays_at_origin() {
    let mut ship = ShipPhysicsBundle::default();
    ship.physical_translation.0 = Vec2::new(123_000, -5_000);
    ship.velocity.0 = Vec2::new(300_000, 200_000);
    ship.physical_rotation.0 = 2_000_000;
    reset_ship_position(
        true,
        &mut ship.physical_translation,
        &mut ship.velocity,
        &mut ship.physical_rotation,
    );
    for _ in 0..100 {
        apply_rotation_input(
            &InputSnapshot::idle(),
            16_667,
            &mut ship.physical_rotation,
            &mut ship.previous_physical_rotation,
        );
        let acc = ship.movement_input_accumulator;
        let rotation = ship.physical_rotation;
        apply_movement(15_625, &acc, &rotation, &mut ship.velocity);
        let velocity = ship.velocity;
        update_physics_state(
            15_625,
            &mut ship.physical_translation,
            &mut ship.previous_physical_translation,
            &mut ship.movement_input_accumulator,
            &velocity,
        );
    }
    assert_eq!(ship.physical_translation.0, Vec2::zero());
    assert_eq!(ship.velocity.0, Vec2::zero());
    assert_eq!(ship.physical_rotation.0, 0);
}

#[test]
fn default_ship_is_at_rest() {
    let ship = ShipPhysicsBundle::default();
    assert_eq!(ship.physical_translation.0, Vec2::zero());
    assert_eq!(ship.previous_physical_translation.0, Vec2::zero());
    assert_eq!(ship.physical_rotation.0, 0);
    assert_eq!(ship.previous_physical_rotation.0, 0);
    assert_eq!(ship.velocity.0, Vec2::zero());
    assert_eq!(ship.movement_input_accumulator.get(), Vec2::zero());
}
