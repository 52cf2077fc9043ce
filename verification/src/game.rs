//! The whole simulation and the order in which a frame advances it.
//!
//! A frame gathers input and turns the ship at the rate of the display,
//! runs as many fixed ticks of physics as the pacer schedules, then ages
//! the particles and projects the ship for rendering.

use vstd::prelude::*;
use crate::fixed::{Vec2, MICRO};
use crate::timing::{Pacer, Timer, TimerMode};
use crate::input::InputSnapshot;
use crate::playfield::Playfield;
use crate::entity::{Color, EntityKind, IdAllocator, RenderEntity, Transform2d};
use crate::events::LifecycleEvent;
use crate::sequences::lemma_prefix_of_prefix;
use crate::rng::RandomStream;
use crate::physics::{
    apply_movement, apply_rotation_input, gather_movement_input, interpolate,
    interpolate_rendered_transform, lerp, movement_input, accumulated, reset_ship_position,
    rotation_after, update_physics_state, velocity_after, moved_position, wrap_screen_position,
    wrapped_previous, MovementInputAccumulator, PhysicalRotation, PhysicalTranslation,
    PreviousPhysicalRotation, PreviousPhysicalTranslation, ShipPhysicsBundle, Velocity,
    MAX_VELOCITY, SCREEN_HEIGHT, SCREEN_WIDTH, WRAP_MARGIN,
};
use crate::asteroids::{
    bullet_asteroid_collision_system, integrate_asteroids, spawn_asteroid_system, wrap_asteroids,
    AsteroidBundle, AsteroidCount, AsteroidSize, AsteroidSpawnTimer, drifted_asteroid,
    wrapped_asteroid, unhit, unclaimed, destroyed_events, fragments_made, particles_made,
    hit_count, effects_recorded, is_edge_spawn, lemma_effects_stable, lemma_tallies_grow,
    lemma_unclaimed_len, lemma_all_false, asteroids_ascend, lemma_unhit_ascend,
    lemma_pushed_asteroid_ascends, lemma_asteroids_ascend_widens, lemma_asteroids_ascend_carries,
    asteroids_within,
};
use crate::collision::{hits_of, claimed_after};
use crate::particles::{
    all_particles_wf, engine_particle_system, update_particles, ParticleBundle, surviving,
    is_engine_particle, exhaust_position, exhaust_direction, particles_ascend,
    lemma_surviving_ascend, lemma_pushed_particle_ascends, lemma_particles_ascend_widens,
};
use crate::weapons::{
    all_bullets_wf, bullet_from, bullet_lifetime_system, integrate_bullets, shoot_system,
    shot_is_due, BulletBundle, ShootCooldown, ShootTimer, flown_bullet, unexpired,
    bullets_ascend, lemma_unexpired_ascend, lemma_pushed_bullet_ascends,
    lemma_bullets_ascend_widens, lemma_bullets_ascend_carries,
};
use crate::player::spawn_player;

verus! {

/// The state of one game: the entity stores and every resource.
pub struct Game {
    pub ship_id: u64,
    pub ship: ShipPhysicsBundle,
    pub ship_transform: Transform2d,
    pub asteroids: Vec<AsteroidBundle>,
    pub bullets: Vec<BulletBundle>,
    pub particles: Vec<ParticleBundle>,
    pub asteroid_count: AsteroidCount,
    pub asteroid_spawn_timer: AsteroidSpawnTimer,
    pub shoot_timer: ShootTimer,
    pub shoot_cooldown: ShootCooldown,
    pub fixed_time: Pacer,
    pub window: Option<Playfield>,
    pub ids: IdAllocator,
    pub rng: RandomStream,
    pub reset_held: bool,
}

impl Game {
    /// The invariant of the simulation: the ship is within its speed limit,
    /// the asteroid count is the number of asteroids in the store, and
    /// every timer, bullet and particle is well formed.
    pub open spec fn wf(&self) -> bool {
        &&& self.ship.wf()
        &&& self.ship.velocity.0.norm_sq() <= MAX_VELOCITY * MAX_VELOCITY
        &&& self.asteroid_count.current_count == self.asteroids@.len()
        &&& self.asteroid_spawn_timer.0.wf()
        &&& self.shoot_cooldown.wf()
        &&& self.fixed_time.wf()
        &&& (self.window.is_some() ==> self.window.unwrap().wf())
        &&& all_bullets_wf(self.bullets@)
        &&& all_particles_wf(self.particles@)
    }

    /// No two entities of a kind share an identifier, and no identifier in
    /// use has yet to be handed out: within each store the identifiers
    /// ascend strictly and lie below the allocator's next.
    pub open spec fn identifiers_ascend(&self) -> bool {
        &&& self.ship_id < self.ids.next
        &&& asteroids_ascend(self.asteroids@, self.ids.next as int)
        &&& bullets_ascend(self.bullets@, self.ids.next as int)
        &&& particles_ascend(self.particles@, self.ids.next as int)
    }

    /// Tests the invariant of the simulation.
    pub fn is_well_formed(&self) -> (ok: bool)
        ensures
            ok == self.wf(),
    {
        if !self.ship.is_well_formed() {
            return false;
        }
        let x: i128 = self.ship.velocity.0.x as i128;
        let y: i128 = self.ship.velocity.0.y as i128;
        proof {
            crate::fixed::lemma_product_bound(x as int, x as int, 1_000_000_000, 1_000_000_000);
            crate::fixed::lemma_product_bound(y as int, y as int, 1_000_000_000, 1_000_000_000);
            crate::fixed::lemma_product_bound(
                MAX_VELOCITY as int,
                MAX_VELOCITY as int,
                600_000,
                600_000,
            );
        }
        let limit: i128 = (MAX_VELOCITY as i128) * (MAX_VELOCITY as i128);
        if x * x + y * y > limit {
            return false;
        }
        if self.asteroid_count.current_count != self.asteroids.len() {
            return false;
        }
        if !self.asteroid_spawn_timer.0.is_well_formed() || !self.shoot_cooldown.is_well_formed()
            || !self.fixed_time.is_well_formed() {
            return false;
        }
        if let Some(playfield) = self.window {
            if !playfield.is_well_formed() {
                return false;
            }
        }
        let mut i: usize = 0;
        while i < self.bullets.len()
            invariant
                i <= self.bullets@.len(),
                forall|k: int| 0 <= k < i ==> (#[trigger] self.bullets@[k]).wf(),
            decreases self.bullets@.len() - i,
        {
            if !self.bullets[i].is_well_formed() {
                return false;
            }
            i = i + 1;
        }
        let mut j: usize = 0;
        while j < self.particles.len()
            invariant
                j <= self.particles@.len(),
                all_bullets_wf(self.bullets@),
                forall|k: int| 0 <= k < j ==> (#[trigger] self.particles@[k]).wf(),
            decreases self.particles@.len() - j,
        {
            if !self.particles[j].is_well_formed() {
                return false;
            }
            j = j + 1;
        }
        true
    }

    /// A new game: one ship at rest at the origin, no asteroid, bullet or
    /// particle, the default playfield, and a random stream determined by
    /// `seed`.
    pub fn new(seed: u64) -> (game: Game)
        ensures
            game.wf(),
            game.identifiers_ascend(),
            game.ship == ShipPhysicsBundle::at_rest(),
            game.ship_id == 0,
            game.ids.next == 1,
            game.asteroids@.len() == 0,
            game.bullets@.len() == 0,
            game.particles@.len() == 0,
            game.asteroid_count == (AsteroidCount {
                max_asteroids: crate::asteroids::MAX_ASTEROIDS,
                current_count: 0,
            }),
            game.asteroid_spawn_timer.0 == (Timer {
                mode: TimerMode::Repeating,
                duration_us: crate::asteroids::ASTEROID_SPAWN_PERIOD_US,
                elapsed_us: 0,
                finished: false,
            }),
            game.shoot_timer.0 == (Timer {
                mode: TimerMode::Repeating,
                duration_us: crate::weapons::SHOOT_TIMER_PERIOD_US,
                elapsed_us: 0,
                finished: false,
            }),
            game.shoot_cooldown == (ShootCooldown {
                cooldown_us: crate::weapons::SHOOT_COOLDOWN_US,
                timer: Timer {
                    mode: TimerMode::Once,
                    duration_us: crate::weapons::SHOOT_COOLDOWN_US,
                    elapsed_us: 0,
                    finished: false,
                },
            }),
            game.ship_transform == (Transform2d {
                translation: Vec2 { x: 0, y: 0 },
                rotation: 0,
                scale: crate::player::PLAYER_SCALE,
            }),
            game.window == Some(Playfield { width: SCREEN_WIDTH, height: SCREEN_HEIGHT }),
            game.fixed_time == (Pacer {
                timestep_us: crate::timing::FIXED_TIMESTEP_US,
                overstep_us: 0,
            }),
            !game.reset_held,
    {
        let player = spawn_player();
        assert(MAX_VELOCITY * MAX_VELOCITY > 0) by (nonlinear_arith);
        let mut ids = IdAllocator::new();
        let ship_id: u64 = ids.allocate();
        proof {
            reveal(asteroids_ascend);
            reveal(bullets_ascend);
            reveal(particles_ascend);
        }
        Game {
            ship_id,
            ship: player.physics,
            ship_transform: player.transform,
            asteroids: Vec::new(),
            bullets: Vec::new(),
            particles: Vec::new(),
            asteroid_count: AsteroidCount::default(),
            asteroid_spawn_timer: AsteroidSpawnTimer::default(),
            shoot_timer: ShootTimer::default(),
            shoot_cooldown: ShootCooldown::default(),
            fixed_time: Pacer::new(),
            window: Some(Playfield { width: SCREEN_WIDTH, height: SCREEN_HEIGHT }),
            ids,
            rng: RandomStream::from_seed(seed),
            reset_held: false,
        }
    }

    /// Tells the game the current drawable area, or that there is none.
    pub fn set_window(&mut self, window: Option<Playfield>)
        requires
            old(self).wf(),
            window.is_some() ==> window.unwrap().wf(),
        ensures
            final(self).wf(),
            *final(self) == (Game { window, ..*old(self) }),
    {
        self.window = window;
    }

    /// The variable-rate phase before the physics ticks: resets the ship
    /// when the reset button has just gone down, gathers the movement
    /// input, turns the ship, and fires a bullet when one is due.
    pub fn pre_tick(
        &mut self,
        input: &InputSnapshot,
        wall_dt_us: u32,
        events: &mut Vec<LifecycleEvent>,
    )
        requires
            old(self).wf(),
        ensures
            final(self).wf(),
            pre_ticked(
                *old(self),
                *input,
                wall_dt_us as int,
                old(events)@,
                *final(self),
                final(events)@,
            ),
    {
        let just_pressed: bool = input.reset && !self.reset_held;
        self.reset_held = input.reset;
        reset_ship_position(
            just_pressed,
            &mut self.ship.physical_translation,
            &mut self.ship.velocity,
            &mut self.ship.physical_rotation,
        );
        if just_pressed {
            events.push(LifecycleEvent::ShipReset);
        }
        gather_movement_input(input, &mut self.ship.movement_input_accumulator);
        apply_rotation_input(
            input,
            wall_dt_us,
            &mut self.ship.physical_rotation,
            &mut self.ship.previous_physical_rotation,
        );
        let before: usize = self.bullets.len();
        let transform = self.ship_transform;
        shoot_system(
            &mut self.bullets,
            &mut self.ids,
            &mut self.shoot_cooldown,
            wall_dt_us,
            input,
            Some(&transform),
        );
        if self.bullets.len() > before {
            let fired = self.bullets[before];
            events.push(LifecycleEvent::BulletFired { position: fired.translation });
        }
        proof {
            assert(MAX_VELOCITY * MAX_VELOCITY > 0) by (nonlinear_arith);
            assert(events@ =~= old(events)@ + pre_tick_events(
                *old(self),
                *input,
                wall_dt_us as int,
            ));
            if shot_is_due(old(self).shoot_cooldown, *input, wall_dt_us as int, true) {
                assert(self.bullets@ =~= old(self).bullets@.push(self.bullets@.last()));
            }
            if old(self).identifiers_ascend() && self.ids.next < u64::MAX {
                let bound = old(self).ids.next as int;
                let wider = self.ids.next as int;
                lemma_asteroids_ascend_widens(self.asteroids@, bound, wider);
                lemma_particles_ascend_widens(self.particles@, bound, wider);
                if shot_is_due(old(self).shoot_cooldown, *input, wall_dt_us as int, true) {
                    lemma_pushed_bullet_ascends(
                        old(self).bullets@,
                        self.bullets@,
                        old(self).ids.next,
                    );
                } else {
                    lemma_bullets_ascend_widens(self.bullets@, bound, wider);
                }
            }
        }
    }

    /// The motion of one fixed tick: thrust, damping and the speed limit
    /// act on the ship, then ship, asteroids and bullets move, bullets
    /// whose time is up end, and ship and asteroids wrap around the
    /// playfield.
    fn move_entities(&mut self)
        requires
            old(self).wf(),
        ensures
            final(self).wf(),
            final(self).ship == ship_after_tick(
                old(self).ship,
                old(self).fixed_time.timestep_us as int,
                old(self).window,
            ),
            final(self).ship.velocity.0.norm_sq() <= MAX_VELOCITY * MAX_VELOCITY,
            old(self).window.is_some() ==> old(self).window.unwrap().contains(
                final(self).ship.physical_translation.0,
                WRAP_MARGIN as int,
            ),
            final(self).bullets@ == bullets_in_flight(*old(self)),
            final(self).asteroids@ == asteroids_in_place(*old(self)),
            old(self).window.is_some() ==> asteroids_within(
                final(self).asteroids@,
                old(self).window.unwrap(),
            ),
            final(self).particles@ == old(self).particles@,
            final(self).ids == old(self).ids,
            final(self).asteroid_count == old(self).asteroid_count,
            final(self).asteroid_spawn_timer == old(self).asteroid_spawn_timer,
            final(self).fixed_time == old(self).fixed_time,
            final(self).window == old(self).window,
            final(self).shoot_cooldown == old(self).shoot_cooldown,
            final(self).shoot_timer == old(self).shoot_timer,
            final(self).ship_transform == old(self).ship_transform,
            final(self).reset_held == old(self).reset_held,
            final(self).ship_id == old(self).ship_id,
    {
        let dt: u32 = self.fixed_time.timestep_us;
        let window: Option<Playfield> = self.window;
        let accumulator = self.ship.movement_input_accumulator;
        let rotation = self.ship.physical_rotation;
        apply_movement(dt, &accumulator, &rotation, &mut self.ship.velocity);
        let velocity = self.ship.velocity;
        update_physics_state(
            dt,
            &mut self.ship.physical_translation,
            &mut self.ship.previous_physical_translation,
            &mut self.ship.movement_input_accumulator,
            &velocity,
        );
        integrate_asteroids(&mut self.asteroids, dt);
        integrate_bullets(&mut self.bullets, dt);
        assert(self.bullets@ =~= flown_all(old(self).bullets@, dt as int));
        assert(self.asteroids@ =~= drifted_all(old(self).asteroids@, dt as int));
        bullet_lifetime_system(&mut self.bullets, dt);
        if let Some(playfield) = window {
            wrap_screen_position(
                &playfield,
                &mut self.ship.physical_translation,
                &mut self.ship.previous_physical_translation,
            );
        }
        wrap_asteroids(&mut self.asteroids, window.as_ref());
        assert(self.asteroids@ =~= asteroids_in_place(*old(self)));
        assert(MAX_VELOCITY * MAX_VELOCITY > 0) by (nonlinear_arith);
    }

    /// The outcome of one fixed tick: resolves the hits of the bullets on
    /// the asteroids as they now stand, and lets the spawn timer add an
    /// asteroid when one is due.
    #[verifier::rlimit(40)]
    fn resolve(&mut self, events: &mut Vec<LifecycleEvent>)
        requires
            old(self).wf(),
        ensures
            final(self).wf(),
            resolved(
                old(self).bullets@,
                old(self).asteroids@,
                old(self).particles@,
                *old(self),
                old(events)@,
                *final(self),
                final(events)@,
            ),
            final(self).ship == old(self).ship,
            final(self).asteroid_count.max_asteroids == old(self).asteroid_count.max_asteroids,
            final(self).fixed_time == old(self).fixed_time,
            final(self).window == old(self).window,
            final(self).shoot_cooldown == old(self).shoot_cooldown,
            final(self).shoot_timer == old(self).shoot_timer,
            final(self).ship_transform == old(self).ship_transform,
            final(self).reset_held == old(self).reset_held,
            final(self).ship_id == old(self).ship_id,
    {
        let dt: u32 = self.fixed_time.timestep_us;
        let window: Option<Playfield> = self.window;
        let playfield: Option<&Playfield> = window.as_ref();
        let ghost shots = self.bullets@;
        let ghost rocks = self.asteroids@;
        let ghost hits = hits_of(shots, rocks);
        let ghost ids0 = self.ids;
        let ghost particle_base = self.particles@.len() as int;
        let ghost asteroid_base = survivors_of(shots, rocks).len() as int;
        bullet_asteroid_collision_system(
            &mut self.bullets,
            &mut self.asteroids,
            &mut self.particles,
            events,
            &mut self.ids,
            &mut self.asteroid_count,
            playfield,
            &mut self.rng,
        );
        let ghost ps_mid = self.particles@;
        let ghost fs_mid = self.asteroids@;
        let ghost ids_mid = self.ids;
        spawn_asteroid_system(
            &mut self.asteroids,
            &mut self.ids,
            &mut self.asteroid_spawn_timer,
            &mut self.asteroid_count,
            dt,
            playfield,
            &mut self.rng,
        );
        proof {
            lemma_tallies_grow(rocks, hits, window.is_some(), 0, shots.len() as int);
            assert(self.asteroids@.subrange(0, fs_mid.len() as int) =~= fs_mid);
            assert(self.particles@.subrange(0, ps_mid.len() as int) =~= ps_mid);
            lemma_prefix_of_prefix(survivors_of(shots, rocks), fs_mid, self.asteroids@);
            lemma_prefix_of_prefix(old(self).particles@, ps_mid, self.particles@);
            assert forall|b: int| 0 <= b < shots.len() implies #[trigger] effects_recorded(
                rocks,
                hits,
                window.is_some(),
                ids0,
                particle_base,
                asteroid_base,
                self.particles@,
                self.asteroids@,
                b,
            ) by {
                lemma_tallies_grow(rocks, hits, window.is_some(), b + 1, shots.len() as int);
                lemma_effects_stable(
                    rocks,
                    hits,
                    window.is_some(),
                    ids0,
                    particle_base,
                    asteroid_base,
                    ps_mid,
                    fs_mid,
                    self.particles@,
                    self.asteroids@,
                    b,
                );
            }
            if stores_ascend(shots, rocks, old(self).particles@, ids0.next as int) && self.ids.next
                < u64::MAX {
                let wider = self.ids.next as int;
                lemma_unhit_ascend(shots, hits, shots.len() as int, ids0.next as int);
                lemma_bullets_ascend_widens(self.bullets@, ids0.next as int, wider);
                lemma_particles_ascend_widens(self.particles@, ids_mid.next as int, wider);
                if self.asteroids@.len() > fs_mid.len() {
                    lemma_pushed_asteroid_ascends(fs_mid, self.asteroids@, ids_mid.next);
                } else {
                    lemma_asteroids_ascend_widens(self.asteroids@, ids_mid.next as int, wider);
                }
            }
        }
    }

    /// One fixed tick of physics: moves the ship, the asteroids and the
    /// bullets, ends the bullets whose time is up, wraps ship and asteroids
    /// around the playfield, resolves the hits, and lets the spawn timer
    /// add an asteroid when one is due.
    pub fn fixed_tick(&mut self, events: &mut Vec<LifecycleEvent>)
        requires
            old(self).wf(),
        ensures
            final(self).wf(),
            ticked(*old(self), old(events)@, *final(self), final(events)@),
    {
        self.move_entities();
        proof {
            if old(self).identifiers_ascend() {
                lemma_tick_orders_stores(*old(self), old(self).ids.next as int);
            }
        }
        self.resolve(events);
    }

    /// The variable-rate phase after the physics ticks: ages the particles,
    /// emits one exhaust particle if `intent`, the movement input as this
    /// frame gathered it, asks for forward thrust, and projects the ship
    /// for rendering.
    pub fn post_tick(&mut self, intent: &MovementInputAccumulator, wall_dt_us: u32)
        requires
            old(self).wf(),
        ensures
            final(self).wf(),
            post_ticked(*old(self), *intent, wall_dt_us as int, *final(self)),
    {
        update_particles(&mut self.particles, wall_dt_us);
        let ghost aged = self.particles@;
        proof {
            if old(self).identifiers_ascend() {
                lemma_surviving_ascend(
                    old(self).particles@,
                    wall_dt_us as int,
                    old(self).particles@.len() as int,
                    old(self).ids.next as int,
                );
            }
        }
        let transform = self.ship_transform;
        let rotation = self.ship.physical_rotation;
        engine_particle_system(
            &mut self.particles,
            &mut self.ids,
            intent,
            &transform,
            &rotation,
            &mut self.rng,
        );
        proof {
            if intent.value.y > 0 {
                assert forall|i: int| 0 <= i < self.particles@.len() implies (
                #[trigger] self.particles@[i]).wf() by {
                    if i < aged.len() {
                        assert(self.particles@.drop_last()[i] == self.particles@[i]);
                    }
                }
            }
            if old(self).identifiers_ascend() && self.ids.next < u64::MAX {
                let bound = old(self).ids.next as int;
                let wider = self.ids.next as int;
                lemma_asteroids_ascend_widens(self.asteroids@, bound, wider);
                lemma_bullets_ascend_widens(self.bullets@, bound, wider);
                if intent.value.y > 0 {
                    lemma_pushed_particle_ascends(aged, self.particles@, old(self).ids.next);
                }
            }
        }
        let pacer = self.fixed_time;
        let ship = self.ship;
        interpolate_rendered_transform(
            &pacer,
            &mut self.ship_transform,
            &ship.physical_translation,
            &ship.previous_physical_translation,
            &ship.physical_rotation,
            &ship.previous_physical_rotation,
        );
    }

    /// Advances the game by one frame of `wall_dt_us` microseconds of wall
    /// time under the given input, and returns what happened, in order.
    pub fn advance(&mut self, input: &InputSnapshot, wall_dt_us: u32) -> (events: Vec<
        LifecycleEvent,
    >)
        requires
            old(self).wf(),
        ensures
            final(self).wf(),
            framed(*old(self), *input, wall_dt_us as int, *final(self), events@),
    {
        let mut events: Vec<LifecycleEvent> = Vec::new();
        self.pre_tick(input, wall_dt_us, &mut events);
        let intent = self.ship.movement_input_accumulator;
        let ghost gathered = *self;
        let ghost early = events@;
        let ticks: u32 = self.fixed_time.advance(wall_dt_us);
        let ghost start = *self;
        assert(start == paced(gathered, wall_dt_us as int));
        let mut done: u32 = 0;
        while done < ticks
            invariant
                done <= ticks,
                self.wf(),
                ticked_times(start, early, *self, events@, done as nat),
            decreases ticks - done,
        {
            let ghost middle = *self;
            let ghost reported_middle = events@;
            self.fixed_tick(&mut events);
            assert(ticked(middle, reported_middle, *self, events@));
            done = done + 1;
        }
        let ghost settled = *self;
        self.post_tick(&intent, wall_dt_us);
        assert(ticked_times(
            paced(gathered, wall_dt_us as int),
            early,
            settled,
            events@,
            old(self).fixed_time.ticks_due(wall_dt_us as int) as nat,
        ));
        events
    }

    /// Everything to draw, in store order: the ship, then the asteroids,
    /// the bullets and the particles. Ship, asteroids and bullets are
    /// blended between their previous and current physical state by the
    /// pacer's overstep fraction; particles are taken as they are.
    pub fn render_entities(&self) -> (view: Vec<RenderEntity>)
        requires
            self.wf(),
        ensures
            view@ == render_view(*self),
    {
        let alpha: u32 = self.fixed_time.overstep_fraction();
        let mut view: Vec<RenderEntity> = Vec::new();
        view.push(
            RenderEntity {
                kind: EntityKind::Ship,
                id: self.ship_id,
                position: self.ship_transform.translation,
                rotation: self.ship_transform.rotation,
                scale: self.ship_transform.scale,
                color: Color { red: 0, green: 0, blue: 1_000_000, alpha: 1_000_000 },
            },
        );
        let mut i: usize = 0;
        while i < self.asteroids.len()
            invariant
                i <= self.asteroids@.len(),
                alpha == self.fixed_time.fraction(),
                alpha <= MICRO,
                view@ == seq![ship_view(*self)] + asteroid_views(*self, i as int),
            decreases self.asteroids@.len() - i,
        {
            let a = self.asteroids[i];
            view.push(
                RenderEntity {
                    kind: EntityKind::Asteroid,
                    id: a.id,
                    position: Vec2 {
                        x: interpolate(a.previous_translation.x, a.translation.x, alpha),
                        y: interpolate(a.previous_translation.y, a.translation.y, alpha),
                    },
                    rotation: interpolate(a.previous_rotation, a.rotation, alpha),
                    scale: MICRO,
                    color: Color { red: 700_000, green: 700_000, blue: 700_000, alpha: 1_000_000 },
                },
            );
            i = i + 1;
            assert(view@ =~= seq![ship_view(*self)] + asteroid_views(*self, i as int));
        }
        let mut j: usize = 0;
        while j < self.bullets.len()
            invariant
                j <= self.bullets@.len(),
                alpha == self.fixed_time.fraction(),
                alpha <= MICRO,
                view@ == seq![ship_view(*self)] + asteroid_views(
                    *self,
                    self.asteroids@.len() as int,
                ) + bullet_views(*self, j as int),
            decreases self.bullets@.len() - j,
        {
            let b = self.bullets[j];
            view.push(
                RenderEntity {
                    kind: EntityKind::Bullet,
                    id: b.id,
                    position: Vec2 {
                        x: interpolate(b.previous_translation.x, b.translation.x, alpha),
                        y: interpolate(b.previous_translation.y, b.translation.y, alpha),
                    },
                    rotation: 0,
                    scale: MICRO,
                    color: Color { red: 1_000_000, green: 1_000_000, blue: 0, alpha: 1_000_000 },
                },
            );
            j = j + 1;
            assert(view@ =~= seq![ship_view(*self)] + asteroid_views(
                *self,
                self.asteroids@.len() as int,
            ) + bullet_views(*self, j as int));
        }
        let mut k: usize = 0;
        while k < self.particles.len()
            invariant
                k <= self.particles@.len(),
                view@ == seq![ship_view(*self)] + asteroid_views(
                    *self,
                    self.asteroids@.len() as int,
                ) + bullet_views(*self, self.bullets@.len() as int) + particle_views(
                    *self,
                    k as int,
                ),
            decreases self.particles@.len() - k,
        {
            let p = self.particles[k];
            view.push(
                RenderEntity {
                    kind: EntityKind::Particle,
                    id: p.id,
                    position: p.translation,
                    rotation: 0,
                    scale: p.scale,
                    color: p.color,
                },
            );
            k = k + 1;
            assert(view@ =~= seq![ship_view(*self)] + asteroid_views(
                *self,
                self.asteroids@.len() as int,
            ) + bullet_views(*self, self.bullets@.len() as int) + particle_views(
                *self,
                k as int,
            ));
        }
        view
    }
}

/// The ship after the variable-rate phase of a frame: reset if the reset
/// button has just gone down, with the frame's movement input gathered and
/// the frame's turn applied.
pub open spec fn ship_before_ticks(
    ship: ShipPhysicsBundle,
    reset_held: bool,
    input: InputSnapshot,
    wall_dt_us: int,
) -> ShipPhysicsBundle {
    let just_pressed = input.reset && !reset_held;
    let rotation = if just_pressed {
        0
    } else {
        ship.physical_rotation.0
    };
    ShipPhysicsBundle {
        physical_translation: if just_pressed {
            PhysicalTranslation(Vec2 { x: 0, y: 0 })
        } else {
            ship.physical_translation
        },
        previous_physical_translation: ship.previous_physical_translation,
        physical_rotation: PhysicalRotation(
            rotation_after(rotation as int, input, wall_dt_us) as i64,
        ),
        previous_physical_rotation: PreviousPhysicalRotation(rotation),
        velocity: if just_pressed {
            Velocity(Vec2 { x: 0, y: 0 })
        } else {
            ship.velocity
        },
        movement_input_accumulator: MovementInputAccumulator {
            value: accumulated(ship.movement_input_accumulator.value, movement_input(input)),
        },
    }
}

/// What the variable-rate phase of a frame reports: a reset when the reset
/// button has just gone down, then a shot when one is due.
pub open spec fn pre_tick_events(game: Game, input: InputSnapshot, wall_dt_us: int) -> Seq<
    LifecycleEvent,
> {
    let reset = if input.reset && !game.reset_held {
        seq![LifecycleEvent::ShipReset]
    } else {
        Seq::<LifecycleEvent>::empty()
    };
    if shot_is_due(game.shoot_cooldown, input, wall_dt_us, true) {
        reset.push(
            LifecycleEvent::BulletFired {
                position: bullet_from(game.ids.next, game.ship_transform).translation,
            },
        )
    } else {
        reset
    }
}

/// Every bullet after flying for `dt_us` microseconds.
pub open spec fn flown_all(bullets: Seq<BulletBundle>, dt_us: int) -> Seq<BulletBundle> {
    Seq::new(bullets.len(), |i: int| flown_bullet(bullets[i], dt_us))
}

/// Every asteroid after drifting for `dt_us` microseconds.
pub open spec fn drifted_all(asteroids: Seq<AsteroidBundle>, dt_us: int) -> Seq<AsteroidBundle> {
    Seq::new(asteroids.len(), |i: int| drifted_asteroid(asteroids[i], dt_us))
}

/// Every asteroid after the wrap; without a playfield, as it was.
pub open spec fn wrapped_all(asteroids: Seq<AsteroidBundle>, window: Option<Playfield>) -> Seq<
    AsteroidBundle,
> {
    match window {
        Some(playfield) => Seq::new(
            asteroids.len(),
            |i: int| wrapped_asteroid(asteroids[i], playfield),
        ),
        None => asteroids,
    }
}

/// The bullets that a tick tests for hits: moved, aged, and without those
/// whose time is up.
pub open spec fn bullets_in_flight(game: Game) -> Seq<BulletBundle> {
    let dt = game.fixed_time.timestep_us as int;
    unexpired(flown_all(game.bullets@, dt), dt, game.bullets@.len() as int)
}

/// The asteroids that a tick tests for hits: moved, turned and wrapped.
pub open spec fn asteroids_in_place(game: Game) -> Seq<AsteroidBundle> {
    wrapped_all(drifted_all(game.asteroids@, game.fixed_time.timestep_us as int), game.window)
}

/// The ship after one fixed tick: thrust, damping and the speed limit act
/// on its velocity, the velocity moves it, the wrap brings it back into
/// the playfield, and its accumulated input is consumed.
pub open spec fn ship_after_tick(
    ship: ShipPhysicsBundle,
    dt_us: int,
    window: Option<Playfield>,
) -> ShipPhysicsBundle {
    let v = velocity_after(
        ship.velocity.0,
        ship.movement_input_accumulator.value.y as int,
        ship.physical_rotation.0 as int,
        dt_us,
    );
    let velocity = Vec2 { x: v.0 as i64, y: v.1 as i64 };
    let moved = moved_position(ship.physical_translation.0, velocity, dt_us);
    let before = ship.physical_translation.0;
    ShipPhysicsBundle {
        physical_translation: PhysicalTranslation(
            match window {
                Some(playfield) => playfield.wrapped_position(moved, WRAP_MARGIN as int),
                None => moved,
            },
        ),
        previous_physical_translation: PreviousPhysicalTranslation(
            match window {
                Some(playfield) => Vec2 {
                    x: wrapped_previous(
                        before.x as int,
                        moved.x as int,
                        playfield.half_width() + WRAP_MARGIN,
                    ) as i64,
                    y: wrapped_previous(
                        before.y as int,
                        moved.y as int,
                        playfield.half_height() + WRAP_MARGIN,
                    ) as i64,
                },
                None => before,
            },
        ),
        velocity: Velocity(velocity),
        movement_input_accumulator: MovementInputAccumulator { value: Vec2 { x: 0, y: 0 } },
        ..ship
    }
}

/// The particles after ageing by `dt_us` microseconds.
pub open spec fn aged_particles(game: Game, dt_us: int) -> Seq<ParticleBundle> {
    surviving(game.particles@, dt_us, game.particles@.len() as int)
}

/// The ship's rendered transform: its previous and current physical state
/// blended by the pacer's overstep fraction, at its old scale.
pub open spec fn projected_ship(game: Game) -> Transform2d {
    let alpha = game.fixed_time.fraction();
    Transform2d {
        translation: Vec2 {
            x: lerp(
                game.ship.previous_physical_translation.0.x as int,
                game.ship.physical_translation.0.x as int,
                alpha,
            ) as i64,
            y: lerp(
                game.ship.previous_physical_translation.0.y as int,
                game.ship.physical_translation.0.y as int,
                alpha,
            ) as i64,
        },
        rotation: lerp(
            game.ship.previous_physical_rotation.0 as int,
            game.ship.physical_rotation.0 as int,
            alpha,
        ) as i64,
        scale: game.ship_transform.scale,
    }
}

/// The ship as drawn: at its rendered transform, in blue.
pub open spec fn ship_view(game: Game) -> RenderEntity {
    RenderEntity {
        kind: EntityKind::Ship,
        id: game.ship_id,
        position: game.ship_transform.translation,
        rotation: game.ship_transform.rotation,
        scale: game.ship_transform.scale,
        color: Color { red: 0, green: 0, blue: 1_000_000, alpha: 1_000_000 },
    }
}

/// An asteroid as drawn: blended by `alpha`, at full scale, in grey.
pub open spec fn asteroid_view(a: AsteroidBundle, alpha: int) -> RenderEntity {
    RenderEntity {
        kind: EntityKind::Asteroid,
        id: a.id,
        position: Vec2 {
            x: lerp(a.previous_translation.x as int, a.translation.x as int, alpha) as i64,
            y: lerp(a.previous_translation.y as int, a.translation.y as int, alpha) as i64,
        },
        rotation: lerp(a.previous_rotation as int, a.rotation as int, alpha) as i64,
        scale: MICRO,
        color: Color { red: 700_000, green: 700_000, blue: 700_000, alpha: 1_000_000 },
    }
}

/// A bullet as drawn: blended by `alpha`, at full scale, in yellow.
pub open spec fn bullet_view(b: BulletBundle, alpha: int) -> RenderEntity {
    RenderEntity {
        kind: EntityKind::Bullet,
        id: b.id,
        position: Vec2 {
            x: lerp(b.previous_translation.x as int, b.translation.x as int, alpha) as i64,
            y: lerp(b.previous_translation.y as int, b.translation.y as int, alpha) as i64,
        },
        rotation: 0,
        scale: MICRO,
        color: Color { red: 1_000_000, green: 1_000_000, blue: 0, alpha: 1_000_000 },
    }
}

/// A particle as drawn: where it is, at its own scale and colour.
pub open spec fn particle_view(p: ParticleBundle) -> RenderEntity {
    RenderEntity {
        kind: EntityKind::Particle,
        id: p.id,
        position: p.translation,
        rotation: 0,
        scale: p.scale,
        color: p.color,
    }
}

/// The first `n` asteroids as drawn.
pub open spec fn asteroid_views(game: Game, n: int) -> Seq<RenderEntity> {
    Seq::new(n as nat, |i: int| asteroid_view(game.asteroids@[i], game.fixed_time.fraction()))
}

/// The first `n` bullets as drawn.
pub open spec fn bullet_views(game: Game, n: int) -> Seq<RenderEntity> {
    Seq::new(n as nat, |i: int| bullet_view(game.bullets@[i], game.fixed_time.fraction()))
}

/// The first `n` particles as drawn.
pub open spec fn particle_views(game: Game, n: int) -> Seq<RenderEntity> {
    Seq::new(n as nat, |i: int| particle_view(game.particles@[i]))
}

/// Everything to draw: the ship, then the asteroids, the bullets and the
/// particles, each in store order.
pub open spec fn render_view(game: Game) -> Seq<RenderEntity> {
    seq![ship_view(game)] + asteroid_views(game, game.asteroids@.len() as int) + bullet_views(
        game,
        game.bullets@.len() as int,
    ) + particle_views(game, game.particles@.len() as int)
}

/// With no bullet in the store, a tick destroys nothing: every asteroid
/// survives it, and with the population at or above its cap no edge spawn
/// happens, so the number of asteroids stays what it was.
pub proof fn lemma_full_field_stays(game: Game)
    requires
        game.wf(),
        game.bullets@.len() == 0,
    ensures
        population_after(
            bullets_in_flight(game),
            asteroids_in_place(game),
            game.window.is_some(),
        ) == game.asteroids@.len(),
        game.asteroids@.len() >= game.asteroid_count.max_asteroids ==> !spawn_follows(
            bullets_in_flight(game),
            asteroids_in_place(game),
            game,
        ),
{
    let rocks = asteroids_in_place(game);
    let shots = bullets_in_flight(game);
    assert(shots.len() == 0);
    assert(rocks.len() == game.asteroids@.len());
    let claimed = claimed_after(shots, rocks, 0);
    lemma_all_false(claimed, rocks.len() as int);
    lemma_unclaimed_len(rocks, claimed, rocks.len() as int);
}

/// `after` and `reported_after` are what the variable-rate phase before the
/// ticks makes of `before` and `reported` under the given input.
pub open spec fn pre_ticked(
    before: Game,
    input: InputSnapshot,
    wall_dt_us: int,
    reported: Seq<LifecycleEvent>,
    after: Game,
    reported_after: Seq<LifecycleEvent>,
) -> bool {
    &&& before.identifiers_ascend() && after.ids.next < u64::MAX ==> after.identifiers_ascend()
    &&& after.ids.next >= before.ids.next
    &&& after.reset_held == input.reset
    &&& after.ship == ship_before_ticks(
        before.ship,
        before.reset_held,
        input,
        wall_dt_us,
    )
    &&& after.asteroids@ == before.asteroids@
    &&& after.particles@ == before.particles@
    &&& after.asteroid_count == before.asteroid_count
    &&& after.asteroid_spawn_timer == before.asteroid_spawn_timer
    &&& after.fixed_time == before.fixed_time
    &&& after.window == before.window
    &&& after.ship_transform == before.ship_transform
    &&& after.ship_id == before.ship_id
    &&& after.shoot_timer == before.shoot_timer
    &&& after.shoot_cooldown.cooldown_us == before.shoot_cooldown.cooldown_us
    &&& shot_is_due(before.shoot_cooldown, input, wall_dt_us, true) ==> {
        &&& after.bullets@ == before.bullets@.push(
            bullet_from(before.ids.next, before.ship_transform),
        )
        &&& after.ids.next == before.ids.upcoming(1)
        &&& after.shoot_cooldown.timer == (Timer {
            mode: TimerMode::Once,
            duration_us: before.shoot_cooldown.cooldown_us,
            elapsed_us: 0,
            finished: false,
        })
    }
    &&& !shot_is_due(before.shoot_cooldown, input, wall_dt_us, true) ==> {
        &&& after.bullets@ == before.bullets@
        &&& after.ids == before.ids
        &&& after.shoot_cooldown.timer == before.shoot_cooldown.timer.ticked(
            wall_dt_us,
        )
    }
    &&& reported_after == reported + pre_tick_events(
        before,
        input,
        wall_dt_us,
    )
}

/// The identifiers of the three stores ascend strictly and lie below
/// `bound`.
pub open spec fn stores_ascend(
    bullets: Seq<BulletBundle>,
    asteroids: Seq<AsteroidBundle>,
    particles: Seq<ParticleBundle>,
    bound: int,
) -> bool {
    &&& bullets_ascend(bullets, bound)
    &&& asteroids_ascend(asteroids, bound)
    &&& particles_ascend(particles, bound)
}

/// The asteroids that none of the bullets destroys.
pub open spec fn survivors_of(shots: Seq<BulletBundle>, rocks: Seq<AsteroidBundle>) -> Seq<
    AsteroidBundle,
> {
    unclaimed(rocks, claimed_after(shots, rocks, shots.len() as int), rocks.len() as int)
}

/// The number of asteroids once the hits are resolved: the survivors and
/// the fragments.
pub open spec fn population_after(
    shots: Seq<BulletBundle>,
    rocks: Seq<AsteroidBundle>,
    has_window: bool,
) -> int {
    survivors_of(shots, rocks).len() + fragments_made(
        rocks,
        hits_of(shots, rocks),
        has_window,
        shots.len() as int,
    )
}

/// Whether an edge spawn follows the hits: the spawn timer of `before`
/// runs out in this tick, a playfield is known, and the population after
/// the hits is below the cap.
pub open spec fn spawn_follows(
    shots: Seq<BulletBundle>,
    rocks: Seq<AsteroidBundle>,
    before: Game,
) -> bool {
    &&& before.asteroid_spawn_timer.0.ticked(before.fixed_time.timestep_us as int).finished
    &&& population_after(shots, rocks, before.window.is_some())
        < before.asteroid_count.max_asteroids
    &&& before.window.is_some()
}

/// `after` and `reported_after` are the outcome of a tick in which the
/// bullets `shots` meet the asteroids `rocks`, with the particles, the
/// allocator, the spawn timer, the cap and the playfield of `before`.
///
/// Every bullet that hits is gone and every bullet that misses stays; the
/// destructions are reported in bullet order; the asteroids are the
/// survivors in their old order, then the fragments in bullet order, then
/// the edge spawn if one follows; the particles are the old ones and then
/// the bursts in bullet order.
pub open spec fn resolved(
    shots: Seq<BulletBundle>,
    rocks: Seq<AsteroidBundle>,
    particles: Seq<ParticleBundle>,
    before: Game,
    reported: Seq<LifecycleEvent>,
    after: Game,
    reported_after: Seq<LifecycleEvent>,
) -> bool {
    let hits = hits_of(shots, rocks);
    let n = shots.len() as int;
    let has_window = before.window.is_some();
    let survivors = survivors_of(shots, rocks);
    let spawned = if spawn_follows(shots, rocks, before) {
        1int
    } else {
        0int
    };
    &&& after.bullets@ == unhit(shots, hits, n)
    &&& reported_after == reported + destroyed_events(rocks, hits, n)
    &&& after.asteroids@.len() == population_after(shots, rocks, has_window) + spawned
    &&& after.asteroid_count.current_count == after.asteroids@.len()
    &&& survivors.len() <= after.asteroids@.len()
    &&& after.asteroids@.subrange(0, survivors.len() as int) == survivors
    &&& spawn_follows(shots, rocks, before) ==> {
        &&& is_edge_spawn(after.asteroids@.last(), before.window.unwrap(), AsteroidSize::Large)
        &&& after.asteroids@.last().id + 1 == after.ids.next || after.ids.next == u64::MAX
        &&& after.asteroids@.len() <= before.asteroid_count.max_asteroids
    }
    &&& after.asteroids@.len() <= rocks.len() + hit_count(hits, n) + spawned
    &&& after.particles@.len() == particles.len() + particles_made(rocks, hits, n)
    &&& after.particles@.len() >= particles.len()
    &&& after.particles@.subrange(0, particles.len() as int) == particles
    &&& forall|b: int|
        0 <= b < n ==> #[trigger] effects_recorded(
            rocks,
            hits,
            has_window,
            before.ids,
            particles.len() as int,
            survivors.len() as int,
            after.particles@,
            after.asteroids@,
            b,
        )
    &&& after.asteroid_spawn_timer.0 == before.asteroid_spawn_timer.0.ticked(
        before.fixed_time.timestep_us as int,
    )
    &&& after.ids.next == before.ids.upcoming(
        particles_made(rocks, hits, n) + fragments_made(rocks, hits, has_window, n) + spawned,
    )
    &&& has_window && asteroids_within(rocks, before.window.unwrap()) ==> asteroids_within(
        after.asteroids@,
        before.window.unwrap(),
    )
    &&& stores_ascend(shots, rocks, particles, before.ids.next as int) && after.ids.next
        < u64::MAX ==> stores_ascend(
        after.bullets@,
        after.asteroids@,
        after.particles@,
        after.ids.next as int,
    )
}

/// `after` and `reported_after` are what one fixed tick makes of `before`
/// and `reported`: the ship moves as `ship_after_tick` says and stays
/// within its speed limit and, where a playfield is known, within the
/// playfield; the bullets in flight meet the asteroids in place as
/// `resolved` says; nothing else changes.
pub open spec fn ticked(
    before: Game,
    reported: Seq<LifecycleEvent>,
    after: Game,
    reported_after: Seq<LifecycleEvent>,
) -> bool {
    &&& after.ship == ship_after_tick(
        before.ship,
        before.fixed_time.timestep_us as int,
        before.window,
    )
    &&& after.ship.velocity.0.norm_sq() <= MAX_VELOCITY * MAX_VELOCITY
    &&& before.window.is_some() ==> before.window.unwrap().contains(
        after.ship.physical_translation.0,
        WRAP_MARGIN as int,
    )
    &&& before.window.is_some() ==> asteroids_within(after.asteroids@, before.window.unwrap())
    &&& resolved(
        bullets_in_flight(before),
        asteroids_in_place(before),
        before.particles@,
        before,
        reported,
        after,
        reported_after,
    )
    &&& before.identifiers_ascend() && after.ids.next < u64::MAX ==> after.identifiers_ascend()
    &&& after.ids.next >= before.ids.next
    &&& after.asteroid_count.max_asteroids == before.asteroid_count.max_asteroids
    &&& after.fixed_time == before.fixed_time
    &&& after.window == before.window
    &&& after.shoot_cooldown == before.shoot_cooldown
    &&& after.shoot_timer == before.shoot_timer
    &&& after.ship_transform == before.ship_transform
    &&& after.reset_held == before.reset_held
    &&& after.ship_id == before.ship_id
}

/// `after` is what the variable-rate phase after the ticks makes of
/// `before`, where `intent` is the movement input as the frame gathered it.
pub open spec fn post_ticked(
    before: Game,
    intent: MovementInputAccumulator,
    wall_dt_us: int,
    after: Game,
) -> bool {
    &&& before.identifiers_ascend() && after.ids.next < u64::MAX ==> after.identifiers_ascend()
    &&& after.ids.next >= before.ids.next
    &&& intent.value.y > 0 ==> {
        &&& after.particles@.len() == aged_particles(
            before,
            wall_dt_us,
        ).len() + 1
        &&& after.particles@.drop_last() == aged_particles(
            before,
            wall_dt_us,
        )
        &&& is_engine_particle(
            after.particles@.last(),
            exhaust_position(
                before.ship_transform.translation,
                before.ship.physical_rotation.0 as int,
            ),
            exhaust_direction(before.ship.physical_rotation.0 as int),
        )
        &&& after.particles@.last().id == before.ids.next
        &&& after.ids.next == before.ids.upcoming(1)
    }
    &&& intent.value.y <= 0 ==> {
        &&& after.particles@ == aged_particles(before, wall_dt_us)
        &&& after.ids == before.ids
    }
    &&& after.ship_transform == projected_ship(before)
    &&& after.ship == before.ship
    &&& after.ship_id == before.ship_id
    &&& after.asteroids@ == before.asteroids@
    &&& after.bullets@ == before.bullets@
    &&& after.asteroid_count == before.asteroid_count
    &&& after.asteroid_spawn_timer == before.asteroid_spawn_timer
    &&& after.shoot_cooldown == before.shoot_cooldown
    &&& after.shoot_timer == before.shoot_timer
    &&& after.fixed_time == before.fixed_time
    &&& after.window == before.window
    &&& after.reset_held == before.reset_held
}

/// `after` and `reported_after` are what `n` fixed ticks in a row make of
/// `before` and `reported`.
pub open spec fn ticked_times(
    before: Game,
    reported: Seq<LifecycleEvent>,
    after: Game,
    reported_after: Seq<LifecycleEvent>,
    n: nat,
) -> bool
    decreases n,
{
    if n == 0 {
        after == before && reported_after == reported
    } else {
        exists|middle: Game, reported_middle: Seq<LifecycleEvent>|
            {
                &&& ticked_times(before, reported, middle, reported_middle, (n - 1) as nat)
                &&& middle.wf()
                &&& #[trigger] ticked(middle, reported_middle, after, reported_after)
            }
    }
}

/// The game with one frame's wall time folded into its pacer.
pub open spec fn paced(game: Game, wall_dt_us: int) -> Game {
    Game { fixed_time: game.fixed_time.advanced(wall_dt_us), ..game }
}

/// `after` and `events` are what one frame of `wall_dt_us` microseconds
/// under the given input makes of `before`: the phase before the ticks,
/// then as many fixed ticks as the pacer schedules, then the phase after
/// them, which takes the movement input as the first phase gathered it.
pub open spec fn framed(
    before: Game,
    input: InputSnapshot,
    wall_dt_us: int,
    after: Game,
    events: Seq<LifecycleEvent>,
) -> bool {
    exists|gathered: Game, early: Seq<LifecycleEvent>, settled: Game|
        {
            &&& pre_ticked(before, input, wall_dt_us, Seq::empty(), gathered, early)
            &&& gathered.wf()
            &&& #[trigger] ticked_times(
                paced(gathered, wall_dt_us),
                early,
                settled,
                events,
                before.fixed_time.ticks_due(wall_dt_us) as nat,
            )
            &&& settled.wf()
            &&& post_ticked(
                settled,
                gathered.ship.movement_input_accumulator,
                wall_dt_us,
                after,
            )
        }
}

/// Fixed ticks leave the pacer, the playfield, the cooldown, the ship's
/// rotation and rendered transform, and the cap on asteroids as they were.
pub proof fn lemma_ticks_keep(
    before: Game,
    reported: Seq<LifecycleEvent>,
    after: Game,
    reported_after: Seq<LifecycleEvent>,
    n: nat,
)
    requires
        ticked_times(before, reported, after, reported_after, n),
    ensures
        after.fixed_time == before.fixed_time,
        after.window == before.window,
        after.reset_held == before.reset_held,
        after.ship_id == before.ship_id,
        after.shoot_cooldown == before.shoot_cooldown,
        after.ship_transform == before.ship_transform,
        after.ship.physical_rotation == before.ship.physical_rotation,
        after.ship.previous_physical_rotation == before.ship.previous_physical_rotation,
        after.asteroid_count.max_asteroids == before.asteroid_count.max_asteroids,
        n == 0 ==> after == before && reported_after == reported,
    decreases n,
{
    if n > 0 {
        let (middle, reported_middle) = choose|middle: Game, reported_middle: Seq<LifecycleEvent>|
            {
                &&& ticked_times(before, reported, middle, reported_middle, (n - 1) as nat)
                &&& middle.wf()
                &&& #[trigger] ticked(middle, reported_middle, after, reported_after)
            };
        lemma_ticks_keep(before, reported, middle, reported_middle, (n - 1) as nat);
    }
}

/// A frame folds its wall time into the pacer, remembers the reset button,
/// turns the ship by the held buttons and by nothing else, and leaves the
/// playfield and the cap on asteroids as they were. A frame without a
/// tick leaves the asteroids and the bullets it did not fire untouched.
pub proof fn lemma_frame_outline(
    before: Game,
    input: InputSnapshot,
    wall_dt_us: int,
    after: Game,
    events: Seq<LifecycleEvent>,
)
    requires
        framed(before, input, wall_dt_us, after, events),
    ensures
        after.fixed_time == before.fixed_time.advanced(wall_dt_us),
        after.reset_held == input.reset,
        after.window == before.window,
        after.ship_id == before.ship_id,
        after.asteroid_count.max_asteroids == before.asteroid_count.max_asteroids,
        after.ship.physical_rotation == ship_before_ticks(
            before.ship,
            before.reset_held,
            input,
            wall_dt_us,
        ).physical_rotation,
        before.fixed_time.ticks_due(wall_dt_us) == 0 ==> {
            &&& after.ship == ship_before_ticks(before.ship, before.reset_held, input, wall_dt_us)
            &&& after.asteroids@ == before.asteroids@
            &&& events == pre_tick_events(before, input, wall_dt_us)
        },
{
    let (gathered, early, settled) = choose|
        gathered: Game,
        early: Seq<LifecycleEvent>,
        settled: Game,
    |
        {
            &&& pre_ticked(before, input, wall_dt_us, Seq::empty(), gathered, early)
            &&& gathered.wf()
            &&& #[trigger] ticked_times(
                paced(gathered, wall_dt_us),
                early,
                settled,
                events,
                before.fixed_time.ticks_due(wall_dt_us) as nat,
            )
            &&& settled.wf()
            &&& post_ticked(
                settled,
                gathered.ship.movement_input_accumulator,
                wall_dt_us,
                after,
            )
        };
    lemma_ticks_keep(
        paced(gathered, wall_dt_us),
        early,
        settled,
        events,
        before.fixed_time.ticks_due(wall_dt_us) as nat,
    );
    assert(early =~= pre_tick_events(before, input, wall_dt_us));
}

/// Fixed ticks never take an identifier back, and as long as the
/// allocator has not run out they keep the identifiers of every store
/// distinct.
pub proof fn lemma_ticks_keep_identifiers(
    before: Game,
    reported: Seq<LifecycleEvent>,
    after: Game,
    reported_after: Seq<LifecycleEvent>,
    n: nat,
)
    requires
        ticked_times(before, reported, after, reported_after, n),
    ensures
        after.ids.next >= before.ids.next,
        before.identifiers_ascend() && after.ids.next < u64::MAX ==> after.identifiers_ascend(),
    decreases n,
{
    if n > 0 {
        let (middle, reported_middle) = choose|middle: Game, reported_middle: Seq<LifecycleEvent>|
            {
                &&& ticked_times(before, reported, middle, reported_middle, (n - 1) as nat)
                &&& middle.wf()
                &&& #[trigger] ticked(middle, reported_middle, after, reported_after)
            };
        lemma_ticks_keep_identifiers(before, reported, middle, reported_middle, (n - 1) as nat);
    }
}

/// A frame keeps the identifiers of every store distinct, as long as the
/// allocator has not run out.
pub proof fn lemma_frame_keeps_identifiers(
    before: Game,
    input: InputSnapshot,
    wall_dt_us: int,
    after: Game,
    events: Seq<LifecycleEvent>,
)
    requires
        framed(before, input, wall_dt_us, after, events),
        before.identifiers_ascend(),
        after.ids.next < u64::MAX,
    ensures
        after.identifiers_ascend(),
{
    let (gathered, early, settled) = choose|
        gathered: Game,
        early: Seq<LifecycleEvent>,
        settled: Game,
    |
        {
            &&& pre_ticked(before, input, wall_dt_us, Seq::empty(), gathered, early)
            &&& gathered.wf()
            &&& #[trigger] ticked_times(
                paced(gathered, wall_dt_us),
                early,
                settled,
                events,
                before.fixed_time.ticks_due(wall_dt_us) as nat,
            )
            &&& settled.wf()
            &&& post_ticked(
                settled,
                gathered.ship.movement_input_accumulator,
                wall_dt_us,
                after,
            )
        };
    lemma_ticks_keep_identifiers(
        paced(gathered, wall_dt_us),
        early,
        settled,
        events,
        before.fixed_time.ticks_due(wall_dt_us) as nat,
    );
}

/// Moving, ageing and wrapping keep the identifiers of the bullets and the
/// asteroids in ascending order.
pub proof fn lemma_tick_orders_stores(game: Game, bound: int)
    requires
        bullets_ascend(game.bullets@, bound),
        asteroids_ascend(game.asteroids@, bound),
    ensures
        bullets_ascend(bullets_in_flight(game), bound),
        asteroids_ascend(asteroids_in_place(game), bound),
{
    let dt_us = game.fixed_time.timestep_us as int;
    let flown = flown_all(game.bullets@, dt_us);
    lemma_bullets_ascend_carries(game.bullets@, flown, bound);
    lemma_unexpired_ascend(flown, dt_us, flown.len() as int, bound);
    let drifted = drifted_all(game.asteroids@, dt_us);
    lemma_asteroids_ascend_carries(game.asteroids@, drifted, bound);
    lemma_asteroids_ascend_carries(drifted, asteroids_in_place(game), bound);
}

/// A tick that finds no bullet in the store keeps the asteroid count
/// within its cap: the timer adds an asteroid only below the cap, and
/// nothing else changes the count.
pub proof fn lemma_cap_holds_without_bullets(
    before: Game,
    reported: Seq<LifecycleEvent>,
    after: Game,
    reported_after: Seq<LifecycleEvent>,
)
    requires
        before.wf(),
        before.bullets@.len() == 0,
        before.asteroid_count.current_count <= before.asteroid_count.max_asteroids,
        ticked(before, reported, after, reported_after),
    ensures
        after.asteroid_count.current_count == after.asteroids@.len(),
        after.asteroid_count.current_count <= after.asteroid_count.max_asteroids,
        after.asteroid_count.current_count >= before.asteroid_count.current_count,
        reported_after == reported,
{
    lemma_full_field_stays(before);
    assert(bullets_in_flight(before).len() == 0);
    assert(reported_after =~= reported);
}

} // verus!
