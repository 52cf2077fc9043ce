//! Ship dynamics: input accumulation, thrust, damping, the speed limit,
//! rotation, integration, wrap-around and render interpolation.

use vstd::prelude::*;
use crate::fixed::{
    Vec2, MICRO, COORD_LIMIT, SPEED_LIMIT, abs, clamp, clamp_abs, clamp_abs_wide, div_trunc,
    div_trunc_wide, ceil_sqrt, floor_sqrt, isqrt_ceil, lemma_product_bound,
    lemma_div_trunc_bounds, lemma_floor_sqrt_exists,
};
use crate::trig::{forward, forward_of};
use crate::timing::Pacer;
use crate::input::InputSnapshot;
use crate::playfield::{Playfield, wrapped, wrap_axis};
use crate::entity::Transform2d;

verus! {

/// Acceleration under thrust, in thousandths of a pixel per second squared.
pub const THRUST_FORCE: i64 = 800_000;

/// The ship's speed limit, in thousandths of a pixel per second.
pub const MAX_VELOCITY: i64 = 600_000;

/// The share of its velocity, in billionths, that the ship keeps per second.
pub const LINEAR_DAMPENING: i64 = 980_000_000;

/// The default playfield width.
pub const SCREEN_WIDTH: i64 = 1_280_000;

/// The default playfield height.
pub const SCREEN_HEIGHT: i64 = 720_000;

/// How far beyond the playfield the ship travels before it wraps.
pub const WRAP_MARGIN: i64 = 50_000;

/// The ship's turn rate, in microradians per second.
pub const ROTATION_SPEED: i64 = 4_500_000;

/// Largest magnitude an accumulated input component may take.
pub const INPUT_LIMIT: i64 = 1_000_000;

/// Largest magnitude a rotation may take, in microradians.
pub const ANGLE_LIMIT: i64 = 1_000_000_000_000_000;

/// Billionths per whole unit.
pub const BILLION: i64 = 1_000_000_000;

/// Trillionths per whole unit.
pub const TRILLION: i64 = 1_000_000_000_000;

/// The natural logarithm of the inverse of the dampening, in trillionths.
pub const DECAY_RATE: i64 = 20_202_707_317;

/// The ship's current rotation in microradians; zero points up and the
/// angle grows counter-clockwise.
#[derive(Clone, Copy, Debug, PartialEq, Eq, Structural)]
pub struct PhysicalRotation(pub i64);

/// The rotation before the last change, kept for interpolation.
#[derive(Clone, Copy, Debug, PartialEq, Eq, Structural)]
pub struct PreviousPhysicalRotation(pub i64);

/// The four directions a player can ask for.
#[derive(Clone, Copy, Debug, PartialEq, Eq, Structural)]
pub enum MoveDirection {
    Up,
    Down,
    Left,
    Right,
}

/// The ship's velocity in thousandths of a pixel per second.
#[derive(Clone, Copy, Debug, PartialEq, Eq, Structural)]
pub struct Velocity(pub Vec2);

/// The ship's position in the simulation, in thousandths of a pixel.
#[derive(Clone, Copy, Debug, PartialEq, Eq, Structural)]
pub struct PhysicalTranslation(pub Vec2);

/// The position before the last fixed tick, kept for interpolation.
#[derive(Clone, Copy, Debug, PartialEq, Eq, Structural)]
pub struct PreviousPhysicalTranslation(pub Vec2);

/// The sum of two inputs, each component confined to the input limit.
pub open spec fn accumulated(total: Vec2, input: Vec2) -> Vec2 {
    Vec2 {
        x: clamp_abs(total.x + input.x, INPUT_LIMIT as int) as i64,
        y: clamp_abs(total.y + input.y, INPUT_LIMIT as int) as i64,
    }
}

/// A buffer that folds the inputs gathered between two physics ticks into
/// one movement intent.
pub trait InputAccumulator {
    /// What has been accumulated so far.
    spec fn total(&self) -> Vec2;

    /// Adds `input`, component by component.
    fn accumulate(&mut self, input: Vec2)
        ensures
            final(self).total() == accumulated(old(self).total(), input),
    ;

    /// Forgets everything accumulated.
    fn reset(&mut self)
        ensures
            final(self).total() == (Vec2 { x: 0, y: 0 }),
    ;

    /// What has been accumulated so far.
    fn get(&self) -> (value: Vec2)
        ensures
            value == self.total(),
    ;
}

/// The ship's movement input, summed between physics ticks.
#[derive(Clone, Copy, Debug, PartialEq, Eq, Structural)]
pub struct MovementInputAccumulator {
    pub value: Vec2,
}

impl MovementInputAccumulator {
    /// Both components are within the input limit.
    pub open spec fn wf(self) -> bool {
        self.value.within(INPUT_LIMIT as int)
    }

    /// Tests the accumulator's invariant.
    pub fn is_well_formed(&self) -> (ok: bool)
        ensures
            ok == self.wf(),
    {
        self.value.is_within(INPUT_LIMIT)
    }
}

impl InputAccumulator for MovementInputAccumulator {
    open spec fn total(&self) -> Vec2 {
        self.value
    }

    fn accumulate(&mut self, input: Vec2) {
        let x: i128 = self.value.x as i128 + input.x as i128;
        let y: i128 = self.value.y as i128 + input.y as i128;
        self.value = Vec2 { x: clamp_abs_wide(x, INPUT_LIMIT), y: clamp_abs_wide(y, INPUT_LIMIT) };
    }

    fn reset(&mut self) {
        self.value = Vec2 { x: 0, y: 0 };
    }

    fn get(&self) -> (value: Vec2) {
        self.value
    }
}

impl Default for PhysicalRotation {
    fn default() -> (value: PhysicalRotation)
        ensures
            value == (PhysicalRotation(0)),
    {
        PhysicalRotation(0)
    }
}

impl Default for PreviousPhysicalRotation {
    fn default() -> (value: PreviousPhysicalRotation)
        ensures
            value == (PreviousPhysicalRotation(0)),
    {
        PreviousPhysicalRotation(0)
    }
}

impl Default for Velocity {
    fn default() -> (value: Velocity)
        ensures
            value == (Velocity(Vec2 { x: 0, y: 0 })),
    {
        Velocity(Vec2 { x: 0, y: 0 })
    }
}

impl Default for PhysicalTranslation {
    fn default() -> (value: PhysicalTranslation)
        ensures
            value == (PhysicalTranslation(Vec2 { x: 0, y: 0 })),
    {
        PhysicalTranslation(Vec2 { x: 0, y: 0 })
    }
}

impl Default for PreviousPhysicalTranslation {
    fn default() -> (value: PreviousPhysicalTranslation)
        ensures
            value == (PreviousPhysicalTranslation(Vec2 { x: 0, y: 0 })),
    {
        PreviousPhysicalTranslation(Vec2 { x: 0, y: 0 })
    }
}

impl Default for MovementInputAccumulator {
    fn default() -> (value: MovementInputAccumulator)
        ensures
            value == (MovementInputAccumulator { value: Vec2 { x: 0, y: 0 } }),
    {
        MovementInputAccumulator { value: Vec2 { x: 0, y: 0 } }
    }
}

/// Everything the ship's physics needs, in one record.
#[derive(Clone, Copy, Debug, PartialEq, Eq, Structural)]
pub struct ShipPhysicsBundle {
    pub physical_translation: PhysicalTranslation,
    pub previous_physical_translation: PreviousPhysicalTranslation,
    pub physical_rotation: PhysicalRotation,
    pub previous_physical_rotation: PreviousPhysicalRotation,
    pub velocity: Velocity,
    pub movement_input_accumulator: MovementInputAccumulator,
}

impl ShipPhysicsBundle {
    /// The velocity and the accumulated input are within their limits.
    pub open spec fn wf(self) -> bool {
        self.velocity.0.within(SPEED_LIMIT as int) && self.movement_input_accumulator.wf()
    }

    /// Tests the ship's invariant.
    pub fn is_well_formed(&self) -> (ok: bool)
        ensures
            ok == self.wf(),
    {
        self.velocity.0.is_within(SPEED_LIMIT) && self.movement_input_accumulator.is_well_formed()
    }

    /// A ship at rest at the origin, pointing up, with no input pending.
    pub open spec fn at_rest() -> ShipPhysicsBundle {
        ShipPhysicsBundle {
            physical_translation: PhysicalTranslation(Vec2 { x: 0, y: 0 }),
            previous_physical_translation: PreviousPhysicalTranslation(Vec2 { x: 0, y: 0 }),
            physical_rotation: PhysicalRotation(0),
            previous_physical_rotation: PreviousPhysicalRotation(0),
            velocity: Velocity(Vec2 { x: 0, y: 0 }),
            movement_input_accumulator: MovementInputAccumulator { value: Vec2 { x: 0, y: 0 } },
        }
    }
}

impl Default for ShipPhysicsBundle {
    fn default() -> (ship: ShipPhysicsBundle)
        ensures
            ship == ShipPhysicsBundle::at_rest(),
            ship.wf(),
    {
        ShipPhysicsBundle {
            physical_translation: PhysicalTranslation(Vec2 { x: 0, y: 0 }),
            previous_physical_translation: PreviousPhysicalTranslation(Vec2 { x: 0, y: 0 }),
            physical_rotation: PhysicalRotation(0),
            previous_physical_rotation: PreviousPhysicalRotation(0),
            velocity: Velocity(Vec2 { x: 0, y: 0 }),
            movement_input_accumulator: MovementInputAccumulator { value: Vec2 { x: 0, y: 0 } },
        }
    }
}

/// The share of velocity, in billionths, kept after `seconds` whole seconds.
pub open spec fn damping_whole(seconds: nat) -> int
    decreases seconds,
{
    if seconds == 0 {
        BILLION as int
    } else {
        damping_whole((seconds - 1) as nat) * LINEAR_DAMPENING / (BILLION as int)
    }
}

/// The share of velocity, in trillionths, kept after a part of a second
/// given in microseconds: the exponential series up to the fourth power.
pub open spec fn damping_part(micros: int) -> int
    recommends
        0 <= micros < MICRO,
{
    let y = DECAY_RATE * micros / (MICRO as int);
    let y2 = y * y / (TRILLION as int);
    let y3 = y2 * y / (TRILLION as int);
    let y4 = y3 * y / (TRILLION as int);
    clamp(TRILLION - y + y2 / 2 - y3 / 6 + y4 / 24, 0, TRILLION as int)
}

/// The share of velocity, in billionths, kept after `dt_us` microseconds:
/// the dampening raised to the elapsed time in seconds.
pub open spec fn damping_of(dt_us: int) -> int
    recommends
        dt_us >= 0,
{
    damping_whole((dt_us / (MICRO as int)) as nat) * damping_part(dt_us % (MICRO as int)) / (
    TRILLION as int)
}

/// Damping keeps between nothing and everything.
pub proof fn lemma_damping_whole_bounds(seconds: nat)
    ensures
        0 <= damping_whole(seconds) <= BILLION,
    decreases seconds,
{
    if seconds > 0 {
        lemma_damping_whole_bounds((seconds - 1) as nat);
        let p = damping_whole((seconds - 1) as nat);
        assert(0 <= p * 980_000_000 <= 1_000_000_000 * 1_000_000_000) by (nonlinear_arith)
            requires
                0 <= p <= 1_000_000_000,
        ;
    }
}

/// Damping keeps between nothing and everything; no time keeps everything
/// and one second keeps exactly the dampening.
pub proof fn lemma_damping_bounds(dt_us: int)
    requires
        dt_us >= 0,
    ensures
        0 <= damping_of(dt_us) <= BILLION,
        damping_of(0) == BILLION,
        damping_of(MICRO as int) == LINEAR_DAMPENING,
{
    let w = damping_whole((dt_us / (MICRO as int)) as nat);
    let p = damping_part(dt_us % (MICRO as int));
    lemma_damping_whole_bounds((dt_us / (MICRO as int)) as nat);
    assert(0 <= w * p <= 1_000_000_000 * 1_000_000_000_000) by (nonlinear_arith)
        requires
            0 <= w <= 1_000_000_000,
            0 <= p <= 1_000_000_000_000,
    ;
    assert(damping_part(0) == TRILLION) by {
        assert(DECAY_RATE * 0 / (MICRO as int) == 0);
        assert(0int * 0int / (TRILLION as int) == 0);
    }
    assert(damping_whole(0) == BILLION);
    assert(damping_of(0) == BILLION);
    assert(damping_whole(1) == LINEAR_DAMPENING) by {
        reveal_with_fuel(damping_whole, 2);
    }
    assert(1_000_000int / 1_000_000 == 1 && 1_000_000int % 1_000_000 == 0);
    assert(980_000_000int * 1_000_000_000_000 / 1_000_000_000_000 == 980_000_000);
    assert(damping_of(MICRO as int) == LINEAR_DAMPENING);
}

/// Computes the share of velocity, in billionths, kept after `dt_us`
/// microseconds.
pub fn damping_factor(dt_us: u32) -> (factor: i64)
    ensures
        factor == damping_of(dt_us as int),
        0 <= factor <= BILLION,
{
    proof {
        lemma_damping_bounds(dt_us as int);
    }
    let seconds: u32 = dt_us / 1_000_000;
    let micros: u32 = dt_us % 1_000_000;
    let mut whole: i64 = 1_000_000_000;
    let mut done: u32 = 0;
    while done < seconds
        invariant
            done <= seconds,
            whole == damping_whole(done as nat),
            0 <= whole <= 1_000_000_000,
        decreases seconds - done,
    {
        proof {
            lemma_damping_whole_bounds((done + 1) as nat);
        }
        assert(0 <= whole * 980_000_000 <= 1_000_000_000 * 1_000_000_000) by (nonlinear_arith)
            requires
                0 <= whole <= 1_000_000_000,
        ;
        whole = whole * 980_000_000 / 1_000_000_000;
        done = done + 1;
    }
    let y: i128 = 20_202_707_317 * (micros as i128) / 1_000_000;
    assert(0 <= y * y <= 21_000_000_000 * 21_000_000_000) by (nonlinear_arith)
        requires
            0 <= y <= 21_000_000_000,
    ;
    let y2: i128 = y * y / 1_000_000_000_000;
    assert(0 <= y2 * y <= 441_000_000 * 21_000_000_000) by (nonlinear_arith)
        requires
            0 <= y <= 21_000_000_000,
            0 <= y2 <= 441_000_000,
    ;
    let y3: i128 = y2 * y / 1_000_000_000_000;
    assert(0 <= y3 * y <= 9_261_000 * 21_000_000_000) by (nonlinear_arith)
        requires
            0 <= y <= 21_000_000_000,
            0 <= y3 <= 9_261_000,
    ;
    let y4: i128 = y3 * y / 1_000_000_000_000;
    let series: i128 = 1_000_000_000_000 - y + y2 / 2 - y3 / 6 + y4 / 24;
    let part: i128 = if series < 0 {
        0
    } else if series > 1_000_000_000_000 {
        1_000_000_000_000
    } else {
        series
    };
    assert(part == damping_part(micros as int));
    assert(0 <= whole * part <= 1_000_000_000 * 1_000_000_000_000) by (nonlinear_arith)
        requires
            0 <= whole <= 1_000_000_000,
            0 <= part <= 1_000_000_000_000,
    ;
    let wide: i128 = (whole as i128) * part / 1_000_000_000_000;
    wide as i64
}

/// A velocity cut back to the speed `max` along its own direction; one
/// within that speed stays as it is.
pub open spec fn limited(v: (int, int), max: int) -> (int, int)
    recommends
        max > 0,
{
    let s = v.0 * v.0 + v.1 * v.1;
    if s > max * max {
        let length = ceil_sqrt(s);
        (div_trunc(v.0 * max, length), div_trunc(v.1 * max, length))
    } else {
        v
    }
}

/// A limited velocity is no faster than the limit.
pub proof fn lemma_limited_within(v: (int, int), max: int)
    requires
        max > 0,
    ensures
        limited(v, max).0 * limited(v, max).0 + limited(v, max).1 * limited(v, max).1 <= max * max,
        abs(limited(v, max).0) <= max,
        abs(limited(v, max).1) <= max,
{
    let x = v.0;
    let y = v.1;
    let s = x * x + y * y;
    assert(x * x >= 0 && y * y >= 0) by (nonlinear_arith);
    let r = limited(v, max);
    if s > max * max {
        lemma_floor_sqrt_exists(s);
        let f = floor_sqrt(s);
        let l = ceil_sqrt(s);
        assert(l * l >= s) by (nonlinear_arith)
            requires
                f >= 0,
                f * f <= s,
                s < (f + 1) * (f + 1),
                l == if f * f == s { f } else { f + 1 },
        ;
        assert(max * max >= 0) by (nonlinear_arith);
        assert(l > 0) by (nonlinear_arith)
            requires
                l >= 0,
                l * l >= s,
                s > 0,
        ;
        let a = r.0;
        let b = r.1;
        lemma_div_trunc_bounds(x * max, l);
        lemma_div_trunc_bounds(y * max, l);
        let pa = abs(a) * l;
        let qa = abs(x * max);
        let pb = abs(b) * l;
        let qb = abs(y * max);
        assert(pa * pa <= qa * qa) by (nonlinear_arith)
            requires
                0 <= pa <= qa,
        ;
        assert(pb * pb <= qb * qb) by (nonlinear_arith)
            requires
                0 <= pb <= qb,
        ;
        assert(pa * pa == (a * a) * (l * l)) by (nonlinear_arith)
            requires
                pa == abs(a) * l,
                abs(a) == a || abs(a) == -a,
        ;
        assert(pb * pb == (b * b) * (l * l)) by (nonlinear_arith)
            requires
                pb == abs(b) * l,
                abs(b) == b || abs(b) == -b,
        ;
        assert(qa * qa == (x * x) * (max * max)) by (nonlinear_arith)
            requires
                qa == abs(x * max),
                qa == x * max || qa == -(x * max),
        ;
        assert(qb * qb == (y * y) * (max * max)) by (nonlinear_arith)
            requires
                qb == abs(y * max),
                qb == y * max || qb == -(y * max),
        ;
        let n = a * a + b * b;
        let ll = l * l;
        let mm = max * max;
        assert(n * ll <= s * mm) by (nonlinear_arith)
            requires
                (a * a) * ll <= (x * x) * mm,
                (b * b) * ll <= (y * y) * mm,
                n == a * a + b * b,
                s == x * x + y * y,
        ;
        assert(s * mm <= ll * mm) by (nonlinear_arith)
            requires
                s <= ll,
                mm >= 0,
        ;
        assert(n <= mm) by (nonlinear_arith)
            requires
                n * ll <= ll * mm,
                ll > 0,
        ;
    }
    let a = r.0;
    let b = r.1;
    assert(a * a >= 0 && b * b >= 0) by (nonlinear_arith);
    assert(abs(a) <= max) by (nonlinear_arith)
        requires
            a * a <= max * max,
            max > 0,
    ;
    assert(abs(b) <= max) by (nonlinear_arith)
        requires
            b * b <= max * max,
            max > 0,
    ;
}

/// Cuts a velocity back to the speed `max` along its own direction.
pub fn limit_speed(x: i64, y: i64, max: i64) -> (v: Vec2)
    requires
        0 < max <= SPEED_LIMIT,
        abs(x as int) <= 10_000_000_000_000_000,
        abs(y as int) <= 10_000_000_000_000_000,
    ensures
        (v.x as int, v.y as int) == limited((x as int, y as int), max as int),
        v.norm_sq() <= max * max,
{
    proof {
        lemma_limited_within((x as int, y as int), max as int);
        lemma_product_bound(x as int, x as int, 10_000_000_000_000_000, 10_000_000_000_000_000);
        lemma_product_bound(y as int, y as int, 10_000_000_000_000_000, 10_000_000_000_000_000);
        lemma_product_bound(max as int, max as int, 1_000_000_000, 1_000_000_000);
        lemma_product_bound(x as int, max as int, 10_000_000_000_000_000, 1_000_000_000);
        lemma_product_bound(y as int, max as int, 10_000_000_000_000_000, 1_000_000_000);
        assert(x * x >= 0 && y * y >= 0 && max * max > 0) by (nonlinear_arith)
            requires
                max > 0,
        ;
    }
    let wide_x: i128 = x as i128;
    let wide_y: i128 = y as i128;
    let wide_max: i128 = max as i128;
    let s: i128 = wide_x * wide_x + wide_y * wide_y;
    if s > wide_max * wide_max {
        let length: u128 = isqrt_ceil(s as u128);
        let a: i128 = div_trunc_wide(wide_x * wide_max, length as i128);
        let b: i128 = div_trunc_wide(wide_y * wide_max, length as i128);
        Vec2 { x: a as i64, y: b as i64 }
    } else {
        proof {
            assert(abs(x as int) <= max && abs(y as int) <= max);
        }
        Vec2 { x, y }
    }
}

/// The directions asked for by the held buttons: up, down, left, right, in
/// that order.
pub open spec fn pressed_directions(keyboard: InputSnapshot) -> Seq<MoveDirection> {
    let up = if keyboard.forward {
        seq![MoveDirection::Up]
    } else {
        Seq::<MoveDirection>::empty()
    };
    let down = if keyboard.reverse {
        up.push(MoveDirection::Down)
    } else {
        up
    };
    let left = if keyboard.turn_left {
        down.push(MoveDirection::Left)
    } else {
        down
    };
    if keyboard.turn_right {
        left.push(MoveDirection::Right)
    } else {
        left
    }
}

/// Lists the directions asked for by the held buttons.
pub fn get_pressed_directions(keyboard_input: &InputSnapshot) -> (directions: Vec<MoveDirection>)
    ensures
        directions@ == pressed_directions(*keyboard_input),
{
    let mut directions: Vec<MoveDirection> = Vec::new();
    if keyboard_input.forward {
        directions.push(MoveDirection::Up);
    }
    if keyboard_input.reverse {
        directions.push(MoveDirection::Down);
    }
    if keyboard_input.turn_left {
        directions.push(MoveDirection::Left);
    }
    if keyboard_input.turn_right {
        directions.push(MoveDirection::Right);
    }
    assert(directions@ =~= pressed_directions(*keyboard_input));
    directions
}

/// What one direction adds to the thrust input: forward counts one,
/// reverse takes one away, turning counts nothing.
pub open spec fn thrust_of_direction(direction: MoveDirection) -> int {
    match direction {
        MoveDirection::Up => 1,
        MoveDirection::Down => -1,
        MoveDirection::Left => 0,
        MoveDirection::Right => 0,
    }
}

/// What the first `n` of the given directions add to the thrust input.
pub open spec fn thrust_of_directions(directions: Seq<MoveDirection>, n: int) -> int
    decreases n,
{
    if n <= 0 {
        0
    } else {
        thrust_of_directions(directions, n - 1) + thrust_of_direction(directions[n - 1])
    }
}

/// The movement input that one snapshot contributes: one forward if the
/// forward button is held, one back if the reverse button is held.
pub open spec fn movement_input(keyboard: InputSnapshot) -> Vec2 {
    Vec2 {
        x: 0,
        y: ((if keyboard.forward {
            1int
        } else {
            0int
        }) - (if keyboard.reverse {
            1int
        } else {
            0int
        })) as i64,
    }
}

proof fn lemma_thrust_of_pressed(keyboard: InputSnapshot)
    ensures
        thrust_of_directions(
            pressed_directions(keyboard),
            pressed_directions(keyboard).len() as int,
        ) == movement_input(keyboard).y,
{
    reveal_with_fuel(thrust_of_directions, 5);
}

/// Folds the held movement buttons into the accumulator. Turning is not
/// gathered here.
pub fn gather_movement_input(
    keyboard_input: &InputSnapshot,
    input_accumulator: &mut MovementInputAccumulator,
)
    ensures
        final(input_accumulator).value == accumulated(
            old(input_accumulator).value,
            movement_input(*keyboard_input),
        ),
        final(input_accumulator).wf(),
{
    let directions = get_pressed_directions(keyboard_input);
    let mut input = Vec2 { x: 0, y: 0 };
    let mut i: usize = 0;
    while i < directions.len()
        invariant
            i <= directions.len() <= 4,
            input.x == 0,
            input.y == thrust_of_directions(directions@, i as int),
            -(i as int) <= input.y <= i,
        decreases directions.len() - i,
    {
        match directions[i] {
            MoveDirection::Up => {
                input.y = input.y + 1;
            },
            MoveDirection::Down => {
                input.y = input.y - 1;
            },
            MoveDirection::Left => {},
            MoveDirection::Right => {},
        }
        i = i + 1;
    }
    proof {
        lemma_thrust_of_pressed(*keyboard_input);
    }
    input_accumulator.accumulate(input);
}

/// The change of velocity from thrust: the impulse of `input_y` forward
/// steps over `dt_us` microseconds along `forward`, a unit vector in
/// millionths.
pub open spec fn thrust_of(forward: (int, int), input_y: int, dt_us: int) -> (int, int) {
    let impulse = input_y * THRUST_FORCE * dt_us;
    (
        div_trunc(forward.0 * impulse, TRILLION as int),
        div_trunc(forward.1 * impulse, TRILLION as int),
    )
}

/// A velocity scaled by a factor in billionths.
pub open spec fn damped(v: (int, int), factor: int) -> (int, int) {
    (div_trunc(v.0 * factor, BILLION as int), div_trunc(v.1 * factor, BILLION as int))
}

/// The ship's velocity after one movement step: thrust along the nose,
/// then damping, then the speed limit.
pub open spec fn velocity_after(v: Vec2, input_y: int, rotation: int, dt_us: int) -> (int, int) {
    let t = thrust_of(forward_of(rotation), input_y, dt_us);
    limited(damped((v.x + t.0, v.y + t.1), damping_of(dt_us)), MAX_VELOCITY as int)
}

/// Applies thrust, damping and the speed limit to the ship's velocity.
pub fn apply_movement(
    dt_us: u32,
    input_accumulator: &MovementInputAccumulator,
    rotation: &PhysicalRotation,
    velocity: &mut Velocity,
)
    requires
        input_accumulator.wf(),
        old(velocity).0.within(SPEED_LIMIT as int),
    ensures
        (final(velocity).0.x as int, final(velocity).0.y as int) == velocity_after(
            old(velocity).0,
            input_accumulator.value.y as int,
            rotation.0 as int,
            dt_us as int,
        ),
        final(velocity).0.norm_sq() <= MAX_VELOCITY * MAX_VELOCITY,
        final(velocity).0.within(MAX_VELOCITY as int),
{
    let input = input_accumulator.get();
    let nose = forward(rotation.0);
    let factor: i64 = damping_factor(dt_us);
    let ghost f = forward_of(rotation.0 as int);
    let ghost input_y = input.y as int;
    let ghost impulse_spec = input_y * THRUST_FORCE * dt_us;
    proof {
        lemma_product_bound(input_y * 800_000, dt_us as int, 800_000_000_000, 0x1_0000_0000);
        lemma_product_bound(f.0, impulse_spec, 1_000_000, 3_435_973_836_800_000_000_000int);
        lemma_product_bound(f.1, impulse_spec, 1_000_000, 3_435_973_836_800_000_000_000int);
    }
    let impulse: i128 = (input.y as i128) * 800_000 * (dt_us as i128);
    let thrust_x: i128 = div_trunc_wide((nose.x as i128) * impulse, 1_000_000_000_000);
    let thrust_y: i128 = div_trunc_wide((nose.y as i128) * impulse, 1_000_000_000_000);
    proof {
        lemma_div_trunc_bounds(f.0 * impulse_spec, TRILLION as int);
        lemma_div_trunc_bounds(f.1 * impulse_spec, TRILLION as int);
        assert(abs(thrust_x as int) <= 3_435_973_836_800_000);
        assert(abs(thrust_y as int) <= 3_435_973_836_800_000);
    }
    let pushed_x: i128 = velocity.0.x as i128 + thrust_x;
    let pushed_y: i128 = velocity.0.y as i128 + thrust_y;
    proof {
        lemma_product_bound(pushed_x as int, factor as int, 5_000_000_000_000_000, 1_000_000_000);
        lemma_product_bound(pushed_y as int, factor as int, 5_000_000_000_000_000, 1_000_000_000);
    }
    let damped_x: i128 = div_trunc_wide(pushed_x * (factor as i128), 1_000_000_000);
    let damped_y: i128 = div_trunc_wide(pushed_y * (factor as i128), 1_000_000_000);
    proof {
        lemma_scaled_down(pushed_x as int, factor as int, BILLION as int);
        lemma_scaled_down(pushed_y as int, factor as int, BILLION as int);
    }
    let limited_velocity = limit_speed(damped_x as i64, damped_y as i64, MAX_VELOCITY);
    proof {
        lemma_limited_within((damped_x as int, damped_y as int), MAX_VELOCITY as int);
    }
    velocity.0 = limited_velocity;
}

/// Scaling by a share of the whole never increases a magnitude.
pub proof fn lemma_scaled_down(n: int, factor: int, whole: int)
    requires
        0 <= factor <= whole,
        whole > 0,
    ensures
        abs(div_trunc(n * factor, whole)) <= abs(n),
        n == 0 ==> div_trunc(n * factor, whole) == 0,
{
    lemma_div_trunc_bounds(n * factor, whole);
    let q = abs(div_trunc(n * factor, whole));
    assert(abs(n * factor) == abs(n) * factor) by (nonlinear_arith)
        requires
            factor >= 0,
    ;
    assert(q <= abs(n)) by (nonlinear_arith)
        requires
            q * whole <= abs(n) * factor,
            0 <= factor <= whole,
            whole > 0,
            q >= 0,
            abs(n) >= 0,
    ;
    if n == 0 {
        assert(n * factor == 0);
    }
}

/// How far the ship turns in `dt_us` microseconds, in microradians.
pub open spec fn turn_step(dt_us: int) -> int {
    ROTATION_SPEED * dt_us / (MICRO as int)
}

/// The rotation after one frame of turning: the left button adds a turn
/// step, then the right button takes one away. Rotations are not reduced
/// modulo a full turn; they saturate at the angle limit.
pub open spec fn rotation_after(rotation: int, keyboard: InputSnapshot, dt_us: int) -> int {
    let after_left = if keyboard.turn_left {
        clamp_abs(rotation + turn_step(dt_us), ANGLE_LIMIT as int)
    } else {
        rotation
    };
    if keyboard.turn_right {
        clamp_abs(after_left - turn_step(dt_us), ANGLE_LIMIT as int)
    } else {
        after_left
    }
}

/// Remembers the rotation and turns the ship by the held buttons over
/// `dt_us` microseconds of wall time.
pub fn apply_rotation_input(
    keyboard_input: &InputSnapshot,
    dt_us: u32,
    rotation: &mut PhysicalRotation,
    prev_rotation: &mut PreviousPhysicalRotation,
)
    ensures
        final(prev_rotation).0 == old(rotation).0,
        final(rotation).0 == rotation_after(
            old(rotation).0 as int,
            *keyboard_input,
            dt_us as int,
        ),
{
    prev_rotation.0 = rotation.0;
    let step: i128 = 4_500_000 * (dt_us as i128) / 1_000_000;
    if keyboard_input.turn_left {
        rotation.0 = clamp_abs_wide(rotation.0 as i128 + step, ANGLE_LIMIT);
    }
    if keyboard_input.turn_right {
        rotation.0 = clamp_abs_wide(rotation.0 as i128 - step, ANGLE_LIMIT);
    }
}

/// A coordinate after moving at `velocity` for `dt_us` microseconds;
/// motion saturates at the coordinate limit.
pub open spec fn moved(position: int, velocity: int, dt_us: int) -> int {
    clamp_abs(position + div_trunc(velocity * dt_us, MICRO as int), COORD_LIMIT as int)
}

/// A position after moving at `velocity` for `dt_us` microseconds.
pub open spec fn moved_position(position: Vec2, velocity: Vec2, dt_us: int) -> Vec2 {
    Vec2 {
        x: moved(position.x as int, velocity.x as int, dt_us) as i64,
        y: moved(position.y as int, velocity.y as int, dt_us) as i64,
    }
}

/// Moves one coordinate at `velocity` for `dt_us` microseconds.
pub fn integrate_axis(position: i64, velocity: i64, dt_us: u32) -> (result: i64)
    ensures
        result == moved(position as int, velocity as int, dt_us as int),
        abs(result as int) <= COORD_LIMIT,
{
    proof {
        lemma_product_bound(
            velocity as int,
            dt_us as int,
            0x8000_0000_0000_0000,
            0x1_0000_0000,
        );
    }
    let travel: i128 = div_trunc_wide((velocity as i128) * (dt_us as i128), 1_000_000);
    clamp_abs_wide(position as i128 + travel, COORD_LIMIT)
}

/// Moves a position at `velocity` for `dt_us` microseconds.
pub fn integrate_position(position: Vec2, velocity: Vec2, dt_us: u32) -> (result: Vec2)
    ensures
        result == moved_position(position, velocity, dt_us as int),
        result.within(COORD_LIMIT as int),
{
    Vec2 {
        x: integrate_axis(position.x, velocity.x, dt_us),
        y: integrate_axis(position.y, velocity.y, dt_us),
    }
}

/// One fixed tick of the ship's position: remembers where it was, moves it
/// by its velocity, and clears the accumulated input.
pub fn update_physics_state(
    dt_us: u32,
    current_physical_translation: &mut PhysicalTranslation,
    previous_physical_translation: &mut PreviousPhysicalTranslation,
    input_accumulator: &mut MovementInputAccumulator,
    velocity: &Velocity,
)
    ensures
        final(previous_physical_translation).0 == old(current_physical_translation).0,
        final(current_physical_translation).0 == moved_position(
            old(current_physical_translation).0,
            velocity.0,
            dt_us as int,
        ),
        final(current_physical_translation).0.within(COORD_LIMIT as int),
        final(input_accumulator).value == (Vec2 { x: 0, y: 0 }),
{
    previous_physical_translation.0 = current_physical_translation.0;
    current_physical_translation.0 = integrate_position(
        current_physical_translation.0,
        velocity.0,
        dt_us,
    );
    input_accumulator.reset();
}

/// The value a share `alpha`, in millionths, of the way from `previous` to
/// `current`.
pub open spec fn lerp(previous: int, current: int, alpha: int) -> int {
    previous + div_trunc((current - previous) * alpha, MICRO as int)
}

/// A blend never leaves the interval between its two ends.
pub proof fn lemma_lerp_between(previous: int, current: int, alpha: int)
    requires
        0 <= alpha <= MICRO,
    ensures
        previous <= current ==> previous <= lerp(previous, current, alpha) <= current,
        current <= previous ==> current <= lerp(previous, current, alpha) <= previous,
        alpha == 0 ==> lerp(previous, current, alpha) == previous,
        alpha == MICRO ==> lerp(previous, current, alpha) == current,
{
    let d = current - previous;
    lemma_scaled_down(d, alpha, MICRO as int);
    lemma_div_trunc_bounds(d * alpha, MICRO as int);
    assert(d >= 0 ==> d * alpha >= 0) by (nonlinear_arith)
        requires
            alpha >= 0,
    ;
    assert(d <= 0 ==> d * alpha <= 0) by (nonlinear_arith)
        requires
            alpha >= 0,
    ;
    if alpha == 0 {
        assert(d * alpha == 0);
    }
    if alpha == MICRO {
        assert(d * alpha == d * 1_000_000);
        if d >= 0 {
            vstd::arithmetic::div_mod::lemma_div_multiples_vanish(d, 1_000_000);
        } else {
            vstd::arithmetic::div_mod::lemma_div_multiples_vanish(-d, 1_000_000);
        }
    }
}

/// Blends one value between two physical states.
pub fn interpolate(previous: i64, current: i64, alpha: u32) -> (rendered: i64)
    requires
        alpha <= MICRO,
    ensures
        rendered == lerp(previous as int, current as int, alpha as int),
{
    proof {
        lemma_lerp_between(previous as int, current as int, alpha as int);
        lemma_product_bound(
            current - previous,
            alpha as int,
            0x1_0000_0000_0000_0000,
            1_000_000,
        );
    }
    let delta: i128 = current as i128 - previous as i128;
    let part: i128 = div_trunc_wide(delta * (alpha as i128), 1_000_000);
    (previous as i128 + part) as i64
}

/// Sets the rendered transform to the blend, by the pacer's overstep
/// fraction, of the previous and the current physical state. Rotation is
/// blended linearly, without unwrapping.
pub fn interpolate_rendered_transform(
    fixed_time: &Pacer,
    transform: &mut Transform2d,
    current_translation: &PhysicalTranslation,
    previous_translation: &PreviousPhysicalTranslation,
    current_rotation: &PhysicalRotation,
    previous_rotation: &PreviousPhysicalRotation,
)
    requires
        fixed_time.wf(),
    ensures
        final(transform).translation.x == lerp(
            previous_translation.0.x as int,
            current_translation.0.x as int,
            fixed_time.fraction(),
        ),
        final(transform).translation.y == lerp(
            previous_translation.0.y as int,
            current_translation.0.y as int,
            fixed_time.fraction(),
        ),
        final(transform).rotation == lerp(
            previous_rotation.0 as int,
            current_rotation.0 as int,
            fixed_time.fraction(),
        ),
        final(transform).scale == old(transform).scale,
{
    let alpha: u32 = fixed_time.overstep_fraction();
    transform.translation = Vec2 {
        x: interpolate(previous_translation.0.x, current_translation.0.x, alpha),
        y: interpolate(previous_translation.0.y, current_translation.0.y, alpha),
    };
    transform.rotation = interpolate(previous_rotation.0, current_rotation.0, alpha);
}

/// The previous coordinate after a wrap: it follows the current one where
/// that jumped, so that no blend runs across the playfield.
pub open spec fn wrapped_previous(previous: int, current: int, bound: int) -> int {
    if wrapped(current, bound) != current {
        wrapped(current, bound)
    } else {
        previous
    }
}

/// Wraps the ship around the playfield widened by the ship's margin.
pub fn wrap_screen_position(
    playfield: &Playfield,
    translation: &mut PhysicalTranslation,
    prev_translation: &mut PreviousPhysicalTranslation,
)
    requires
        playfield.wf(),
    ensures
        final(translation).0 == playfield.wrapped_position(old(translation).0, WRAP_MARGIN as int),
        playfield.contains(final(translation).0, WRAP_MARGIN as int),
        final(prev_translation).0.x == wrapped_previous(
            old(prev_translation).0.x as int,
            old(translation).0.x as int,
            playfield.half_width() + WRAP_MARGIN,
        ),
        final(prev_translation).0.y == wrapped_previous(
            old(prev_translation).0.y as int,
            old(translation).0.y as int,
            playfield.half_height() + WRAP_MARGIN,
        ),
{
    let half_width: i64 = playfield.width / 2;
    let half_height: i64 = playfield.height / 2;
    let x: i64 = wrap_axis(translation.0.x, half_width + WRAP_MARGIN);
    if x != translation.0.x {
        translation.0.x = x;
        prev_translation.0.x = x;
    }
    let y: i64 = wrap_axis(translation.0.y, half_height + WRAP_MARGIN);
    if y != translation.0.y {
        translation.0.y = y;
        prev_translation.0.y = y;
    }
}

/// Puts the ship back at the origin, at rest and pointing up, when the
/// reset button has just been pressed; otherwise changes nothing.
pub fn reset_ship_position(
    just_pressed: bool,
    translation: &mut PhysicalTranslation,
    velocity: &mut Velocity,
    rotation: &mut PhysicalRotation,
)
    ensures
        just_pressed ==> final(translation).0 == (Vec2 { x: 0, y: 0 }) && final(velocity).0 == (
        Vec2 { x: 0, y: 0 }) && final(rotation).0 == 0,
        !just_pressed ==> *final(translation) == *old(translation) && *final(velocity) == *old(
            velocity,
        ) && *final(rotation) == *old(rotation),
{
    if just_pressed {
        translation.0 = Vec2 { x: 0, y: 0 };
        velocity.0 = Vec2 { x: 0, y: 0 };
        rotation.0 = 0;
    }
}

/// A ship at rest with no input stays at rest: whatever its rotation and
/// however long the step, movement leaves its velocity at zero and
/// integration leaves its position where it is.
pub proof fn lemma_rest_is_preserved(position: Vec2, rotation: int, dt_us: int)
    requires
        dt_us >= 0,
        position.within(COORD_LIMIT as int),
    ensures
        velocity_after(Vec2 { x: 0, y: 0 }, 0, rotation, dt_us) == (0int, 0int),
        moved_position(position, Vec2 { x: 0, y: 0 }, dt_us) == position,
{
    let f = forward_of(rotation);
    let impulse = 0 * THRUST_FORCE * dt_us;
    assert(impulse == 0) by (nonlinear_arith)
        requires
            impulse == 0 * THRUST_FORCE * dt_us,
    ;
    assert(f.0 * impulse == 0 && f.1 * impulse == 0) by (nonlinear_arith)
        requires
            impulse == 0,
    ;
    let t = thrust_of(f, 0, dt_us);
    assert(t == (0int, 0int));
    let d = damping_of(dt_us);
    assert(0 * d == 0) by (nonlinear_arith);
    let slowed = damped((0 + t.0, 0 + t.1), d);
    assert(slowed == (0int, 0int));
    assert(MAX_VELOCITY * MAX_VELOCITY > 0) by (nonlinear_arith);
    assert(slowed.0 * slowed.0 + slowed.1 * slowed.1 == 0);
    assert(limited(slowed, MAX_VELOCITY as int) == slowed);
    assert(0int * dt_us == 0);
}

/// After a reset, a step without input leaves the ship at the origin with
/// zero velocity and zero rotation.
pub proof fn lemma_reset_then_idle(dt_us: int)
    requires
        dt_us >= 0,
    ensures
        velocity_after(Vec2 { x: 0, y: 0 }, 0, 0, dt_us) == (0int, 0int),
        moved_position(Vec2 { x: 0, y: 0 }, Vec2 { x: 0, y: 0 }, dt_us) == (Vec2 { x: 0, y: 0 }),
        rotation_after(0, InputSnapshot {
            forward: false,
            reverse: false,
            turn_left: false,
            turn_right: false,
            fire: false,
            reset: false,
        }, dt_us) == 0,
{
    lemma_rest_is_preserved(Vec2 { x: 0, y: 0 }, 0, dt_us);
}

} // verus!
