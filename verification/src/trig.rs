//! Integer sine and cosine.
//!
//! Angles are microradians; results are millionths. The smaller of the two
//! components comes from a Taylor polynomial evaluated in the first octant,
//! the larger from a square root, so every result lies on the unit circle up
//! to one rounding step.

use vstd::prelude::*;
use vstd::arithmetic::div_mod::{
    lemma_fundamental_div_mod, lemma_fundamental_div_mod_converse, lemma_mod_bound,
};
use crate::fixed::{
    abs, clamp, floor_sqrt, is_floor_sqrt, isqrt, lemma_floor_sqrt_exists,
    lemma_floor_sqrt_unique, Vec2, MICRO,
};

verus! {

/// Nanoradians per microradian.
pub const NANO_PER_MICRO: i64 = 1_000;

/// Nanoradians per radian.
pub const NANO: i64 = 1_000_000_000;

/// A full turn in nanoradians, rounded to a multiple of four.
pub const TURN_NRAD: i64 = 6_283_185_308;

/// A quarter turn in nanoradians.
pub const QUARTER_NRAD: i64 = 1_570_796_327;

/// Half a quarter turn in nanoradians, rounded down.
pub const EIGHTH_NRAD: i64 = 785_398_163;

/// Square of one in millionths.
pub const UNIT_SQ: i64 = 1_000_000_000_000;

/// Sine, in millionths, of an angle of at most an eighth turn given in
/// nanoradians: the Taylor polynomial up to the ninth power, rounded.
pub open spec fn sin_octant(x: int) -> int
    recommends
        0 <= x <= EIGHTH_NRAD + 1,
{
    let x2 = x * x / (NANO as int);
    let t3 = x * x2 / (NANO as int) / 6;
    let t5 = t3 * x2 / (NANO as int) / 20;
    let t7 = t5 * x2 / (NANO as int) / 42;
    let t9 = t7 * x2 / (NANO as int) / 72;
    clamp((x - t3 + t5 - t7 + t9 + 500) / 1000, 0, MICRO as int)
}

/// The non-negative component that completes `s` to a unit vector.
pub open spec fn complement(s: int) -> int
    recommends
        0 <= s <= MICRO,
{
    floor_sqrt(UNIT_SQ - s * s)
}

/// Sine and cosine, in millionths, of an angle within the first quarter
/// turn, given in nanoradians.
pub open spec fn sin_cos_quarter(a: int) -> (int, int)
    recommends
        0 <= a < QUARTER_NRAD,
{
    if a <= EIGHTH_NRAD {
        let s = sin_octant(a);
        (s, complement(s))
    } else {
        let c = sin_octant(QUARTER_NRAD - a);
        (complement(c), c)
    }
}

/// Sine and cosine, in millionths, of an angle within one turn, given in
/// nanoradians.
pub open spec fn sin_cos_turn(r: int) -> (int, int)
    recommends
        0 <= r < TURN_NRAD,
{
    let q = r / (QUARTER_NRAD as int);
    let (s, c) = sin_cos_quarter(r % (QUARTER_NRAD as int));
    if q == 0 {
        (s, c)
    } else if q == 1 {
        (c, -s)
    } else if q == 2 {
        (-s, -c)
    } else {
        (-c, s)
    }
}

/// The angle brought into one turn, in nanoradians.
pub open spec fn reduce(angle: int) -> int {
    (angle * NANO_PER_MICRO) % (TURN_NRAD as int)
}

/// Sine and cosine, in millionths, of an angle in microradians.
pub open spec fn sin_cos_of(angle: int) -> (int, int) {
    sin_cos_turn(reduce(angle))
}

/// The unit vector along the nose of a ship turned by `rotation`
/// microradians counter-clockwise from straight up.
pub open spec fn forward_of(rotation: int) -> (int, int) {
    let (s, c) = sin_cos_of(rotation);
    (-s, c)
}

/// The unit vector at `angle` microradians from the x axis.
pub open spec fn direction_of(angle: int) -> (int, int) {
    let (s, c) = sin_cos_of(angle);
    (c, s)
}

/// `v` has both components within one and a length within one rounding step
/// of one.
pub open spec fn is_unit(v: (int, int)) -> bool {
    &&& abs(v.0) <= MICRO
    &&& abs(v.1) <= MICRO
    &&& UNIT_SQ - 2 * MICRO <= v.0 * v.0 + v.1 * v.1 <= UNIT_SQ
}

/// The complement of a component completes it to a unit vector, up to one
/// rounding step.
proof fn lemma_complement_unit(s: int)
    requires
        0 <= s <= MICRO,
    ensures
        0 <= complement(s) <= MICRO,
        UNIT_SQ - 2 * MICRO <= s * s + complement(s) * complement(s) <= UNIT_SQ,
{
    let n = UNIT_SQ - s * s;
    assert(0 <= s * s <= 1_000_000 * 1_000_000) by (nonlinear_arith)
        requires
            0 <= s <= 1_000_000,
    ;
    lemma_floor_sqrt_exists(n);
    let c = complement(s);
    if c > MICRO {
        assert(c * c > 1_000_000 * 1_000_000) by (nonlinear_arith)
            requires
                c > 1_000_000,
        ;
    }
    assert((c + 1) * (c + 1) == c * c + 2 * c + 1) by (nonlinear_arith);
}

/// Every angle maps to a unit vector.
pub proof fn lemma_sin_cos_is_unit(angle: int)
    ensures
        is_unit(sin_cos_of(angle)),
        is_unit(forward_of(angle)),
        is_unit(direction_of(angle)),
{
    let r = reduce(angle);
    lemma_mod_bound(angle * NANO_PER_MICRO, TURN_NRAD as int);
    let a = r % (QUARTER_NRAD as int);
    lemma_mod_bound(r, QUARTER_NRAD as int);
    let (s, c) = sin_cos_quarter(a);
    if a <= EIGHTH_NRAD {
        lemma_complement_unit(sin_octant(a));
    } else {
        lemma_complement_unit(sin_octant(QUARTER_NRAD - a));
    }
    assert((-s) * (-s) == s * s) by (nonlinear_arith);
    assert((-c) * (-c) == c * c) by (nonlinear_arith);
}

/// At rotation zero the nose points straight up.
pub proof fn lemma_forward_at_zero()
    ensures
        forward_of(0) == (0int, MICRO as int),
{
    assert(reduce(0) == 0);
    assert(sin_octant(0) == 0) by {
        assert(0int * 0int / (NANO as int) == 0);
    }
    assert(is_floor_sqrt(UNIT_SQ as int, MICRO as int)) by (nonlinear_arith);
    lemma_floor_sqrt_unique(UNIT_SQ as int, MICRO as int);
    assert(complement(0) == MICRO);
    assert(sin_cos_quarter(0) == (0int, MICRO as int));
}

/// A negative dividend's remainder, from the remainder of its magnitude.
proof fn lemma_mod_of_negative(w: int, t: int)
    requires
        w < 0,
        t > 0,
    ensures
        w % t == if (-w) % t == 0 {
            0
        } else {
            t - (-w) % t
        },
{
    let k = (-w) / t;
    let m = (-w) % t;
    lemma_fundamental_div_mod(-w, t);
    lemma_mod_bound(-w, t);
    if m == 0 {
        assert(w == (-k) * t + 0) by (nonlinear_arith)
            requires
                -w == t * k + m,
                m == 0,
        ;
        lemma_fundamental_div_mod_converse(w, t, -k, 0);
    } else {
        assert(w == (-k - 1) * t + (t - m)) by (nonlinear_arith)
            requires
                -w == t * k + m,
        ;
        lemma_fundamental_div_mod_converse(w, t, -k - 1, t - m);
    }
}

/// Brings an angle in microradians into one turn, in nanoradians.
fn reduce_angle(angle: i64) -> (r: u64)
    ensures
        r == reduce(angle as int),
        r < TURN_NRAD,
{
    let wide: i128 = (angle as i128) * 1000;
    let turn: i128 = TURN_NRAD as i128;
    proof {
        lemma_mod_bound(wide as int, turn as int);
    }
    if wide >= 0 {
        (wide % turn) as u64
    } else {
        let m: i128 = (-wide) % turn;
        proof {
            lemma_mod_bound(-wide as int, turn as int);
            lemma_mod_of_negative(wide as int, turn as int);
        }
        if m == 0 {
            0
        } else {
            (turn - m) as u64
        }
    }
}

/// Evaluates the sine polynomial on an angle of at most an eighth turn.
fn sin_small(x: u64) -> (s: i64)
    requires
        x <= EIGHTH_NRAD + 1,
    ensures
        s == sin_octant(x as int),
        0 <= s <= MICRO,
{
    let nano: u64 = 1_000_000_000;
    assert(x * x <= 800_000_000 * 800_000_000) by (nonlinear_arith)
        requires
            x <= 800_000_000,
    ;
    let x2: u64 = x * x / nano;
    assert(x * x2 <= 800_000_000 * 640_000_000) by (nonlinear_arith)
        requires
            x <= 800_000_000,
            x2 <= 640_000_000,
    ;
    let t3: u64 = x * x2 / nano / 6;
    assert(t3 * x2 <= 100_000_000 * 640_000_000) by (nonlinear_arith)
        requires
            t3 <= 100_000_000,
            x2 <= 640_000_000,
    ;
    let t5: u64 = t3 * x2 / nano / 20;
    assert(t5 * x2 <= 4_000_000 * 640_000_000) by (nonlinear_arith)
        requires
            t5 <= 4_000_000,
            x2 <= 640_000_000,
    ;
    let t7: u64 = t5 * x2 / nano / 42;
    assert(t7 * x2 <= 100_000 * 640_000_000) by (nonlinear_arith)
        requires
            t7 <= 100_000,
            x2 <= 640_000_000,
    ;
    let t9: u64 = t7 * x2 / nano / 72;
    let sum: i64 = (x as i64) - (t3 as i64) + (t5 as i64) - (t7 as i64) + (t9 as i64) + 500;
    let rounded: i64 = if sum >= 0 {
        sum / 1000
    } else {
        proof {
            lemma_div_negative_is_negative(sum as int);
        }
        -1
    };
    if rounded < 0 {
        0
    } else if rounded > MICRO {
        MICRO
    } else {
        rounded
    }
}

/// A negative number divided by a thousand stays negative.
proof fn lemma_div_negative_is_negative(n: int)
    requires
        n < 0,
    ensures
        n / 1000 < 0,
{
}

/// Completes `s` to a unit vector.
fn complete(s: i64) -> (c: i64)
    requires
        0 <= s <= MICRO,
    ensures
        c == complement(s as int),
        0 <= c <= MICRO,
{
    proof {
        lemma_complement_unit(s as int);
    }
    assert(0 <= s * s <= 1_000_000 * 1_000_000) by (nonlinear_arith)
        requires
            0 <= s <= 1_000_000,
    ;
    let n: i64 = UNIT_SQ - s * s;
    let r: u64 = isqrt(n as u128);
    r as i64
}

/// Sine and cosine, in millionths, of an angle in microradians.
pub fn sin_cos(angle: i64) -> (r: (i64, i64))
    ensures
        (r.0 as int, r.1 as int) == sin_cos_of(angle as int),
        is_unit((r.0 as int, r.1 as int)),
{
    proof {
        lemma_sin_cos_is_unit(angle as int);
    }
    let reduced: u64 = reduce_angle(angle);
    let quarter: u64 = QUARTER_NRAD as u64;
    let q: u64 = reduced / quarter;
    let a: u64 = reduced % quarter;
    let s: i64;
    let c: i64;
    if a <= EIGHTH_NRAD as u64 {
        s = sin_small(a);
        c = complete(s);
    } else {
        c = sin_small(quarter - a);
        s = complete(c);
    }
    if q == 0 {
        (s, c)
    } else if q == 1 {
        (c, -s)
    } else if q == 2 {
        (-s, -c)
    } else {
        (-c, s)
    }
}

/// The unit vector along the nose of a ship turned by `rotation`
/// microradians counter-clockwise from straight up.
pub fn forward(rotation: i64) -> (v: Vec2)
    ensures
        (v.x as int, v.y as int) == forward_of(rotation as int),
        is_unit((v.x as int, v.y as int)),
{
    proof {
        lemma_sin_cos_is_unit(rotation as int);
    }
    let (s, c) = sin_cos(rotation);
    Vec2 { x: -s, y: c }
}

/// The unit vector at `angle` microradians from the x axis.
pub fn direction(angle: i64) -> (v: Vec2)
    ensures
        (v.x as int, v.y as int) == direction_of(angle as int),
        is_unit((v.x as int, v.y as int)),
{
    proof {
        lemma_sin_cos_is_unit(angle as int);
    }
    let (s, c) = sin_cos(angle);
    Vec2 { x: c, y: s }
}

} // verus!
