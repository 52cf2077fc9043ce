//! The rectangular playfield and its wrap-around rule.

use vstd::prelude::*;
use crate::fixed::{Vec2, abs};

verus! {

/// Largest width or height a playfield may have.
pub const PLAYFIELD_LIMIT: i64 = 100_000_000_000;

/// Largest margin a wrap may use.
pub const MARGIN_LIMIT: i64 = 100_000_000_000;

/// The drawable area, centred on the origin.
#[derive(Clone, Copy, Debug, PartialEq, Eq, Structural)]
pub struct Playfield {
    pub width: i64,
    pub height: i64,
}

/// The coordinate after wrapping at the magnitude `bound`: a coordinate
/// beyond the bound reappears on the opposite bound, any other stays.
pub open spec fn wrapped(x: int, bound: int) -> int {
    if x > bound {
        -bound
    } else if x < -bound {
        bound
    } else {
        x
    }
}

impl Playfield {
    /// Both extents are non-negative and within the limit.
    pub open spec fn wf(self) -> bool {
        0 <= self.width <= PLAYFIELD_LIMIT && 0 <= self.height <= PLAYFIELD_LIMIT
    }

    /// Half the width.
    pub open spec fn half_width(self) -> int {
        self.width as int / 2
    }

    /// Half the height.
    pub open spec fn half_height(self) -> int {
        self.height as int / 2
    }

    /// The position after wrapping on both axes with the given margin.
    pub open spec fn wrapped_position(self, position: Vec2, margin: int) -> Vec2 {
        Vec2 {
            x: wrapped(position.x as int, self.half_width() + margin) as i64,
            y: wrapped(position.y as int, self.half_height() + margin) as i64,
        }
    }

    /// The position lies within the playfield widened by the margin.
    pub open spec fn contains(self, position: Vec2, margin: int) -> bool {
        abs(position.x as int) <= self.half_width() + margin && abs(position.y as int)
            <= self.half_height() + margin
    }

    /// Tests the playfield's invariant.
    pub fn is_well_formed(&self) -> (ok: bool)
        ensures
            ok == self.wf(),
    {
        0 <= self.width && self.width <= PLAYFIELD_LIMIT && 0 <= self.height && self.height
            <= PLAYFIELD_LIMIT
    }

    /// A playfield of the given extents, if they are admissible.
    pub fn new(width: i64, height: i64) -> (playfield: Option<Playfield>)
        ensures
            playfield.is_some() <==> (Playfield { width, height }).wf(),
            playfield.is_some() ==> playfield.unwrap() == (Playfield { width, height }),
    {
        if 0 <= width && width <= PLAYFIELD_LIMIT && 0 <= height && height <= PLAYFIELD_LIMIT {
            Some(Playfield { width, height })
        } else {
            None
        }
    }

    /// Wraps a position on both axes with the given margin.
    pub fn wrap(&self, position: Vec2, margin: i64) -> (result: Vec2)
        requires
            self.wf(),
            0 <= margin <= MARGIN_LIMIT,
        ensures
            result == self.wrapped_position(position, margin as int),
            self.contains(result, margin as int),
    {
        let bound_x: i64 = self.width / 2 + margin;
        let bound_y: i64 = self.height / 2 + margin;
        Vec2 { x: wrap_axis(position.x, bound_x), y: wrap_axis(position.y, bound_y) }
    }
}

/// Wraps one coordinate at the magnitude `bound`.
pub fn wrap_axis(x: i64, bound: i64) -> (result: i64)
    requires
        bound >= 0,
    ensures
        result == wrapped(x as int, bound as int),
        abs(result as int) <= bound,
{
    if x > bound {
        -bound
    } else if x < -bound {
        bound
    } else {
        x
    }
}

/// After a wrap the coordinate lies within the bound.
pub proof fn lemma_wrapped_within(x: int, bound: int)
    requires
        bound >= 0,
    ensures
        abs(wrapped(x, bound)) <= bound,
{
}

/// Wrapping a second time changes nothing.
pub proof fn lemma_wrap_twice(x: int, bound: int)
    requires
        bound >= 0,
    ensures
        wrapped(wrapped(x, bound), bound) == wrapped(x, bound),
{
}

/// Wrapping a position a second time changes nothing, and a wrapped
/// position lies within the playfield widened by the margin.
pub proof fn lemma_wrap_position_twice(playfield: Playfield, position: Vec2, margin: int)
    requires
        playfield.wf(),
        0 <= margin <= MARGIN_LIMIT,
    ensures
        playfield.wrapped_position(playfield.wrapped_position(position, margin), margin)
            == playfield.wrapped_position(position, margin),
        playfield.contains(playfield.wrapped_position(position, margin), margin),
{
}

} // verus!
