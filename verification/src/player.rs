//! The player's ship as it enters the world.

use vstd::prelude::*;
use crate::fixed::{Vec2, div_trunc, div_trunc_wide};
use crate::entity::Transform2d;
use crate::physics::ShipPhysicsBundle;

verus! {

/// The scale at which the ship is drawn, in millionths.
pub const PLAYER_SCALE: i64 = 400_000;

/// Largest magnitude of an outline coordinate.
pub const OUTLINE_LIMIT: i64 = 1_000_000_000;

/// A human-readable name for an entity.
pub struct Name(pub String);

impl Name {
    /// A name with the given text.
    pub fn new(name: &str) -> (result: Name)
        ensures
            result.0@ == name@,
    {
        Name(name.to_owned())
    }
}

/// The three corners of the ship's outline: nose, bottom left, bottom
/// right.
#[derive(Clone, Copy, Debug, PartialEq, Eq, Structural)]
pub struct Outline {
    pub nose: Vec2,
    pub bottom_left: Vec2,
    pub bottom_right: Vec2,
}

impl Outline {
    /// Every coordinate is within the outline limit.
    pub open spec fn wf(self) -> bool {
        &&& self.nose.within(OUTLINE_LIMIT as int)
        &&& self.bottom_left.within(OUTLINE_LIMIT as int)
        &&& self.bottom_right.within(OUTLINE_LIMIT as int)
    }

    /// The centroid: the mean of the three corners, rounded toward zero.
    pub open spec fn centroid(self) -> Vec2 {
        Vec2 {
            x: div_trunc(self.nose.x + self.bottom_left.x + self.bottom_right.x, 3) as i64,
            y: div_trunc(self.nose.y + self.bottom_left.y + self.bottom_right.y, 3) as i64,
        }
    }

    /// The outline moved so that its centroid lies at the origin.
    pub open spec fn centered_of(self) -> Outline {
        let c = self.centroid();
        Outline {
            nose: Vec2 { x: (self.nose.x - c.x) as i64, y: (self.nose.y - c.y) as i64 },
            bottom_left: Vec2 {
                x: (self.bottom_left.x - c.x) as i64,
                y: (self.bottom_left.y - c.y) as i64,
            },
            bottom_right: Vec2 {
                x: (self.bottom_right.x - c.x) as i64,
                y: (self.bottom_right.y - c.y) as i64,
            },
        }
    }

    /// Moves the outline so that it turns about its middle.
    pub fn centered(&self) -> (result: Outline)
        requires
            self.wf(),
        ensures
            result == self.centered_of(),
    {
        let sum_x: i128 = self.nose.x as i128 + self.bottom_left.x as i128
            + self.bottom_right.x as i128;
        let sum_y: i128 = self.nose.y as i128 + self.bottom_left.y as i128
            + self.bottom_right.y as i128;
        let cx: i64 = div_trunc_wide(sum_x, 3) as i64;
        let cy: i64 = div_trunc_wide(sum_y, 3) as i64;
        Outline {
            nose: Vec2 { x: self.nose.x - cx, y: self.nose.y - cy },
            bottom_left: Vec2 { x: self.bottom_left.x - cx, y: self.bottom_left.y - cy },
            bottom_right: Vec2 { x: self.bottom_right.x - cx, y: self.bottom_right.y - cy },
        }
    }
}

/// The ship's outline as drawn: a triangle a hundred pixels wide and high.
pub open spec fn ship_outline() -> Outline {
    Outline {
        nose: Vec2 { x: 0, y: 66_667 },
        bottom_left: Vec2 { x: -50_000i64, y: -33_333i64 },
        bottom_right: Vec2 { x: 50_000, y: -33_333i64 },
    }
}

/// The player's ship as it enters the world.
pub struct PlayerBundle {
    pub name: Name,
    pub outline: Outline,
    pub transform: Transform2d,
    pub physics: ShipPhysicsBundle,
}

/// Makes the player's ship: named, with its outline centred, drawn at the
/// player scale, at rest at the origin.
pub fn spawn_player() -> (player: PlayerBundle)
    ensures
        player.name.0@ == "Player"@,
        player.outline == ship_outline().centered_of(),
        player.transform == (Transform2d {
            translation: Vec2 { x: 0, y: 0 },
            rotation: 0,
            scale: PLAYER_SCALE,
        }),
        player.physics == ShipPhysicsBundle::at_rest(),
        player.physics.wf(),
{
    let outline = Outline {
        nose: Vec2 { x: 0, y: 66_667 },
        bottom_left: Vec2 { x: -50_000, y: -33_333 },
        bottom_right: Vec2 { x: 50_000, y: -33_333 },
    };
    PlayerBundle {
        name: Name::new("Player"),
        outline: outline.centered(),
        transform: Transform2d {
            translation: Vec2 { x: 0, y: 0 },
            rotation: 0,
            scale: PLAYER_SCALE,
        },
        physics: ShipPhysicsBundle::default(),
    }
}

} // verus!
