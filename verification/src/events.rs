//! What the simulation reports to its host.

use vstd::prelude::*;
use crate::fixed::Vec2;
use crate::asteroids::AsteroidSize;

verus! {

/// Something that happened during a frame, for sound or statistics.
#[derive(Clone, Copy, Debug, PartialEq, Eq, Structural)]
pub enum LifecycleEvent {
    /// A bullet destroyed an asteroid of the given class at the given place.
    AsteroidDestroyed { position: Vec2, size_class: AsteroidSize },
    /// The ship fired a bullet that appeared at the given place.
    BulletFired { position: Vec2 },
    /// The ship was put back at the origin.
    ShipReset,
}

} // verus!
