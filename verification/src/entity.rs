//! What every simulated entity shares: identifiers, render transforms and
//! colours.

use vstd::prelude::*;
use crate::fixed::{Vec2, MICRO};

verus! {

/// Hands out entity identifiers in increasing order.
#[derive(Clone, Copy, Debug, PartialEq, Eq, Structural)]
pub struct IdAllocator {
    pub next: u64,
}

impl IdAllocator {
    /// An allocator that has handed out nothing yet.
    pub fn new() -> (ids: IdAllocator)
        ensures
            ids.next == 0,
    {
        IdAllocator { next: 0 }
    }

    /// The identifier `k` allocations from now.
    pub open spec fn upcoming(self, k: int) -> u64 {
        if self.next + k > u64::MAX {
            u64::MAX
        } else {
            (self.next + k) as u64
        }
    }

    /// Takes the next identifier. Identifiers are distinct until the
    /// counter reaches its maximum, where it stays.
    pub fn allocate(&mut self) -> (id: u64)
        ensures
            id == old(self).next,
            final(self).next == old(self).upcoming(1),
    {
        let id: u64 = self.next;
        if self.next < u64::MAX {
            self.next = self.next + 1;
        }
        id
    }
}

/// Allocating once more after `k` allocations yields the identifier
/// that lies `k + 1` allocations ahead of the start.
pub proof fn lemma_upcoming_step(ids: IdAllocator, k: int)
    requires
        k >= 0,
    ensures
        (IdAllocator { next: ids.upcoming(k) }).upcoming(1) == ids.upcoming(k + 1),
        ids.upcoming(0) == ids.next,
{
}

/// Where and how an entity is drawn: position in thousandths of a pixel,
/// rotation in microradians, scale in millionths.
#[derive(Clone, Copy, Debug, PartialEq, Eq, Structural)]
pub struct Transform2d {
    pub translation: Vec2,
    pub rotation: i64,
    pub scale: i64,
}

impl Transform2d {
    /// At the origin, unrotated, at full scale.
    pub fn identity() -> (transform: Transform2d)
        ensures
            transform == (Transform2d {
                translation: Vec2 { x: 0, y: 0 },
                rotation: 0,
                scale: MICRO,
            }),
    {
        Transform2d { translation: Vec2 { x: 0, y: 0 }, rotation: 0, scale: MICRO }
    }

    /// At `translation`, unrotated, at full scale.
    pub fn from_translation(translation: Vec2) -> (transform: Transform2d)
        ensures
            transform == (Transform2d { translation, rotation: 0, scale: MICRO }),
    {
        Transform2d { translation, rotation: 0, scale: MICRO }
    }
}

/// A colour with each channel in millionths of full intensity.
#[derive(Clone, Copy, Debug, PartialEq, Eq, Structural)]
pub struct Color {
    pub red: u32,
    pub green: u32,
    pub blue: u32,
    pub alpha: u32,
}

impl Color {
    /// No channel exceeds full intensity.
    pub open spec fn wf(self) -> bool {
        self.red <= MICRO && self.green <= MICRO && self.blue <= MICRO && self.alpha <= MICRO
    }

    /// An opaque colour from its three channels.
    pub fn srgb(red: u32, green: u32, blue: u32) -> (color: Color)
        ensures
            color == (Color { red, green, blue, alpha: 1_000_000 }),
    {
        Color { red, green, blue, alpha: 1_000_000 }
    }
}

/// The kinds of entity the simulation holds.
#[derive(Clone, Copy, Debug, PartialEq, Eq, Structural)]
pub enum EntityKind {
    Ship,
    Asteroid,
    Bullet,
    Particle,
}

/// One entity as the renderer needs it.
#[derive(Clone, Copy, Debug, PartialEq, Eq, Structural)]
pub struct RenderEntity {
    pub kind: EntityKind,
    pub id: u64,
    pub position: Vec2,
    pub rotation: i64,
    pub scale: i64,
    pub color: Color,
}

} // verus!
