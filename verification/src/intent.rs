//! What the core asks of the physics and render side, and the plain values
//! those requests are made of.

use crate::fruits::Fruit;
use vstd::prelude::*;

verus! {

/// The name by which the simulation knows one body.
pub type EntityHandle = u64;

/// A point of the playfield, in whole length units.
#[derive(Clone, Copy, Debug, PartialEq, Eq, Structural)]
pub struct Position {
    pub x: i32,
    pub y: i32,
}

/// One request to the physics and render side. The core only decides; the
/// caller carries each request out, in the order in which it was issued.
#[derive(Clone, Copy, Debug, PartialEq, Eq, Structural)]
pub enum Intent {
    /// Create the steerable fruit: a body of `tier` at `position` that
    /// gravity and collisions leave alone until it is released.
    SpawnControllable { tier: Fruit, position: Position },
    /// Create a freely simulated fruit of `tier` where the body `anchor`
    /// stands. The body is dynamic, falls, reports its collisions, is
    /// checked for tunnelling and has the fixed mass of every fruit.
    SpawnPromoted { tier: Fruit, anchor: EntityHandle },
    /// Remove the body `entity`.
    Despawn { entity: EntityHandle },
    /// Put the steerable fruit `entity` at `position`.
    SetPosition { entity: EntityHandle, position: Position },
    /// Turn the steerable fruit `entity`, of `tier` and standing at
    /// `position`, into a freely simulated body.
    Release { entity: EntityHandle, tier: Fruit, position: Position },
}

} // verus!
