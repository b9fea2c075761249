//! Identifiers of the things the simulation refers to.
//!
//! A pool handle names a slot by its index and by the generation the slot had
//! when the handle was issued. The handle of generation zero and index zero
//! names nothing.

use vstd::prelude::*;

verus! {

/// Names an actor in the actor pool.
#[derive(Clone, Copy, Debug, PartialEq, Eq, Hash, Structural)]
pub struct ActorHandle {
    pub index: u32,
    pub generation: u32,
}

impl ActorHandle {
    /// The handle that names no actor.
    pub open spec fn spec_none() -> ActorHandle {
        ActorHandle { index: 0, generation: 0 }
    }

    pub fn new(index: u32, generation: u32) -> (h: ActorHandle)
        ensures
            h.index == index,
            h.generation == generation,
    {
        ActorHandle { index, generation }
    }

    #[verifier::when_used_as_spec(spec_none)]
    pub fn none() -> (h: ActorHandle)
        ensures
            h == ActorHandle::spec_none(),
    {
        ActorHandle { index: 0, generation: 0 }
    }

    pub fn is_none(self) -> (b: bool)
        ensures
            b == (self == ActorHandle::spec_none()),
    {
        self.index == 0 && self.generation == 0
    }

    pub fn is_some(self) -> (b: bool)
        ensures
            b == (self != ActorHandle::spec_none()),
    {
        !self.is_none()
    }
}

/// Names an item lying in the world.
#[derive(Clone, Copy, Debug, PartialEq, Eq, Hash, Structural)]
pub struct ItemHandle {
    pub index: u32,
    pub generation: u32,
}

/// Names a rigid body of the physics world.
#[derive(Clone, Copy, Debug, PartialEq, Eq, Hash, Structural)]
pub struct BodyHandle {
    pub id: u128,
}

/// Names a collider of the physics world, as contact events do.
#[derive(Clone, Copy, Debug, PartialEq, Eq, Hash, Structural)]
pub struct ColliderHandle {
    pub index: u32,
    pub generation: u32,
}

} // verus!
