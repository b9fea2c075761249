//! Collision groups of the physics world.

use vstd::prelude::*;

verus! {

/// The groups that a collider can belong to and collide with.
#[derive(Clone, Copy, Debug, PartialEq, Eq, Structural)]
pub enum CollisionGroups {
    Generic,
    Projectile,
    Actor,
    All,
}

impl CollisionGroups {
    /// The bits that stand for the group in a collision mask.
    pub open spec fn bits(self) -> isize {
        match self {
            CollisionGroups::Generic => 1,
            CollisionGroups::Projectile => 2,
            CollisionGroups::Actor => 4,
            CollisionGroups::All => isize::MAX,
        }
    }

    #[verifier::when_used_as_spec(bits)]
    pub fn mask(self) -> (m: isize)
        ensures
            m == self.bits(),
    {
        match self {
            CollisionGroups::Generic => 1,
            CollisionGroups::Projectile => 2,
            CollisionGroups::Actor => 4,
            CollisionGroups::All => isize::MAX,
        }
    }
}

} // verus!
