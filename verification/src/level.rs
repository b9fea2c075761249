//! The part of the world that one tick of the actors reads and writes.
//!
//! The engine owns the scene and the physics. Before a tick it hands over
//! what the actors need to see of them, and after the tick it takes back what
//! they changed: the velocities of bodies and the queued messages.

use vstd::prelude::*;
use crate::handle::BodyHandle;
use crate::handle::ColliderHandle;
use crate::handle::ItemHandle;
use crate::message::Message;
use crate::scalar::Scalar;
use crate::scalar::Vector3;

verus! {

/// A rigid body: where it is, how fast it moves, and the colliders attached
/// to it, the first of which is the capsule of an actor's body.
pub struct RigidBody {
    pub handle: BodyHandle,
    pub position: Vector3,
    pub linvel: Vector3,
    pub colliders: Vec<ColliderHandle>,
}

/// The rigid bodies of the scene. A handle is looked up from the front, so of
/// two bodies with one handle only the first is ever found.
pub struct Physics {
    pub bodies: Vec<RigidBody>,
}

/// What the physics reports of two colliders.
#[derive(Clone, Copy, Debug, PartialEq, Eq, Structural)]
pub enum ContactEvent {
    /// The two colliders began to touch.
    Started(ColliderHandle, ColliderHandle),
    /// The two colliders touch no longer.
    Stopped(ColliderHandle, ColliderHandle),
}

/// An item lying in the world.
pub struct Item {
    pub handle: ItemHandle,
    pub position: Vector3,
    pub picked_up: bool,
}

impl Item {
    pub fn is_picked_up(&self) -> (b: bool)
        ensures
            b == self.picked_up,
    {
        self.picked_up
    }
}

/// A pad that launches the actors that touch it.
pub struct JumpPad {
    pub body: BodyHandle,
    pub force: Vector3,
}

impl JumpPad {
    pub fn rigid_body(&self) -> (b: BodyHandle)
        ensures
            b == self.body,
    {
        self.body
    }

    pub fn get_force(&self) -> (f: Vector3)
        ensures
            f == self.force,
    {
        self.force
    }
}

/// Distances from the body of one actor, as the engine measured them at the
/// start of the tick.
pub struct Ranges {
    /// To the body of the actor in each pool slot, by slot index.
    pub to_actors: Vec<Scalar>,
    /// To the pivot of each item, by position in `UpdateContext::items`.
    pub to_items: Vec<Scalar>,
}

pub struct UpdateContext {
    pub physics: Physics,
    pub items: Vec<Item>,
    pub jump_pads: Vec<JumpPad>,
    /// For the actor in each pool slot, by slot index.
    pub ranges: Vec<Ranges>,
    /// Messages queued during the tick, oldest first.
    pub messages: Vec<Message>,
}

impl UpdateContext {
    /// The distances measured from the actor in slot `slot` to the actors;
    /// none where the slot has no entry.
    pub open spec fn ranges_to_actors(&self, slot: int) -> Seq<Scalar> {
        if 0 <= slot < self.ranges@.len() {
            self.ranges@[slot].to_actors@
        } else {
            Seq::empty()
        }
    }

    /// The distances measured from the actor in slot `slot` to the items;
    /// none where the slot has no entry.
    pub open spec fn ranges_to_items(&self, slot: int) -> Seq<Scalar> {
        if 0 <= slot < self.ranges@.len() {
            self.ranges@[slot].to_items@
        } else {
            Seq::empty()
        }
    }
}

impl Physics {
    /// True when `i` is the position of the first body named `handle`.
    pub open spec fn is_index_of(&self, handle: BodyHandle, i: int) -> bool {
        &&& 0 <= i < self.bodies@.len()
        &&& self.bodies@[i].handle == handle
        &&& forall|j: int| 0 <= j < i ==> (#[trigger] self.bodies@[j]).handle != handle
    }

    /// True when some body is named `handle`.
    pub open spec fn has_body(&self, handle: BodyHandle) -> bool {
        exists|i: int| 0 <= i < self.bodies@.len() && (#[trigger] self.bodies@[i]).handle == handle
    }

    /// The body that a lookup of `handle` finds.
    pub open spec fn body(&self, handle: BodyHandle) -> RigidBody {
        self.bodies@[choose|i: int| self.is_index_of(handle, i)]
    }

    /// Position of the first body named `handle`.
    pub fn find_body(&self, handle: BodyHandle) -> (r: Option<usize>)
        ensures
            match r {
                Some(i) => self.is_index_of(handle, i as int) && self.has_body(handle)
                    && self.body(handle) == self.bodies@[i as int],
                None => !self.has_body(handle),
            },
    {
        let mut i: usize = 0;
        while i < self.bodies.len()
            invariant
                i <= self.bodies@.len(),
                forall|j: int| 0 <= j < i ==> (#[trigger] self.bodies@[j]).handle != handle,
            decreases self.bodies@.len() - i,
        {
            if self.bodies[i].handle == handle {
                proof {
                    self.lemma_index_is_unique(handle, i as int);
                }
                return Some(i);
            }
            i += 1;
        }
        None
    }

    /// True when `i` is the position of the first body that `collider` is
    /// attached to.
    pub open spec fn is_owner_index(&self, collider: ColliderHandle, i: int) -> bool {
        &&& 0 <= i < self.bodies@.len()
        &&& self.bodies@[i].colliders@.contains(collider)
        &&& forall|j: int| 0 <= j < i ==> !(#[trigger] self.bodies@[j]).colliders@.contains(collider)
    }

    /// The body that `collider` is attached to, if it is attached to one.
    pub open spec fn owner(&self, collider: ColliderHandle) -> Option<BodyHandle> {
        if exists|i: int| self.is_owner_index(collider, i) {
            Some(self.bodies@[choose|i: int| self.is_owner_index(collider, i)].handle)
        } else {
            None
        }
    }

    /// The body that `collider` is attached to.
    pub fn collider_parent(&self, collider: ColliderHandle) -> (r: Option<BodyHandle>)
        ensures
            r == self.owner(collider),
    {
        let mut i: usize = 0;
        while i < self.bodies.len()
            invariant
                i <= self.bodies@.len(),
                forall|j: int| 0 <= j < i ==> !(#[trigger] self.bodies@[j]).colliders@.contains(collider),
            decreases self.bodies@.len() - i,
        {
            let body = &self.bodies[i];
            let mut k: usize = 0;
            while k < body.colliders.len()
                invariant
                    k <= body.colliders@.len(),
                    i < self.bodies@.len(),
                    body == self.bodies@[i as int],
                    forall|j: int| 0 <= j < i ==> !(#[trigger] self.bodies@[j]).colliders@.contains(collider),
                    forall|l: int| 0 <= l < k ==> body.colliders@[l] != collider,
                decreases body.colliders@.len() - k,
            {
                if body.colliders[k] == collider {
                    proof {
                        assert(body.colliders@[k as int] == collider);
                        assert(self.is_owner_index(collider, i as int));
                        assert forall|j: int| self.is_owner_index(collider, j) implies j == i by {
                            if j < i {
                                assert(!self.bodies@[j].colliders@.contains(collider));
                            } else if i < j {
                                assert(self.bodies@[i as int].colliders@.contains(collider));
                            }
                        }
                    }
                    return Some(body.handle);
                }
                k += 1;
            }
            i += 1;
        }
        proof {
            assert forall|j: int| !self.is_owner_index(collider, j) by {
                if self.is_owner_index(collider, j) {
                    assert(self.bodies@[j].colliders@.contains(collider));
                }
            }
        }
        None
    }

    /// The body at position `i`, moving at `linvel`.
    pub open spec fn moving(&self, i: int, linvel: Vector3) -> RigidBody {
        RigidBody {
            handle: self.bodies@[i].handle,
            position: self.bodies@[i].position,
            linvel,
            colliders: self.bodies@[i].colliders,
        }
    }

    /// Sets the velocity of the body at position `i`.
    pub fn set_linvel(&mut self, i: usize, linvel: Vector3)
        requires
            i < old(self).bodies@.len(),
        ensures
            final(self).bodies@ == old(self).bodies@.update(i as int, old(self).moving(i as int, linvel)),
    {
        let body = &mut self.bodies[i];
        body.linvel = linvel;
    }

    /// Takes the first body named `handle` out of the world, if there is one.
    pub fn remove_body(&mut self, handle: BodyHandle)
        ensures
            final(self).bodies@ == old(self).without(handle),
    {
        match self.find_body(handle) {
            Some(i) => {
                let _ = self.bodies.remove(i);
            },
            None => {
                assert forall|i: int| !old(self).is_index_of(handle, i) by {
                    if old(self).is_index_of(handle, i) {
                        assert(old(self).bodies@[i].handle == handle);
                    }
                }
            },
        }
    }

    /// The bodies that are left when the first body named `handle` is taken out.
    pub open spec fn without(&self, handle: BodyHandle) -> Seq<RigidBody> {
        if exists|i: int| self.is_index_of(handle, i) {
            self.bodies@.remove(choose|i: int| self.is_index_of(handle, i))
        } else {
            self.bodies@
        }
    }

    /// No two bodies have the same handle.
    pub open spec fn distinct(&self) -> bool {
        forall|i: int, j: int|
            0 <= i < j < self.bodies@.len() ==> (#[trigger] self.bodies@[i]).handle != (
            #[trigger] self.bodies@[j]).handle
    }

    /// Where no two bodies share a handle, a body that was taken out is gone:
    /// taking it out once more changes nothing.
    pub proof fn lemma_removal_is_idempotent(&self, handle: BodyHandle)
        requires
            self.distinct(),
        ensures
            !self.has_body(handle) ==> self.without(handle)
                == self.bodies@,
            forall|after: Physics|
                after.bodies@ == self.without(handle) ==> !after.has_body(handle)
                    && #[trigger] after.without(handle) == after.bodies@,
    {
        assert forall|after: Physics| after.bodies@ == self.without(handle) implies !after.has_body(
            handle,
        ) && #[trigger] after.without(handle) == after.bodies@ by {
            if exists|i: int| self.is_index_of(handle, i) {
                let i = choose|i: int| self.is_index_of(handle, i);
                assert forall|j: int| 0 <= j < after.bodies@.len() implies (
                #[trigger] after.bodies@[j]).handle != handle by {
                    if j < i {
                        assert(after.bodies@[j] == self.bodies@[j]);
                    } else {
                        assert(after.bodies@[j] == self.bodies@[j + 1]);
                    }
                }
            } else {
                assert forall|j: int| 0 <= j < after.bodies@.len() implies (
                #[trigger] after.bodies@[j]).handle != handle by {
                    if after.bodies@[j].handle == handle {
                        self.lemma_has_first(handle, j);
                    }
                }
            }
            assert forall|i: int| !after.is_index_of(handle, i) by {
                if after.is_index_of(handle, i) {
                    assert(after.bodies@[i].handle == handle);
                }
            }
        }
        if !self.has_body(handle) {
            assert forall|i: int| !self.is_index_of(handle, i) by {
                if self.is_index_of(handle, i) {
                    assert(self.bodies@[i].handle == handle);
                }
            }
        }
    }

    /// Where some body is named `handle`, one of them is the first.
    pub proof fn lemma_has_first(&self, handle: BodyHandle, j: int)
        requires
            0 <= j < self.bodies@.len(),
            self.bodies@[j].handle == handle,
        ensures
            exists|i: int| self.is_index_of(handle, i),
        decreases j,
    {
        if exists|k: int| 0 <= k < j && (#[trigger] self.bodies@[k]).handle == handle {
            let k = choose|k: int| 0 <= k < j && (#[trigger] self.bodies@[k]).handle == handle;
            self.lemma_has_first(handle, k);
        } else {
            assert(self.is_index_of(handle, j));
        }
    }

    /// At most one position is that of the first body named `handle`.
    pub proof fn lemma_index_is_unique(&self, handle: BodyHandle, i: int)
        requires
            self.is_index_of(handle, i),
        ensures
            self.has_body(handle),
            self.body(handle) == self.bodies@[i],
            forall|j: int| self.is_index_of(handle, j) ==> j == i,
    {
        let c = choose|j: int| self.is_index_of(handle, j);
        assert(self.is_index_of(handle, c));
        if c < i {
            assert(self.bodies@[c].handle != handle);
        } else if i < c {
            assert(self.bodies@[i].handle != handle);
        }
    }
}

} // verus!
