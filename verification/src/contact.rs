//! What a contact with a jump pad does to a body.

use vstd::prelude::*;
use crate::handle::BodyHandle;
use crate::handle::ColliderHandle;
use crate::level::JumpPad;
use crate::level::Physics;
use crate::level::RigidBody;
use crate::pool::Record;
use crate::scalar::Vector3;

verus! {

/// The pad launches the body whose capsule is `capsule` when the colliders
/// `a` and `b`, attached to the bodies `owner_a` and `owner_b`, begin to
/// touch: one of the two is the capsule and the other belongs to the pad.
pub open spec fn pad_launches(
    pad: JumpPad,
    capsule: ColliderHandle,
    a: ColliderHandle,
    b: ColliderHandle,
    owner_a: BodyHandle,
    owner_b: BodyHandle,
) -> bool {
    (capsule == a && owner_b == pad.body) || (capsule == b && owner_a == pad.body)
}

/// The velocity of a body after the contact: the force of the last pad that
/// launches it, or `resting`, the velocity it had, where no pad does.
pub open spec fn launch(
    pads: Seq<JumpPad>,
    capsule: ColliderHandle,
    a: ColliderHandle,
    b: ColliderHandle,
    owner_a: BodyHandle,
    owner_b: BodyHandle,
    resting: Vector3,
) -> Vector3
    decreases pads.len(),
{
    if pads.len() == 0 {
        resting
    } else if pad_launches(pads.last(), capsule, a, b, owner_a, owner_b) {
        pads.last().force
    } else {
        launch(pads.drop_last(), capsule, a, b, owner_a, owner_b, resting)
    }
}

/// The body at position `n` is that of an actor in one of the first `upto`
/// slots.
pub open spec fn carries(slots: Seq<Record>, physics: Physics, n: int, upto: int) -> bool {
    exists|i: int|
        0 <= i < upto && i < slots.len() && (#[trigger] slots[i]).payload is Some
            && physics.is_index_of(slots[i].payload->0.base().body, n)
}

/// The bodies after the colliders `a` and `b` began to touch: the body of
/// each actor is launched by the pads, every other body moves as before.
pub open spec fn after_contact(
    slots: Seq<Record>,
    physics: Physics,
    pads: Seq<JumpPad>,
    a: ColliderHandle,
    b: ColliderHandle,
) -> Seq<RigidBody> {
    Seq::new(
        physics.bodies@.len(),
        |n: int|
            if carries(slots, physics, n, slots.len() as int) {
                physics.moving(
                    n,
                    launch(
                        pads,
                        physics.bodies@[n].colliders@[0],
                        a,
                        b,
                        physics.owner(a)->0,
                        physics.owner(b)->0,
                        physics.bodies@[n].linvel,
                    ),
                )
            } else {
                physics.bodies@[n]
            },
    )
}

/// A body that the pads have launched is not moved by launching it again.
pub proof fn lemma_launch_is_idempotent(
    pads: Seq<JumpPad>,
    capsule: ColliderHandle,
    a: ColliderHandle,
    b: ColliderHandle,
    owner_a: BodyHandle,
    owner_b: BodyHandle,
    resting: Vector3,
)
    ensures
        launch(
            pads,
            capsule,
            a,
            b,
            owner_a,
            owner_b,
            launch(pads, capsule, a, b, owner_a, owner_b, resting),
        ) == launch(pads, capsule, a, b, owner_a, owner_b, resting),
{
    let once = launch(pads, capsule, a, b, owner_a, owner_b, resting);
    lemma_launch_ignores_rest(pads, capsule, a, b, owner_a, owner_b, resting, once);
}

/// Either a pad launches the body, and then the velocity that the body had
/// does not matter, or none does, and then the body keeps it.
pub proof fn lemma_launch_ignores_rest(
    pads: Seq<JumpPad>,
    capsule: ColliderHandle,
    a: ColliderHandle,
    b: ColliderHandle,
    owner_a: BodyHandle,
    owner_b: BodyHandle,
    one: Vector3,
    other: Vector3,
)
    ensures
        launch(pads, capsule, a, b, owner_a, owner_b, one) == launch(
            pads,
            capsule,
            a,
            b,
            owner_a,
            owner_b,
            other,
        ) || (launch(pads, capsule, a, b, owner_a, owner_b, one) == one && launch(
            pads,
            capsule,
            a,
            b,
            owner_a,
            owner_b,
            other,
        ) == other),
    decreases pads.len(),
{
    if pads.len() > 0 && !pad_launches(pads.last(), capsule, a, b, owner_a, owner_b) {
        lemma_launch_ignores_rest(pads.drop_last(), capsule, a, b, owner_a, owner_b, one, other);
    }
}

/// Gives the body at position `n` the velocity with which the pads launch it.
pub fn launch_body(
    physics: &mut Physics,
    n: usize,
    pads: &Vec<JumpPad>,
    a: ColliderHandle,
    b: ColliderHandle,
    owner_a: BodyHandle,
    owner_b: BodyHandle,
)
    requires
        n < old(physics).bodies@.len(),
        old(physics).bodies@[n as int].colliders@.len() > 0,
    ensures
        final(physics).bodies@ == old(physics).bodies@.update(
            n as int,
            old(physics).moving(
                n as int,
                launch(
                    pads@,
                    old(physics).bodies@[n as int].colliders@[0],
                    a,
                    b,
                    owner_a,
                    owner_b,
                    old(physics).bodies@[n as int].linvel,
                ),
            ),
        ),
{
    let capsule = physics.bodies[n].colliders[0];
    let mut linvel = physics.bodies[n].linvel;
    let mut k: usize = 0;
    while k < pads.len()
        invariant
            k <= pads@.len(),
            linvel == launch(
                pads@.take(k as int),
                capsule,
                a,
                b,
                owner_a,
                owner_b,
                old(physics).bodies@[n as int].linvel,
            ),
        decreases pads@.len() - k,
    {
        let pad = &pads[k];
        proof {
            assert(pads@.take(k as int + 1).drop_last() =~= pads@.take(k as int));
        }
        if (capsule == a && owner_b == pad.rigid_body()) || (capsule == b && owner_a
            == pad.rigid_body()) {
            linvel = pad.get_force();
        }
        k += 1;
    }
    proof {
        assert(pads@.take(pads@.len() as int) =~= pads@);
    }
    physics.set_linvel(n, linvel);
}

} // verus!
