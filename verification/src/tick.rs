//! What one tick of the actors amounts to.
//!
//! The container's update is stated here as functions of what it is given:
//! the targets that are taken, the actors after their tick, and the messages
//! that are queued.

use vstd::prelude::*;
use crate::actor::Actor;
use crate::actor::TargetDescriptor;
use crate::bot::measured;
use crate::bot::range_to;
use crate::handle::ActorHandle;
use crate::level::Item;
use crate::level::Physics;
use crate::level::UpdateContext;
use crate::message::Message;
use crate::pool::is_valid;
use crate::pool::live_pairs;
use crate::pool::Record;
use crate::roster::handle_at;
use crate::roster::lemma_pair_of_slot;
use crate::roster::lemma_slot_of_pair;
use crate::scalar::Scalar;
use crate::scalar::ONE_AND_A_QUARTER;

verus! {

/// The actor is a bot whose target is the actor named `handle`.
pub open spec fn aims_at(actor: Actor, handle: ActorHandle) -> bool {
    actor matches Actor::Bot(bot) && bot.target is Some && bot.target->0.handle == handle
}

/// An item is taken from closer than this.
pub open spec fn pickup_radius() -> Scalar {
    Scalar { bits: ONE_AND_A_QUARTER }
}

/// The targets that the actors in `slots` make: one for each actor, in the
/// order of the slots, with the actor's health and the place of its body.
pub open spec fn snapshot(slots: Seq<Record>, physics: Physics) -> Seq<TargetDescriptor> {
    Seq::new(
        live_pairs(slots).len(),
        |k: int|
            TargetDescriptor {
                handle: live_pairs(slots)[k].0,
                health: live_pairs(slots)[k].1.base().health,
                position: physics.body(live_pairs(slots)[k].1.base().body).position,
            },
    )
}

/// The slots after a tick in which the actors saw `targets`, the actor in
/// slot `i` at the distances `ranges[i].to_actors`.
pub open spec fn ticked(
    slots: Seq<Record>,
    targets: Seq<TargetDescriptor>,
    context: UpdateContext,
) -> Seq<Record> {
    Seq::new(
        slots.len(),
        |i: int|
            Record {
                generation: slots[i].generation,
                payload: match slots[i].payload {
                    Some(actor) => Some(
                        actor.after_tick(handle_at(slots, i), targets, context.ranges_to_actors(i)),
                    ),
                    None => None,
                },
            },
    )
}

/// The requests to pick up the first `n` items, for an actor at the
/// distances `ranges` from them: one for each item that was not picked up
/// yet and lies closer than the pickup radius, in the order of the items.
pub open spec fn pickups(me: ActorHandle, items: Seq<Item>, ranges: Seq<Scalar>, n: int) -> Seq<
    Message,
>
    decreases n,
{
    if n <= 0 {
        Seq::empty()
    } else {
        let before = pickups(me, items, ranges, n - 1);
        if measured(ranges, n - 1).less(pickup_radius()) && !items[n - 1].picked_up {
            before.push(Message::PickUpItem { actor: me, item: items[n - 1].handle })
        } else {
            before
        }
    }
}

/// What one actor asks for in a tick: every item in reach, unless the actor
/// was dead when the tick began, and then a new life if the actor may be
/// removed now that the tick is over.
pub open spec fn requests(
    before: Actor,
    after: Actor,
    me: ActorHandle,
    items: Seq<Item>,
    ranges: Seq<Scalar>,
) -> Seq<Message> {
    let picked = if before.base().dead() {
        Seq::empty()
    } else {
        pickups(me, items, ranges, items.len() as int)
    };
    if after.removable() {
        picked.push(Message::RespawnActor { actor: me })
    } else {
        picked
    }
}

/// What the actors in the first `n` slots ask for in a tick, slot by slot.
pub open spec fn tick_messages(
    slots: Seq<Record>,
    targets: Seq<TargetDescriptor>,
    context: UpdateContext,
    n: int,
) -> Seq<Message>
    decreases n,
{
    if n <= 0 {
        Seq::empty()
    } else {
        let before = tick_messages(slots, targets, context, n - 1);
        match slots[n - 1].payload {
            Some(actor) => before + requests(
                actor,
                actor.after_tick(
                    handle_at(slots, n - 1),
                    targets,
                    context.ranges_to_actors(n - 1),
                ),
                handle_at(slots, n - 1),
                context.items@,
                context.ranges_to_items(n - 1),
            ),
            None => before,
        }
    }
}

/// Whether an item at this distance is in reach: the distance is a number
/// below the pickup radius.
pub fn within_pickup_radius(distance: Scalar) -> (b: bool)
    ensures
        b == distance.less(pickup_radius()),
{
    distance.lt(Scalar::from_bits(ONE_AND_A_QUARTER))
}

/// Queues the requests of the actor `me` to pick up the items in its reach.
pub fn queue_pickups(
    me: ActorHandle,
    items: &Vec<Item>,
    ranges: &Vec<Scalar>,
    messages: &mut Vec<Message>,
)
    ensures
        final(messages)@ == old(messages)@ + pickups(me, items@, ranges@, items@.len() as int),
{
    let mut k: usize = 0;
    while k < items.len()
        invariant
            k <= items@.len(),
            messages@ == old(messages)@ + pickups(me, items@, ranges@, k as int),
        decreases items@.len() - k,
    {
        let distance = range_to(ranges, k);
        if within_pickup_radius(distance) && !items[k].is_picked_up() {
            messages.push(Message::PickUpItem { actor: me, item: items[k].handle });
            assert(messages@ =~= old(messages)@ + pickups(me, items@, ranges@, k as int + 1));
        }
        k += 1;
    }
}

/// The targets of a tick are the actors, one for one: every target names an
/// actor, every actor is named by a target, and no two targets name the same
/// actor.
pub proof fn lemma_one_target_per_actor(slots: Seq<Record>, physics: Physics)
    requires
        slots.len() <= u32::MAX,
    ensures
        snapshot(slots, physics).len() == live_pairs(slots).len(),
        forall|k: int|
            0 <= k < snapshot(slots, physics).len() ==> is_valid(
                slots,
                (#[trigger] snapshot(slots, physics)[k]).handle,
            ),
        forall|handle: ActorHandle| #[trigger]
            is_valid(slots, handle) ==> exists|k: int|
                0 <= k < snapshot(slots, physics).len() && (#[trigger] snapshot(
                    slots,
                    physics,
                )[k]).handle == handle,
        forall|k: int, l: int|
            0 <= k < l < snapshot(slots, physics).len() ==> (#[trigger] snapshot(
                slots,
                physics,
            )[k]).handle != (#[trigger] snapshot(slots, physics)[l]).handle,
{
    let targets = snapshot(slots, physics);
    assert forall|k: int| 0 <= k < targets.len() implies is_valid(
        slots,
        (#[trigger] targets[k]).handle,
    ) by {
        lemma_slot_of_pair(slots, k);
    }
    assert forall|handle: ActorHandle| #[trigger] is_valid(slots, handle) implies exists|k: int|
        0 <= k < targets.len() && (#[trigger] targets[k]).handle == handle by {
        lemma_pair_of_slot(slots, handle.index as int);
        let k = live_pairs(slots.take(handle.index as int)).len() as int;
        assert(targets[k].handle == handle);
    }
    assert forall|k: int, l: int| 0 <= k < l < targets.len() implies (#[trigger] targets[k]).handle
        != (#[trigger] targets[l]).handle by {
        lemma_slot_of_pair(slots, k);
        lemma_slot_of_pair(slots, l);
    }
}

} // verus!
