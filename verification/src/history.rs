//! The life of a handle.
//!
//! A handle is issued when its actor is added, is valid until that actor is
//! removed, and is stale from then on. What is stated here holds of any
//! sequence of operations on a container.

use vstd::prelude::*;
use crate::actor::Actor;
use crate::handle::ActorHandle;
use crate::pool::is_valid;
use crate::pool::Record;

verus! {

/// The handle named an actor once and never will again: its slot has moved on
/// to a later generation, or has its generation and is empty.
pub open spec fn is_stale(slots: Seq<Record>, handle: ActorHandle) -> bool {
    &&& (handle.index as int) < slots.len()
    &&& (slots[handle.index as int].generation > handle.generation || (
    slots[handle.index as int].generation == handle.generation
        && slots[handle.index as int].payload is None))
}

/// `after` is `before` with `actor` added under `handle`: either an empty
/// slot took the actor and moved on by one generation, or a slot of
/// generation 1 was appended. No other slot changed.
pub open spec fn added(
    before: Seq<Record>,
    after: Seq<Record>,
    actor: Actor,
    handle: ActorHandle,
) -> bool {
    let slot = Record { generation: handle.generation, payload: Some(actor) };
    if (handle.index as int) < before.len() {
        &&& before[handle.index as int].payload is None
        &&& handle.generation == before[handle.index as int].generation + 1
        &&& after == before.update(handle.index as int, slot)
    } else {
        &&& handle.index == before.len()
        &&& handle.generation == 1
        &&& after == before.push(slot)
    }
}

/// The slots once every bot has been told that the actor `removed` is gone.
pub open spec fn notified(slots: Seq<Record>, removed: ActorHandle) -> Seq<Record> {
    Seq::new(
        slots.len(),
        |i: int|
            Record {
                generation: slots[i].generation,
                payload: match slots[i].payload {
                    Some(actor) => Some(actor.forgetting(removed)),
                    None => None,
                },
            },
    )
}

/// `after` is `before` with the actor under `handle` removed: the bots were
/// told, and the slot is empty. No generation changed.
pub open spec fn freed(before: Seq<Record>, after: Seq<Record>, handle: ActorHandle) -> bool {
    &&& is_valid(before, handle)
    &&& after == notified(before, handle).update(
        handle.index as int,
        Record { generation: handle.generation, payload: None },
    )
}

/// `after` is `before` with actors changed in place: no slot was added,
/// emptied, filled or moved on.
pub open spec fn touched(before: Seq<Record>, after: Seq<Record>) -> bool {
    &&& after.len() == before.len()
    &&& forall|i: int|
        0 <= i < before.len() ==> (#[trigger] after[i]).generation == before[i].generation
            && (after[i].payload is Some <==> before[i].payload is Some)
}

/// `after` follows from `before` by one operation of a container: an actor
/// was added, an actor was removed, or actors were changed in place.
pub open spec fn is_step(before: Seq<Record>, after: Seq<Record>) -> bool {
    ||| exists|actor: Actor, handle: ActorHandle| added(before, after, actor, handle)
    ||| exists|handle: ActorHandle| freed(before, after, handle)
    ||| touched(before, after)
}

/// Each state follows from the one before it by one operation.
pub open spec fn is_history(states: Seq<Seq<Record>>) -> bool {
    forall|t: int|
        #![trigger states[t]]
        0 <= t < states.len() - 1 ==> is_step(states[t], states[t + 1])
}

/// A handle that `add` returns is valid at once, and where it reuses a slot
/// its generation is above every generation that the slot had before.
pub proof fn lemma_added_handle_is_fresh(
    before: Seq<Record>,
    after: Seq<Record>,
    actor: Actor,
    handle: ActorHandle,
)
    requires
        added(before, after, actor, handle),
    ensures
        is_valid(after, handle),
        !is_valid(before, handle),
        !is_stale(before, handle),
        (handle.index as int) < before.len() ==> handle.generation > before[handle.index as int].generation,
{
}

/// Removing an actor makes its handle stale at once.
pub proof fn lemma_freed_handle_is_stale(before: Seq<Record>, after: Seq<Record>, handle: ActorHandle)
    requires
        freed(before, after, handle),
    ensures
        is_stale(after, handle),
        !is_valid(after, handle),
{
}

/// One operation keeps every valid handle valid, but for the handle that it
/// removes, and keeps every stale handle stale.
pub proof fn lemma_step_keeps_handles(before: Seq<Record>, after: Seq<Record>, handle: ActorHandle)
    requires
        is_step(before, after),
    ensures
        is_valid(before, handle) && !freed(before, after, handle) ==> is_valid(after, handle),
        is_stale(before, handle) ==> is_stale(after, handle),
{
    if exists|actor: Actor, other: ActorHandle| added(before, after, actor, other) {
        let (actor, other) = choose|actor: Actor, other: ActorHandle|
            added(before, after, actor, other);
        assert(added(before, after, actor, other));
    } else if exists|other: ActorHandle| freed(before, after, other) {
        let other = choose|other: ActorHandle| freed(before, after, other);
        assert(freed(before, after, other));
        if is_valid(before, handle) && other.index == handle.index {
            assert(other == handle);
        }
    } else {
        assert(touched(before, after));
        if (handle.index as int) < before.len() {
            assert(after[handle.index as int].generation == before[handle.index as int].generation);
        }
    }
}

/// Whatever is done to a container, a valid handle stays valid until the
/// operation that removes its actor.
pub proof fn lemma_valid_until_freed(
    states: Seq<Seq<Record>>,
    handle: ActorHandle,
    from: int,
    to: int,
)
    requires
        is_history(states),
        0 <= from <= to < states.len(),
        is_valid(states[from], handle),
        forall|t: int| #![trigger states[t]] from <= t < to ==> !freed(states[t], states[t + 1], handle),
    ensures
        is_valid(states[to], handle),
    decreases to - from,
{
    if from < to {
        lemma_valid_until_freed(states, handle, from, to - 1);
        assert(is_step(states[to - 1], states[to - 1 + 1]));
        assert(!freed(states[to - 1], states[to - 1 + 1], handle));
        lemma_step_keeps_handles(states[to - 1], states[to], handle);
    }
}

/// Whatever is done to a container, a handle that is stale stays stale, and
/// so names no actor ever again.
pub proof fn lemma_stale_forever(states: Seq<Seq<Record>>, handle: ActorHandle, from: int, to: int)
    requires
        is_history(states),
        0 <= from <= to < states.len(),
        is_stale(states[from], handle),
    ensures
        is_stale(states[to], handle),
        !is_valid(states[to], handle),
    decreases to - from,
{
    if from < to {
        lemma_stale_forever(states, handle, from, to - 1);
        assert(is_step(states[to - 1], states[to - 1 + 1]));
        lemma_step_keeps_handles(states[to - 1], states[to], handle);
    }
}

} // verus!
