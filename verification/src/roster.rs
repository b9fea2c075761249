//! The actors of a pool in the order of their slots.

use vstd::prelude::*;
use crate::handle::ActorHandle;
use crate::pool::live_pairs;
use crate::pool::Record;

verus! {

/// The handle of the actor in slot `i`.
pub open spec fn handle_at(slots: Seq<Record>, i: int) -> ActorHandle {
    ActorHandle { index: i as u32, generation: slots[i].generation }
}

/// The actors in the first `i` slots come first among all actors.
pub proof fn lemma_live_pairs_prefix(slots: Seq<Record>, i: int)
    requires
        0 <= i <= slots.len(),
    ensures
        live_pairs(slots.take(i)).len() <= live_pairs(slots).len(),
        live_pairs(slots.take(i)) == live_pairs(slots).take(live_pairs(slots.take(i)).len() as int),
    decreases slots.len(),
{
    if i == slots.len() {
        assert(slots.take(i) =~= slots);
        assert(live_pairs(slots).take(live_pairs(slots).len() as int) =~= live_pairs(slots));
    } else {
        assert(slots.drop_last().take(i) =~= slots.take(i));
        lemma_live_pairs_prefix(slots.drop_last(), i);
        let short = live_pairs(slots.drop_last());
        let n = live_pairs(slots.take(i)).len() as int;
        assert(live_pairs(slots).take(n) =~= short.take(n));
    }
}

/// The actor in slot `i` has its entry among the actors, after the entries
/// of the actors in the slots before it.
pub proof fn lemma_pair_of_slot(slots: Seq<Record>, i: int)
    requires
        0 <= i < slots.len(),
        slots[i].payload is Some,
    ensures
        live_pairs(slots.take(i)).len() < live_pairs(slots).len(),
        live_pairs(slots)[live_pairs(slots.take(i)).len() as int] == (
            handle_at(slots, i),
            slots[i].payload->0,
        ),
{
    lemma_live_pairs_prefix(slots, i + 1);
    let upto = slots.take(i + 1);
    assert(upto.drop_last() =~= slots.take(i));
    assert(upto.last() == slots[i]);
    let n = live_pairs(slots.take(i)).len() as int;
    assert(live_pairs(upto)[n] == live_pairs(slots).take(n + 1)[n]);
}

/// Every entry among the actors is that of the actor in some slot.
pub proof fn lemma_slot_of_pair(slots: Seq<Record>, k: int)
    requires
        0 <= k < live_pairs(slots).len(),
    ensures
        exists|i: int|
            0 <= i < slots.len() && (#[trigger] slots[i]).payload is Some && live_pairs(
                slots.take(i),
            ).len() == k && live_pairs(slots)[k] == (handle_at(slots, i), slots[i].payload->0),
    decreases slots.len(),
{
    let short = slots.drop_last();
    let i = slots.len() - 1;
    if k < live_pairs(short).len() {
        lemma_slot_of_pair(short, k);
        let j = choose|j: int|
            0 <= j < short.len() && (#[trigger] short[j]).payload is Some && live_pairs(
                short.take(j),
            ).len() == k && live_pairs(short)[k] == (handle_at(short, j), short[j].payload->0);
        assert(short.take(j) =~= slots.take(j));
        assert(slots[j] == short[j]);
    } else {
        assert(short =~= slots.take(i));
        assert(slots[i].payload is Some);
    }
}

/// There are no more actors than slots.
pub proof fn lemma_count_is_bounded(slots: Seq<Record>)
    ensures
        live_pairs(slots).len() <= slots.len(),
    decreases slots.len(),
{
    if slots.len() > 0 {
        lemma_count_is_bounded(slots.drop_last());
    }
}

/// Filling an empty slot, or appending a filled one, adds one actor.
pub proof fn lemma_count_after_fill(before: Seq<Record>, after: Seq<Record>, i: int)
    requires
        0 <= i <= before.len(),
        i < before.len() ==> before[i].payload is None && after.len() == before.len(),
        i == before.len() ==> after.len() == before.len() + 1,
        after[i].payload is Some,
        forall|j: int| 0 <= j < before.len() && j != i ==> #[trigger] after[j] == before[j],
    ensures
        live_pairs(after).len() == live_pairs(before).len() + 1,
    decreases after.len(),
{
    if i == after.len() - 1 {
        if i < before.len() {
            lemma_count_of_equal_payloads(before.drop_last(), after.drop_last());
        } else {
            assert(after.drop_last() =~= before);
        }
    } else {
        assert(after.last() == before.last());
        lemma_count_after_fill(before.drop_last(), after.drop_last(), i);
    }
}

/// The number of actors depends only on which slots are filled.
pub proof fn lemma_count_of_equal_payloads(before: Seq<Record>, after: Seq<Record>)
    requires
        after.len() == before.len(),
        forall|j: int|
            0 <= j < before.len() ==> ((#[trigger] after[j]).payload is Some
                <==> before[j].payload is Some),
    ensures
        live_pairs(after).len() == live_pairs(before).len(),
    decreases after.len(),
{
    if after.len() > 0 {
        assert(after.last().payload is Some <==> before.last().payload is Some);
        lemma_count_of_equal_payloads(before.drop_last(), after.drop_last());
    }
}

} // verus!
