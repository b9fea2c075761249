//! The actor pool of `rg3d_core`, as far as the container uses it.
//!
//! The pool keeps a vector of records and a stack of the indices of the
//! records that are free. A record has a generation and may hold an actor. A
//! handle is valid while the record at its index holds an actor and has the
//! handle's generation. What is stated here of the pool's methods was read
//! from their source and is believed, not proved.

use vstd::prelude::*;
use rg3d_core::pool::Handle;
use rg3d_core::pool::Pool;
use crate::actor::Actor;
use crate::handle::ActorHandle;

verus! {

#[verifier::external_type_specification]
#[verifier::external_body]
#[verifier::reject_recursive_types(T)]
pub struct ExPool<T: Sized>(Pool<T>);

/// One record of the pool.
pub struct Record {
    pub generation: u32,
    pub payload: Option<Actor>,
}

/// The records of the pool, by index.
pub uninterp spec fn pool_records(pool: Pool<Actor>) -> Seq<Record>;

/// The pool's stack of free indices; the last one is reused first.
pub uninterp spec fn pool_free_stack(pool: Pool<Actor>) -> Seq<u32>;

/// The handle names an actor that the records hold.
pub open spec fn is_valid(records: Seq<Record>, handle: ActorHandle) -> bool {
    &&& (handle.index as int) < records.len()
    &&& records[handle.index as int].generation == handle.generation
    &&& records[handle.index as int].payload is Some
}

/// The handles of the records that hold an actor, with the actors, in the
/// order of the records.
pub open spec fn live_pairs(records: Seq<Record>) -> Seq<(ActorHandle, Actor)>
    decreases records.len(),
{
    if records.len() == 0 {
        Seq::empty()
    } else {
        let before = live_pairs(records.drop_last());
        match records.last().payload {
            Some(actor) => before.push(
                (
                    ActorHandle {
                        index: (records.len() - 1) as u32,
                        generation: records.last().generation,
                    },
                    actor,
                ),
            ),
            None => before,
        }
    }
}

/// `Pool::new`: a pool without records and without free indices.
#[verifier::external_body]
pub(crate) fn pool_new() -> (pool: Pool<Actor>)
    ensures
        pool_records(pool) == Seq::<Record>::empty(),
        pool_free_stack(pool) == Seq::<u32>::empty(),
{
    Pool::new()
}

/// `Pool::spawn`: with a free index on the stack, the record there gets the
/// actor and the next generation, and the index leaves the stack; without
/// one, a record of generation 1 is appended. The handle names that record.
/// Left out: a free index whose record is missing or occupied (the pool
/// panics), a generation that cannot grow and a record count that does not
/// fit the handle's index (the arithmetic overflows).
#[verifier::external_body]
pub(crate) fn pool_spawn(pool: &mut Pool<Actor>, actor: Actor) -> (handle: ActorHandle)
    requires
        pool_free_stack(*old(pool)).len() > 0 ==> {
            let top = pool_free_stack(*old(pool)).last() as int;
            &&& top < pool_records(*old(pool)).len()
            &&& pool_records(*old(pool))[top].payload is None
            &&& pool_records(*old(pool))[top].generation < u32::MAX
        },
        pool_free_stack(*old(pool)).len() == 0 ==> pool_records(*old(pool)).len() <= u32::MAX,
    ensures
        pool_free_stack(*old(pool)).len() > 0 ==> {
            let top = pool_free_stack(*old(pool)).last();
            &&& handle.index == top
            &&& handle.generation == pool_records(*old(pool))[top as int].generation + 1
            &&& pool_records(*final(pool)) == pool_records(*old(pool)).update(
                top as int,
                Record { generation: handle.generation, payload: Some(actor) },
            )
            &&& pool_free_stack(*final(pool)) == pool_free_stack(*old(pool)).drop_last()
        },
        pool_free_stack(*old(pool)).len() == 0 ==> {
            &&& handle.index == pool_records(*old(pool)).len()
            &&& handle.generation == 1
            &&& pool_records(*final(pool)) == pool_records(*old(pool)).push(
                Record { generation: 1, payload: Some(actor) },
            )
            &&& pool_free_stack(*final(pool)) == pool_free_stack(*old(pool))
        },
{
    let handle = pool.spawn(actor);
    ActorHandle::new(handle.index(), handle.generation())
}

/// `Pool::free`: the record gives up its actor and keeps its generation, and
/// its index goes on the stack. Left out: a handle that is not valid (the
/// pool panics).
#[verifier::external_body]
pub(crate) fn pool_free(pool: &mut Pool<Actor>, handle: ActorHandle) -> (actor: Actor)
    requires
        is_valid(pool_records(*old(pool)), handle),
    ensures
        Some(actor) == pool_records(*old(pool))[handle.index as int].payload,
        pool_records(*final(pool)) == pool_records(*old(pool)).update(
            handle.index as int,
            Record { generation: handle.generation, payload: None },
        ),
        pool_free_stack(*final(pool)) == pool_free_stack(*old(pool)).push(handle.index),
{
    pool.free(Handle::new(handle.index, handle.generation))
}

/// `Pool::borrow`: the actor that the handle names. Left out: a handle that
/// is not valid (the pool panics).
#[verifier::external_body]
pub(crate) fn pool_borrow(pool: &Pool<Actor>, handle: ActorHandle) -> (actor: &Actor)
    requires
        is_valid(pool_records(*pool), handle),
    ensures
        Some(*actor) == pool_records(*pool)[handle.index as int].payload,
{
    pool.borrow(Handle::new(handle.index, handle.generation))
}

/// `Pool::borrow_mut`: the actor that the handle names, to be changed in
/// place; nothing else of the pool changes. Left out: a handle that is not
/// valid (the pool panics).
#[verifier::external_body]
pub(crate) fn pool_borrow_mut(pool: &mut Pool<Actor>, handle: ActorHandle) -> (actor: &mut Actor)
    requires
        is_valid(pool_records(*old(pool)), handle),
    ensures
        Some(*actor) == pool_records(*old(pool))[handle.index as int].payload,
        pool_records(*final(pool)) == pool_records(*old(pool)).update(
            handle.index as int,
            Record { generation: handle.generation, payload: Some(*final(actor)) },
        ),
        pool_free_stack(*final(pool)) == pool_free_stack(*old(pool)),
{
    pool.borrow_mut(Handle::new(handle.index, handle.generation))
}

/// `Pool::is_valid_handle`: whether the record at the handle's index exists,
/// holds an actor and has the handle's generation.
#[verifier::external_body]
pub(crate) fn pool_is_valid_handle(pool: &Pool<Actor>, handle: ActorHandle) -> (valid: bool)
    ensures
        valid == is_valid(pool_records(*pool), handle),
{
    pool.is_valid_handle(Handle::new(handle.index, handle.generation))
}

/// `Pool::get_capacity`: the number of records, free ones included.
#[verifier::external_body]
pub(crate) fn pool_get_capacity(pool: &Pool<Actor>) -> (capacity: usize)
    ensures
        capacity == pool_records(*pool).len(),
{
    pool.get_capacity()
}

/// `Pool::handle_from_index`: the handle with the generation of the record
/// at index `n`; the handle that names nothing where there is no such record
/// or its generation is zero.
#[verifier::external_body]
pub(crate) fn pool_handle_from_index(pool: &Pool<Actor>, n: u32) -> (handle: ActorHandle)
    ensures
        (n as int) < pool_records(*pool).len() && pool_records(*pool)[n as int].generation != 0
            ==> handle == (ActorHandle {
            index: n,
            generation: pool_records(*pool)[n as int].generation,
        }),
        !((n as int) < pool_records(*pool).len() && pool_records(*pool)[n as int].generation != 0)
            ==> handle == ActorHandle::spec_none(),
{
    let handle = pool.handle_from_index(n as usize);
    ActorHandle::new(handle.index(), handle.generation())
}

/// `Pool::at`: the actor that the record at index `n` holds, if there is such
/// a record and it holds one.
#[verifier::external_body]
pub(crate) fn pool_at(pool: &Pool<Actor>, n: usize) -> (held: Option<&Actor>)
    ensures
        match held {
            Some(actor) => n < pool_records(*pool).len() && pool_records(*pool)[n as int].payload
                == Some(*actor),
            None => n >= pool_records(*pool).len() || pool_records(*pool)[n as int].payload is None,
        },
{
    pool.at(n)
}

/// `Pool::alive_count`: the number of records that hold an actor.
#[verifier::external_body]
pub(crate) fn pool_alive_count(pool: &Pool<Actor>) -> (count: usize)
    ensures
        count == live_pairs(pool_records(*pool)).len(),
{
    pool.alive_count()
}

/// `Pool::pair_iter`, collected: the handles of the records that hold an
/// actor, each with its actor, in the order of the records.
#[verifier::external_body]
pub(crate) fn pool_pair_iter(pool: &Pool<Actor>) -> (pairs: Vec<(ActorHandle, &Actor)>)
    requires
        pool_records(*pool).len() <= u32::MAX,
    ensures
        pairs@.len() == live_pairs(pool_records(*pool)).len(),
        forall|k: int|
            0 <= k < pairs@.len() ==> (#[trigger] pairs@[k]).0 == live_pairs(
                pool_records(*pool),
            )[k].0 && *pairs@[k].1 == live_pairs(pool_records(*pool))[k].1,
{
    pool.pair_iter().map(
        |(handle, actor)| (ActorHandle::new(handle.index(), handle.generation()), actor),
    ).collect()
}

/// `Pool::iter`, collected: the actors that the records hold, in the order
/// of the records.
#[verifier::external_body]
pub(crate) fn pool_iter(pool: &Pool<Actor>) -> (actors: Vec<&Actor>)
    ensures
        actors@.len() == live_pairs(pool_records(*pool)).len(),
        forall|k: int|
            0 <= k < actors@.len() ==> *(#[trigger] actors@[k]) == live_pairs(
                pool_records(*pool),
            )[k].1,
{
    pool.iter().collect()
}

} // verus!
