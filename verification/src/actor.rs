//! Actors, and the container that owns them.

use vstd::prelude::*;
use crate::bot::lemma_bot_round_trip;
use crate::bot::lemma_bot_visit_adds;
use crate::bot::lemma_choice_is_another;
use crate::persist::Stored;
use crate::player::lemma_player_round_trip;
use crate::player::lemma_player_visit_adds;
use crate::bot::Bot;
use crate::character::Character;
use crate::contact::after_contact;
use crate::contact::carries;
use crate::contact::launch;
use crate::contact::launch_body;
use crate::contact::lemma_launch_is_idempotent;
use crate::handle::ActorHandle;
use crate::handle::BodyHandle;
use crate::handle::ColliderHandle;
use crate::history::added;
use crate::history::freed;
use crate::history::is_stale;
use crate::history::notified;
use crate::history::touched;
use crate::level::ContactEvent;
use crate::level::Physics;
use crate::level::UpdateContext;
use crate::message::Message;
use crate::persist::enter_region;
use crate::persist::is_reading;
use crate::persist::leave_region;
use crate::persist::pool_visit;
use crate::persist::user_error;
use crate::persist::visit_u32;
use crate::persist::visitor_tree;
use crate::persist::Outcome;
use crate::persist::Tree;
use crate::persist::pool_visit_outcome;
use crate::persist::PoolVisit;
use crate::player::Player;
use crate::pool::is_valid;
use crate::pool::live_pairs;
use crate::pool::pool_alive_count;
use crate::pool::pool_at;
use crate::pool::pool_borrow;
use crate::pool::pool_borrow_mut;
use crate::pool::pool_free;
use crate::pool::pool_free_stack;
use crate::pool::pool_get_capacity;
use crate::pool::pool_handle_from_index;
use crate::pool::pool_is_valid_handle;
use crate::pool::pool_iter;
use crate::pool::pool_new;
use crate::pool::pool_pair_iter;
use crate::pool::pool_records;
use crate::pool::pool_spawn;
use crate::pool::Record;
use crate::roster::handle_at;
use crate::roster::lemma_count_after_fill;
use crate::roster::lemma_count_is_bounded;
use crate::roster::lemma_count_of_equal_payloads;
use crate::roster::lemma_slot_of_pair;
use crate::scalar::Scalar;
use crate::scalar::Vector3;
use crate::text::decimal;
use crate::text::numbered;
use crate::tick::aims_at;
use crate::tick::queue_pickups;
use crate::tick::requests;
use crate::tick::snapshot;
use crate::tick::tick_messages;
use crate::tick::ticked;
use rg3d_core::pool::Pool;
use rg3d_core::visitor::Visit;
use rg3d_core::visitor::VisitError;
use rg3d_core::visitor::Visitor;

verus! {

pub enum Actor {
    Bot(Bot),
    Player(Player),
}

impl Actor {
    /// The tag under which a kind of actor is stored.
    pub open spec fn tag(&self) -> u32 {
        match self {
            Actor::Player(_) => 0,
            Actor::Bot(_) => 1,
        }
    }

    /// The actor of the given kind that holds nothing yet.
    pub open spec fn blank(id: u32) -> Actor {
        let character = Character { health: Scalar::spec_zero(), body: BodyHandle { id: 0 } };
        if id == 0 {
            Actor::Player(Player { character })
        } else {
            Actor::Bot(Bot { character, target: None, despawn_delay: 0 })
        }
    }

    /// What the actor shares with actors of the other kind.
    pub open spec fn base(&self) -> Character {
        match self {
            Actor::Bot(bot) => bot.character,
            Actor::Player(player) => player.character,
        }
    }

    /// The same actor with another base.
    pub open spec fn with_base(self, character: Character) -> Actor {
        match self {
            Actor::Bot(bot) => Actor::Bot(
                Bot { character, target: bot.target, despawn_delay: bot.despawn_delay },
            ),
            Actor::Player(_) => Actor::Player(Player { character }),
        }
    }

    pub open spec fn removable(&self) -> bool {
        match self {
            Actor::Bot(bot) => bot.removable(),
            Actor::Player(player) => player.removable(),
        }
    }

    /// The actor after one tick in which it saw `targets` at `ranges`.
    pub open spec fn after_tick(
        self,
        me: ActorHandle,
        targets: Seq<TargetDescriptor>,
        ranges: Seq<Scalar>,
    ) -> Actor {
        match self {
            Actor::Bot(bot) => Actor::Bot(bot.after_tick(me, targets, ranges)),
            Actor::Player(player) => Actor::Player(player),
        }
    }

    /// The actor as it is saved: a bot without its target.
    pub open spec fn without_target(self) -> Actor {
        match self {
            Actor::Bot(bot) => Actor::Bot(
                Bot { character: bot.character, target: None, despawn_delay: bot.despawn_delay },
            ),
            Actor::Player(player) => Actor::Player(player),
        }
    }

    /// The actor once it has been told that the actor `removed` is gone.
    pub open spec fn forgetting(self, removed: ActorHandle) -> Actor {
        match self {
            Actor::Bot(bot) => Actor::Bot(bot.forgetting(removed)),
            Actor::Player(player) => Actor::Player(player),
        }
    }

    /// A blank actor for a stored tag; tags above 1 name no kind of actor.
    pub fn from_id(id: u32) -> (r: Result<Self, String>)
        ensures
            id <= 1 ==> r == Ok::<Actor, String>(Actor::blank(id)),
            id > 1 ==> r is Err && r->Err_0@ == "Unknown actor kind "@ + decimal(id as nat),
    {
        if id == 0 {
            Ok(Actor::Player(Player::new(Character::new(Scalar::zero(), BodyHandle { id: 0 }))))
        } else if id == 1 {
            Ok(Actor::Bot(Bot::new(Character::new(Scalar::zero(), BodyHandle { id: 0 }), 0)))
        } else {
            Err(numbered("Unknown actor kind ", id))
        }
    }

    pub fn id(&self) -> (id: u32)
        ensures
            id == self.tag(),
    {
        match self {
            Actor::Player(_) => 0,
            Actor::Bot(_) => 1,
        }
    }

    /// What a load does once the stored tag has been read: the actor becomes
    /// a blank actor of the stored kind, ready to receive the stored state.
    /// An unknown tag is reported and leaves the actor as it was.
    pub fn reset_to(&mut self, id: u32) -> (r: Result<(), String>)
        ensures
            id <= 1 ==> r is Ok && *final(self) == Actor::blank(id),
            id > 1 ==> r is Err && *final(self) == *old(self) && r->Err_0@
                == "Unknown actor kind "@ + decimal(id as nat),
    {
        match Actor::from_id(id) {
            Ok(actor) => {
                *self = actor;
                Ok(())
            },
            Err(text) => Err(text),
        }
    }

    pub fn can_be_removed(&self) -> (b: bool)
        ensures
            b == self.removable(),
    {
        match self {
            Actor::Player(v) => v.can_be_removed(),
            Actor::Bot(v) => v.can_be_removed(),
        }
    }

    /// Gives back to the world what the actor holds of it: its body. An
    /// actor whose body is gone already gives back nothing.
    pub fn clean_up(&mut self, physics: &mut Physics)
        ensures
            *final(self) == *old(self),
            final(physics).bodies@ == old(physics).without(old(self).base().body),
    {
        let body = self.character().get_body();
        physics.remove_body(body);
    }

    pub fn character(&self) -> (c: &Character)
        ensures
            *c == self.base(),
    {
        match self {
            Actor::Bot(v) => &v.character,
            Actor::Player(v) => &v.character,
        }
    }

    pub fn character_mut(&mut self) -> (c: &mut Character)
        ensures
            *c == old(self).base(),
            *final(self) == old(self).with_base(*final(c)),
    {
        match self {
            Actor::Bot(v) => &mut v.character,
            Actor::Player(v) => &mut v.character,
        }
    }

    /// One tick of the actor whose handle is `me`: a bot picks its target, a
    /// player is left to the person who steers them.
    pub fn update(&mut self, me: ActorHandle, targets: &Vec<TargetDescriptor>, ranges: &Vec<Scalar>)
        ensures
            *final(self) == old(self).after_tick(me, targets@, ranges@),
    {
        match self {
            Actor::Bot(bot) => bot.update(me, targets, ranges),
            Actor::Player(player) => player.update(),
        }
    }
}

impl Actor {
    /// How the visit of the state ends, which is stored under the name
    /// "Data" whatever the kind.
    pub open spec fn data_outcome(self, tree: Tree) -> Outcome<Actor> {
        match self {
            Actor::Player(player) => {
                let data = player.visit_outcome(tree, "Data"@);
                Outcome { ok: data.ok, value: Actor::Player(data.value), tree: data.tree }
            },
            Actor::Bot(bot) => {
                let data = bot.visit_outcome(tree, "Data"@);
                Outcome { ok: data.ok, value: Actor::Bot(data.value), tree: data.tree }
            },
        }
    }

    /// How the visit under the name `name` ends. In a region of that name
    /// the tag of the kind comes first. A reading visitor then makes a blank
    /// actor of the stored kind, and fails on a tag that names no kind, with
    /// the actor as it was. The state of the kind comes last.
    pub open spec fn visit_outcome(self, tree: Tree, name: Seq<char>) -> Outcome<Actor> {
        if !tree.can_enter(name) {
            Outcome { ok: false, value: self, tree }
        } else {
            let id = tree.entered(name).number("KindId"@, self.tag());
            if !id.ok || (tree.reading && id.value > 1) {
                Outcome { ok: false, value: self, tree: id.tree }
            } else {
                let kind = if tree.reading {
                    Actor::blank(id.value)
                } else {
                    self
                };
                let data = kind.data_outcome(id.tree);
                Outcome { ok: data.ok, value: data.value, tree: data.tree.closed(data.ok) }
            }
        }
    }
}

/// An actor that was saved is loaded again as it was, but for the target of
/// a bot, which is not saved: whatever actor is shown to a reading visitor
/// that stands where the writing one stood and holds what that one held
/// afterwards, it becomes the saved one, a bot without target, and the
/// visitor ends where it began.
pub proof fn lemma_actor_round_trip(
    saved: Actor,
    shown: Actor,
    began: Tree,
    reader: Tree,
    name: Seq<char>,
)
    requires
        !began.reading,
        saved.visit_outcome(began, name).ok,
        reader.rereads(began, saved.visit_outcome(began, name).tree),
    ensures
        shown.visit_outcome(reader, name).ok,
        shown.visit_outcome(reader, name).value == saved.without_target(),
        shown.visit_outcome(reader, name).value.tag() == saved.tag(),
        shown.visit_outcome(reader, name).value.base() == saved.base(),
        shown.visit_outcome(reader, name).tree == reader,
{
    let written = saved.visit_outcome(began, name).tree;
    let id = began.entered(name).number("KindId"@, saved.tag());
    let data = saved.data_outcome(id.tree);
    assert(id.tree == began.entered(name).with_field("KindId"@, Stored::Number(saved.tag())));
    assert(written == data.tree.left());
    assert(id.tree.fields.dom().contains((began.below(name), "KindId"@)));
    assert(id.tree.regions.contains(began.below(name)));
    assert(reader.regions.insert(reader.below(name)) =~= reader.regions);
    assert(reader.below(name).drop_last() =~= reader.path);
    let inner = reader.entered(name);
    match saved {
        Actor::Player(player) => {
            lemma_player_visit_adds(player, id.tree, "Data"@);
            assert(written.fields.dom().contains((began.below(name), "KindId"@)));
            assert(inner.keeps(data.tree)) by {
                assert forall|key: (Seq<Seq<char>>, Seq<char>)| #[trigger]
                    data.tree.fields.dom().contains(key) implies reader.fields.dom().contains(key)
                    && reader.fields[key] == data.tree.fields[key] by {
                    assert(written.fields.dom().contains(key));
                }
            }
            lemma_player_round_trip(player, Actor::blank(0)->Player_0, id.tree, inner, "Data"@);
        },
        Actor::Bot(bot) => {
            lemma_bot_visit_adds(bot, id.tree, "Data"@);
            assert(written.fields.dom().contains((began.below(name), "KindId"@)));
            assert(inner.keeps(data.tree)) by {
                assert forall|key: (Seq<Seq<char>>, Seq<char>)| #[trigger]
                    data.tree.fields.dom().contains(key) implies reader.fields.dom().contains(key)
                    && reader.fields[key] == data.tree.fields[key] by {
                    assert(written.fields.dom().contains(key));
                }
            }
            lemma_bot_round_trip(bot, Actor::blank(1)->Bot_0, id.tree, inner, "Data"@);
        },
    }
    assert(shown.visit_outcome(reader, name).tree =~= reader);
}

impl Visit for Actor {
    /// Saves the actor to a writing visitor, which leaves it as it is, or
    /// loads it from a reading one: first the tag of the kind, then the state
    /// of that kind. A stored tag that names no kind fails the load and
    /// leaves the actor as it was.
    fn visit(&mut self, name: &str, visitor: &mut Visitor) -> (r: Result<(), VisitError>)
        requires
            visitor_tree(*old(visitor)).inside,
        ensures
            r is Ok <==> old(self).visit_outcome(visitor_tree(*old(visitor)), name@).ok,
            *final(self) == old(self).visit_outcome(visitor_tree(*old(visitor)), name@).value,
            visitor_tree(*final(visitor)) == old(self).visit_outcome(
                visitor_tree(*old(visitor)),
                name@,
            ).tree,
            visitor_tree(*final(visitor)).reading == visitor_tree(*old(visitor)).reading,
            r is Ok ==> visitor_tree(*final(visitor)).inside && visitor_tree(*final(visitor)).path
                == visitor_tree(*old(visitor)).path,
            !visitor_tree(*old(visitor)).reading ==> *final(self) == *old(self),
            !visitor_tree(*old(visitor)).reading ==> (r is Ok <==> !visitor_tree(
                *old(visitor),
            ).has_region(name@)),
            visitor_tree(*old(visitor)).reading ==> visitor_tree(*final(visitor)).holds_what(
                visitor_tree(*old(visitor)),
            ),
    {
        proof {
            let tree = visitor_tree(*old(visitor));
            assert(tree.below(name@).drop_last() =~= tree.path);
            if tree.reading && tree.has_region(name@) {
                assert(tree.regions.insert(tree.below(name@)) =~= tree.regions);
            }
        }
        enter_region(visitor, name)?;
        proof {
            let inner = visitor_tree(*visitor);
            if !inner.reading {
                assert(inner.field("KindId"@) is None);
                assert(!inner.has_region("Data"@));
            }
        }
        let mut kind_id = self.id();
        visit_u32(&mut kind_id, "KindId", visitor)?;
        if is_reading(visitor) {
            match self.reset_to(kind_id) {
                Ok(()) => {},
                Err(text) => {
                    return Err(user_error(text));
                },
            }
        }
        match self {
            Actor::Player(player) => player.visit("Data", visitor)?,
            Actor::Bot(bot) => bot.visit("Data", visitor)?,
        }
        leave_region(visitor)
    }
}

impl Default for Actor {
    fn default() -> (a: Self)
        ensures
            a == Actor::blank(1),
    {
        Actor::Bot(Bot::new(Character::new(Scalar::zero(), BodyHandle { id: 0 }), 0))
    }
}

/// The tag of an actor names its kind again, and only the tags 0 and 1 name a
/// kind.
pub proof fn lemma_actor_tag_round_trip(actor: Actor)
    ensures
        actor.tag() <= 1,
        Actor::blank(actor.tag()).tag() == actor.tag(),
        forall|id: u32| id <= 1 ==> (#[trigger] Actor::blank(id)).tag() == id,
{
}

/// What a bot has to know of an actor to decide whether to go for it. Taken
/// at the start of a tick and thrown away at the next.
#[derive(Clone, Copy, Debug, PartialEq, Eq, Structural)]
pub struct TargetDescriptor {
    pub handle: ActorHandle,
    pub health: Scalar,
    pub position: Vector3,
}

/// The slots can be walked: an index fits a handle, and no slot that holds an
/// actor has the generation zero, which is that of the handle that names
/// nothing.
pub open spec fn sound(slots: Seq<Record>) -> bool {
    &&& slots.len() <= u32::MAX
    &&& forall|i: int|
        0 <= i < slots.len() && (#[trigger] slots[i]).payload is Some ==> slots[i].generation >= 1
}

/// The slots and the stack of free indices fit together: the slots can be
/// walked, and every free index is that of an empty slot and occurs once.
pub open spec fn consistent(slots: Seq<Record>, free: Seq<u32>) -> bool {
    &&& sound(slots)
    &&& forall|k: int|
        0 <= k < free.len() ==> (#[trigger] free[k] as int) < slots.len()
            && slots[free[k] as int].payload is None
    &&& forall|k: int, l: int| 0 <= k < l < free.len() ==> #[trigger] free[k] != #[trigger] free[l]
}

/// The stack of free indices after an actor was added under `handle`: the
/// last free index was taken and is that of the handle, or there was none
/// and the handle has the index after the last of the `count` slots.
pub open spec fn reused(before: Seq<u32>, after: Seq<u32>, count: nat, handle: ActorHandle) -> bool {
    if before.len() > 0 {
        handle.index == before.last() && after == before.drop_last()
    } else {
        handle.index == count && after == before
    }
}

/// No slot has used up its generations, and one more slot would still fit.
pub open spec fn roomy(slots: Seq<Record>) -> bool {
    &&& slots.len() < u32::MAX
    &&& forall|i: int| 0 <= i < slots.len() ==> (#[trigger] slots[i]).generation < u32::MAX
}

pub struct ActorContainer {
    pool: Pool<Actor>,
    target_descriptors: Vec<TargetDescriptor>,
}

impl ActorContainer {
    /// The slots of the pool, by index.
    pub closed spec fn slots(&self) -> Seq<Record> {
        pool_records(self.pool)
    }

    /// The indices of the empty slots, in the order in which they will be
    /// reused, last first.
    pub closed spec fn free_slots(&self) -> Seq<u32> {
        pool_free_stack(self.pool)
    }

    /// The targets of the last tick.
    pub closed spec fn targets(&self) -> Seq<TargetDescriptor> {
        self.target_descriptors@
    }

    /// Holds of every container that was made here and was not loaded since.
    /// A container needs this to take an actor.
    pub open spec fn wf(&self) -> bool {
        consistent(self.slots(), self.free_slots())
    }

    /// Holds of every container that `wf` holds of, and can be tested of a
    /// container that was loaded. A container needs this for everything but
    /// to take an actor.
    pub open spec fn walkable(&self) -> bool {
        sound(self.slots())
    }

    /// The handle names an actor of this container.
    pub open spec fn holds(&self, handle: ActorHandle) -> bool {
        is_valid(self.slots(), handle)
    }

    /// The actor that the handle names.
    pub open spec fn actor(&self, handle: ActorHandle) -> Actor {
        self.slots()[handle.index as int].payload->0
    }

    /// The number of actors.
    pub open spec fn population(&self) -> nat {
        live_pairs(self.slots()).len()
    }

    /// One more actor can be added: the slot that would take it can still
    /// move on by a generation, or a slot can still be appended.
    pub open spec fn has_room(&self) -> bool {
        if self.free_slots().len() > 0 {
            self.slots()[self.free_slots().last() as int].generation < u32::MAX
        } else {
            self.slots().len() < u32::MAX
        }
    }

    /// Whether the slots can be walked. Looks at every slot.
    pub fn is_walkable(&self) -> (b: bool)
        ensures
            b == self.walkable(),
    {
        let capacity = pool_get_capacity(&self.pool);
        if capacity > u32::MAX as usize {
            return false;
        }
        let mut i: usize = 0;
        while i < capacity
            invariant
                i <= capacity,
                capacity == self.slots().len(),
                capacity <= u32::MAX,
                forall|j: int|
                    0 <= j < i && (#[trigger] self.slots()[j]).payload is Some
                        ==> self.slots()[j].generation >= 1,
            decreases capacity - i,
        {
            if pool_at(&self.pool, i).is_some() {
                let handle = pool_handle_from_index(&self.pool, i as u32);
                if handle.generation == 0 {
                    assert(self.slots()[i as int].payload is Some);
                    return false;
                }
            }
            i += 1;
        }
        true
    }

    pub fn new() -> (c: Self)
        ensures
            c.wf(),
            c.slots() == Seq::<Record>::empty(),
            c.free_slots() == Seq::<u32>::empty(),
            c.targets() == Seq::<TargetDescriptor>::empty(),
            c.has_room(),
    {
        Self { pool: pool_new(), target_descriptors: Vec::new() }
    }

    pub fn add(&mut self, actor: Actor) -> (handle: ActorHandle)
        requires
            old(self).wf(),
            old(self).has_room(),
        ensures
            final(self).wf(),
            added(old(self).slots(), final(self).slots(), actor, handle),
            reused(old(self).free_slots(), final(self).free_slots(), old(self).slots().len(), handle),
            final(self).holds(handle),
            final(self).actor(handle) == actor,
            final(self).population() == old(self).population() + 1,
            final(self).targets() == old(self).targets(),
    {
        let handle = pool_spawn(&mut self.pool, actor);
        proof {
            let before = old(self).slots();
            let free = old(self).free_slots();
            if free.len() > 0 {
                assert(free[free.len() - 1] == free.last());
                assert forall|k: int| 0 <= k < free.len() - 1 implies free[k] != handle.index by {
                    assert(free[k] != free[free.len() - 1]);
                }
            }
            lemma_count_after_fill(before, self.slots(), handle.index as int);
        }
        handle
    }

    /// Adds the actor if no slot has used up its generations and one more
    /// slot would still fit; hands it back otherwise. Looks at every slot.
    pub fn try_add(&mut self, actor: Actor) -> (r: Result<ActorHandle, Actor>)
        requires
            old(self).wf(),
        ensures
            final(self).wf(),
            r is Ok <==> roomy(old(self).slots()),
            match r {
                Ok(handle) => {
                    &&& added(old(self).slots(), final(self).slots(), actor, handle)
                    &&& reused(
                        old(self).free_slots(),
                        final(self).free_slots(),
                        old(self).slots().len(),
                        handle,
                    )
                    &&& final(self).holds(handle)
                    &&& final(self).actor(handle) == actor
                    &&& final(self).population() == old(self).population() + 1
                },
                Err(back) => {
                    &&& back == actor
                    &&& final(self).slots() == old(self).slots()
                    &&& final(self).free_slots() == old(self).free_slots()
                },
            },
            final(self).targets() == old(self).targets(),
    {
        let capacity = pool_get_capacity(&self.pool);
        if capacity >= u32::MAX as usize {
            return Err(actor);
        }
        let mut i: usize = 0;
        while i < capacity
            invariant
                i <= capacity,
                capacity == self.slots().len(),
                capacity < u32::MAX,
                *self == *old(self),
                self.wf(),
                forall|j: int| 0 <= j < i ==> (#[trigger] self.slots()[j]).generation < u32::MAX,
            decreases capacity - i,
        {
            let handle = pool_handle_from_index(&self.pool, i as u32);
            if handle.generation == u32::MAX {
                return Err(actor);
            }
            i += 1;
        }
        Ok(self.add(actor))
    }

    pub fn get(&self, actor: ActorHandle) -> (a: &Actor)
        requires
            self.holds(actor),
        ensures
            *a == self.actor(actor),
    {
        pool_borrow(&self.pool, actor)
    }

    pub fn contains(&self, actor: ActorHandle) -> (b: bool)
        ensures
            b == self.holds(actor),
    {
        pool_is_valid_handle(&self.pool, actor)
    }

    pub fn get_mut(&mut self, actor: ActorHandle) -> (a: &mut Actor)
        requires
            old(self).holds(actor),
        ensures
            *a == old(self).actor(actor),
            final(self).slots() == old(self).slots().update(
                actor.index as int,
                Record { generation: actor.generation, payload: Some(*final(a)) },
            ),
            final(self).free_slots() == old(self).free_slots(),
            final(self).targets() == old(self).targets(),
            touched(old(self).slots(), final(self).slots()),
            old(self).wf() ==> final(self).wf(),
            old(self).walkable() ==> final(self).walkable(),
    {
        pool_borrow_mut(&mut self.pool, actor)
    }

    /// Removes the actor. Every bot is first told that the actor is going,
    /// so that none goes on aiming at it.
    pub fn free(&mut self, actor_handle: ActorHandle)
        requires
            old(self).walkable(),
            old(self).holds(actor_handle),
        ensures
            final(self).walkable(),
            old(self).wf() ==> final(self).wf(),
            freed(old(self).slots(), final(self).slots(), actor_handle),
            final(self).free_slots() == old(self).free_slots().push(actor_handle.index),
            !final(self).holds(actor_handle),
            is_stale(final(self).slots(), actor_handle),
            final(self).population() == old(self).population() - 1,
            final(self).targets() == old(self).targets(),
    {
        let capacity = pool_get_capacity(&self.pool);
        let mut i: usize = 0;
        while i < capacity
            invariant
                i <= capacity,
                capacity == old(self).slots().len(),
                capacity <= u32::MAX,
                self.slots().len() == capacity,
                self.free_slots() == old(self).free_slots(),
                self.target_descriptors == old(self).target_descriptors,
                sound(old(self).slots()),
                forall|j: int|
                    0 <= j < i ==> #[trigger] self.slots()[j] == notified(
                        old(self).slots(),
                        actor_handle,
                    )[j],
                forall|j: int| i <= j < capacity ==> #[trigger] self.slots()[j] == old(self).slots()[j],
            decreases capacity - i,
        {
            let handle = pool_handle_from_index(&self.pool, i as u32);
            if pool_is_valid_handle(&self.pool, handle) {
                let actor = pool_borrow_mut(&mut self.pool, handle);
                match actor {
                    Actor::Bot(bot) => {
                        bot.on_actor_removed(actor_handle);
                    },
                    Actor::Player(_) => {},
                }
            }
            i += 1;
        }
        proof {
            assert(self.slots() =~= notified(old(self).slots(), actor_handle));
        }
        let _ = pool_free(&mut self.pool, actor_handle);
        proof {
            let before = old(self).slots();
            let told = notified(before, actor_handle);
            let free = old(self).free_slots();
            if old(self).wf() {
                assert forall|k: int, l: int|
                    0 <= k < l < self.free_slots().len() implies self.free_slots()[k]
                    != self.free_slots()[l] by {
                    if l == free.len() {
                        assert(before[free[k] as int].payload is None);
                    }
                }
            }
            lemma_count_of_equal_payloads(before, told);
            lemma_count_after_fill(self.slots(), told, actor_handle.index as int);
        }
    }

    /// Every actor has its body in the world.
    pub open spec fn embodied(&self, physics: Physics) -> bool {
        forall|i: int|
            0 <= i < self.slots().len() && (#[trigger] self.slots()[i]).payload is Some
                ==> physics.has_body(self.slots()[i].payload->0.base().body)
    }

    /// Whether every actor has its body in the world.
    pub fn is_embodied(&self, physics: &Physics) -> (b: bool)
        requires
            self.walkable(),
        ensures
            b == self.embodied(*physics),
    {
        let capacity = pool_get_capacity(&self.pool);
        let mut i: usize = 0;
        while i < capacity
            invariant
                i <= capacity,
                capacity == self.slots().len(),
                self.walkable(),
                forall|j: int|
                    0 <= j < i && (#[trigger] self.slots()[j]).payload is Some ==> physics.has_body(
                        self.slots()[j].payload->0.base().body,
                    ),
            decreases capacity - i,
        {
            let handle = pool_handle_from_index(&self.pool, i as u32);
            if pool_is_valid_handle(&self.pool, handle) {
                let body = pool_borrow(&self.pool, handle).character().get_body();
                if physics.find_body(body).is_none() {
                    assert(self.slots()[i as int].payload is Some);
                    return false;
                }
            }
            i += 1;
        }
        true
    }

    /// One tick of all actors. First the targets of the tick are taken, one
    /// of each actor. Then each actor in turn has its tick, asks for every
    /// item in reach unless it was dead before its tick, and asks for a new
    /// life if it may be removed after its tick. The requests are queued in
    /// `context.messages`.
    pub fn update(&mut self, context: &mut UpdateContext)
        requires
            old(self).walkable(),
            old(self).embodied(old(context).physics),
        ensures
            final(self).walkable(),
            old(self).wf() ==> final(self).wf(),
            final(self).targets() == snapshot(old(self).slots(), old(context).physics),
            final(self).slots() == ticked(old(self).slots(), final(self).targets(), *old(context)),
            final(self).free_slots() == old(self).free_slots(),
            touched(old(self).slots(), final(self).slots()),
            final(context).messages@ == old(context).messages@ + tick_messages(
                old(self).slots(),
                final(self).targets(),
                *old(context),
                old(self).slots().len() as int,
            ),
            forall|handle: ActorHandle|
                final(self).holds(handle) ==> !aims_at(
                    #[trigger] final(self).actor(handle),
                    handle,
                ),
            final(context).physics == old(context).physics,
            final(context).items == old(context).items,
            final(context).jump_pads == old(context).jump_pads,
            final(context).ranges == old(context).ranges,
    {
        self.target_descriptors.clear();
        let pairs = pool_pair_iter(&self.pool);
        let mut k: usize = 0;
        while k < pairs.len()
            invariant
                k <= pairs@.len(),
                self.pool == old(self).pool,
                *context == *old(context),
                old(self).embodied(context.physics),
                pairs@.len() == live_pairs(old(self).slots()).len(),
                forall|j: int|
                    0 <= j < pairs@.len() ==> (#[trigger] pairs@[j]).0 == live_pairs(
                        old(self).slots(),
                    )[j].0 && *pairs@[j].1 == live_pairs(old(self).slots())[j].1,
                self.target_descriptors@ == snapshot(old(self).slots(), context.physics).take(
                    k as int,
                ),
            decreases pairs@.len() - k,
        {
            let handle = pairs[k].0;
            let actor = pairs[k].1;
            proof {
                lemma_slot_of_pair(old(self).slots(), k as int);
            }
            self.target_descriptors.push(
                TargetDescriptor {
                    handle,
                    health: actor.character().get_health(),
                    position: actor.character().position(&context.physics),
                },
            );
            proof {
                let all = snapshot(old(self).slots(), context.physics);
                assert(all.take(k as int).push(all[k as int]) =~= all.take(k as int + 1));
            }
            k += 1;
        }
        proof {
            let all = snapshot(old(self).slots(), context.physics);
            assert(all.take(all.len() as int) =~= all);
        }
        let capacity = pool_get_capacity(&self.pool);
        let no_ranges: Vec<Scalar> = Vec::new();
        let mut i: usize = 0;
        while i < capacity
            invariant
                i <= capacity,
                capacity == old(self).slots().len(),
                capacity <= u32::MAX,
                no_ranges@ == Seq::<Scalar>::empty(),
                self.slots().len() == capacity,
                self.free_slots() == old(self).free_slots(),
                self.target_descriptors@ == snapshot(old(self).slots(), old(context).physics),
                sound(old(self).slots()),
                forall|j: int|
                    0 <= j < i ==> #[trigger] self.slots()[j] == ticked(
                        old(self).slots(),
                        self.target_descriptors@,
                        *old(context),
                    )[j],
                forall|j: int| i <= j < capacity ==> #[trigger] self.slots()[j] == old(self).slots()[j],
                context.messages@ == old(context).messages@ + tick_messages(
                    old(self).slots(),
                    self.target_descriptors@,
                    *old(context),
                    i as int,
                ),
                context.physics == old(context).physics,
                context.items == old(context).items,
                context.jump_pads == old(context).jump_pads,
                context.ranges == old(context).ranges,
            decreases capacity - i,
        {
            let handle = pool_handle_from_index(&self.pool, i as u32);
            if pool_is_valid_handle(&self.pool, handle) {
                let ghost queued = context.messages@;
                let actor = pool_borrow_mut(&mut self.pool, handle);
                let ghost before = *actor;
                let is_dead = actor.character().is_dead();
                if i < context.ranges.len() {
                    actor.update(handle, &self.target_descriptors, &context.ranges[i].to_actors);
                } else {
                    actor.update(handle, &self.target_descriptors, &no_ranges);
                }
                if !is_dead {
                    if i < context.ranges.len() {
                        queue_pickups(
                            handle,
                            &context.items,
                            &context.ranges[i].to_items,
                            &mut context.messages,
                        );
                    } else {
                        queue_pickups(handle, &context.items, &no_ranges, &mut context.messages);
                    }
                }
                if actor.can_be_removed() {
                    context.messages.push(Message::RespawnActor { actor: handle });
                }
                proof {
                    assert(handle == handle_at(old(self).slots(), i as int));
                    assert(context.messages@ == queued + requests(
                        before,
                        *actor,
                        handle,
                        context.items@,
                        old(context).ranges_to_items(i as int),
                    ));
                }
            }
            i += 1;
        }
        proof {
            let after = ticked(old(self).slots(), self.target_descriptors@, *old(context));
            assert(self.slots() =~= after);
            assert forall|handle: ActorHandle| self.holds(handle) implies !aims_at(
                #[trigger] self.actor(handle),
                handle,
            ) by {
                let i = handle.index as int;
                assert(self.slots()[i] == after[i]);
                lemma_choice_is_another(
                    handle,
                    self.target_descriptors@,
                    old(context).ranges_to_actors(i),
                );
            }
        }
    }

    /// A contact between `a` and `b` can be handled: where there is a jump
    /// pad, each actor has its body in the world, with a capsule attached,
    /// and wherever an actor exists, both colliders are attached to a body.
    pub open spec fn ready_for_contact(
        &self,
        context: UpdateContext,
        a: ColliderHandle,
        b: ColliderHandle,
    ) -> bool {
        context.jump_pads@.len() > 0 ==> forall|i: int|
            0 <= i < self.slots().len() && (#[trigger] self.slots()[i]).payload is Some ==> {
                let body = self.slots()[i].payload->0.base().body;
                &&& context.physics.has_body(body)
                &&& context.physics.body(body).colliders@.len() > 0
                &&& context.physics.owner(a) is Some
                &&& context.physics.owner(b) is Some
            }
    }

    /// Whether a contact between `a` and `b` can be handled.
    pub fn is_ready_for_contact(
        &self,
        context: &UpdateContext,
        a: ColliderHandle,
        b: ColliderHandle,
    ) -> (ready: bool)
        requires
            self.walkable(),
        ensures
            ready == self.ready_for_contact(*context, a, b),
    {
        if context.jump_pads.len() == 0 {
            return true;
        }
        let attached = context.physics.collider_parent(a).is_some()
            && context.physics.collider_parent(b).is_some();
        let capacity = pool_get_capacity(&self.pool);
        let mut i: usize = 0;
        while i < capacity
            invariant
                i <= capacity,
                capacity == self.slots().len(),
                self.walkable(),
                context.jump_pads@.len() > 0,
                attached == (context.physics.owner(a) is Some && context.physics.owner(b) is Some),
                forall|j: int|
                    0 <= j < i && (#[trigger] self.slots()[j]).payload is Some ==> {
                        let body = self.slots()[j].payload->0.base().body;
                        &&& context.physics.has_body(body)
                        &&& context.physics.body(body).colliders@.len() > 0
                        &&& attached
                    },
            decreases capacity - i,
        {
            let handle = pool_handle_from_index(&self.pool, i as u32);
            if pool_is_valid_handle(&self.pool, handle) {
                let body = pool_borrow(&self.pool, handle).character().get_body();
                let with_capsule = match context.physics.find_body(body) {
                    Some(n) => context.physics.bodies[n].colliders.len() > 0,
                    None => false,
                };
                if !with_capsule || !attached {
                    assert(self.slots()[i as int].payload is Some);
                    return false;
                }
            }
            i += 1;
        }
        true
    }

    /// Reacts to what the physics reports of two colliders. Where they began
    /// to touch, and one is the capsule of an actor and the other belongs to
    /// a jump pad, the body of the actor gets the velocity that the pad
    /// gives. Each actor is held against each pad, so the work grows with
    /// the product of their numbers.
    pub fn handle_event(&mut self, contact_event: &ContactEvent, context: &mut UpdateContext)
        requires
            old(self).walkable(),
            *contact_event matches ContactEvent::Started(a, b) ==> old(self).ready_for_contact(
                *old(context),
                a,
                b,
            ),
        ensures
            final(self).slots() == old(self).slots(),
            final(self).free_slots() == old(self).free_slots(),
            final(self).targets() == old(self).targets(),
            final(context).items == old(context).items,
            final(context).jump_pads == old(context).jump_pads,
            final(context).ranges == old(context).ranges,
            final(context).messages == old(context).messages,
            match *contact_event {
                ContactEvent::Started(a, b) => final(context).physics.bodies@ == after_contact(
                    old(self).slots(),
                    old(context).physics,
                    old(context).jump_pads@,
                    a,
                    b,
                ),
                ContactEvent::Stopped(_, _) => final(context).physics == old(context).physics,
            },
    {
        match *contact_event {
            ContactEvent::Started(a, b) => {
                let capacity = pool_get_capacity(&self.pool);
                let owner_a = context.physics.collider_parent(a);
                let owner_b = context.physics.collider_parent(b);
                let ghost start = context.physics;
                let ghost slots = self.slots();
                let ghost pads = context.jump_pads@;
                let mut i: usize = 0;
                while i < capacity
                    invariant
                        i <= capacity,
                        capacity == slots.len(),
                        capacity <= u32::MAX,
                        *self == *old(self),
                        slots == self.slots(),
                        start == old(context).physics,
                        pads == old(context).jump_pads@,
                        owner_a == start.owner(a),
                        owner_b == start.owner(b),
                        old(self).ready_for_contact(*old(context), a, b),
                        sound(slots),
                        context.items == old(context).items,
                        context.jump_pads == old(context).jump_pads,
                        context.ranges == old(context).ranges,
                        context.messages == old(context).messages,
                        context.physics.bodies@.len() == start.bodies@.len(),
                        forall|n: int|
                            0 <= n < start.bodies@.len() ==> #[trigger] context.physics.bodies@[n] == (
                            if carries(slots, start, n, i as int) {
                                start.moving(
                                    n,
                                    launch(
                                        pads,
                                        start.bodies@[n].colliders@[0],
                                        a,
                                        b,
                                        owner_a->0,
                                        owner_b->0,
                                        start.bodies@[n].linvel,
                                    ),
                                )
                            } else {
                                start.bodies@[n]
                            }),
                    decreases capacity - i,
                {
                    let handle = pool_handle_from_index(&self.pool, i as u32);
                    if pool_is_valid_handle(&self.pool, handle) && context.jump_pads.len() > 0 {
                        let body = pool_borrow(&self.pool, handle).character().get_body();
                        proof {
                            assert(slots[i as int].payload is Some);
                            let w = choose|w: int|
                                0 <= w < start.bodies@.len() && (#[trigger] start.bodies@[w]).handle
                                    == body;
                            assert(context.physics.bodies@[w].handle == body);
                        }
                        match (context.physics.find_body(body), owner_a, owner_b) {
                            (Some(n), Some(body_a), Some(body_b)) => {
                                proof {
                                    assert forall|j: int| 0 <= j < n implies (
                                    #[trigger] start.bodies@[j]).handle != body by {
                                        assert(context.physics.bodies@[j].handle != body);
                                    }
                                    assert(start.is_index_of(body, n as int));
                                    start.lemma_index_is_unique(body, n as int);
                                    lemma_launch_is_idempotent(
                                        pads,
                                        start.bodies@[n as int].colliders@[0],
                                        a,
                                        b,
                                        body_a,
                                        body_b,
                                        start.bodies@[n as int].linvel,
                                    );
                                }
                                launch_body(
                                    &mut context.physics,
                                    n,
                                    &context.jump_pads,
                                    a,
                                    b,
                                    body_a,
                                    body_b,
                                );
                                proof {
                                    assert forall|m: int|
                                        0 <= m < start.bodies@.len() && m != n implies (carries(
                                        slots,
                                        start,
                                        m,
                                        i as int + 1,
                                    ) <==> carries(slots, start, m, i as int)) by {
                                        if carries(slots, start, m, i as int + 1) {
                                            let w = choose|w: int|
                                                0 <= w < i as int + 1 && w < slots.len() && (
                                                #[trigger] slots[w]).payload is Some
                                                    && start.is_index_of(
                                                    slots[w].payload->0.base().body,
                                                    m,
                                                );
                                            assert(w != i);
                                        }
                                    }
                                    assert(carries(slots, start, n as int, i as int + 1));
                                }
                            },
                            _ => {},
                        }
                    } else {
                        proof {
                            if context.jump_pads.len() == 0 {
                                assert forall|n: int| 0 <= n < start.bodies@.len() implies launch(
                                    pads,
                                    start.bodies@[n].colliders@[0],
                                    a,
                                    b,
                                    owner_a->0,
                                    owner_b->0,
                                    start.bodies@[n].linvel,
                                ) == start.bodies@[n].linvel by {}
                                assert forall|n: int|
                                    0 <= n < start.bodies@.len() implies #[trigger] start.moving(
                                    n,
                                    start.bodies@[n].linvel,
                                ) == start.bodies@[n] by {}
                            } else {
                                assert forall|m: int| 0 <= m < start.bodies@.len() implies (carries(
                                    slots,
                                    start,
                                    m,
                                    i as int + 1,
                                ) <==> carries(slots, start, m, i as int)) by {
                                    if carries(slots, start, m, i as int + 1) {
                                        let w = choose|w: int|
                                            0 <= w < i as int + 1 && w < slots.len() && (
                                            #[trigger] slots[w]).payload is Some
                                                && start.is_index_of(
                                                slots[w].payload->0.base().body,
                                                m,
                                            );
                                        assert(w != i);
                                    }
                                }
                            }
                        }
                    }
                    i += 1;
                }
                proof {
                    assert(context.physics.bodies@ =~= after_contact(slots, start, pads, a, b));
                }
            },
            ContactEvent::Stopped(_, _) => {},
        }
    }

    /// The actors, in the order of their slots.
    pub fn iter(&self) -> (actors: Vec<&Actor>)
        ensures
            actors@.len() == self.population(),
            forall|k: int|
                0 <= k < actors@.len() ==> *(#[trigger] actors@[k]) == live_pairs(self.slots())[k].1,
    {
        pool_iter(&self.pool)
    }

    /// The actors with their handles, in the order of their slots.
    pub fn pair_iter(&self) -> (pairs: Vec<(ActorHandle, &Actor)>)
        requires
            self.walkable(),
        ensures
            pairs@.len() == self.population(),
            forall|k: int|
                0 <= k < pairs@.len() ==> (#[trigger] pairs@[k]).0 == live_pairs(self.slots())[k].0
                    && *pairs@[k].1 == live_pairs(self.slots())[k].1,
            forall|k: int|
                0 <= k < pairs@.len() ==> self.holds((#[trigger] pairs@[k]).0) && self.actor(
                    pairs@[k].0,
                ) == *pairs@[k].1,
    {
        let pairs = pool_pair_iter(&self.pool);
        proof {
            assert forall|k: int| 0 <= k < pairs@.len() implies self.holds((#[trigger] pairs@[k]).0)
                && self.actor(pairs@[k].0) == *pairs@[k].1 by {
                lemma_slot_of_pair(self.slots(), k);
            }
        }
        pairs
    }

    /// The handles of the actors, in the order of their slots. With
    /// `get_mut` they serve to change each actor in turn.
    pub fn handles(&self) -> (handles: Vec<ActorHandle>)
        requires
            self.walkable(),
        ensures
            handles@.len() == self.population(),
            forall|k: int|
                0 <= k < handles@.len() ==> #[trigger] handles@[k] == live_pairs(self.slots())[k].0
                    && self.holds(handles@[k]),
    {
        let pairs = self.pair_iter();
        let mut handles: Vec<ActorHandle> = Vec::new();
        let mut k: usize = 0;
        while k < pairs.len()
            invariant
                k <= pairs@.len(),
                handles@.len() == k,
                forall|j: int| 0 <= j < k ==> #[trigger] handles@[j] == pairs@[j].0,
            decreases pairs@.len() - k,
        {
            handles.push(pairs[k].0);
            k += 1;
        }
        handles
    }

    pub fn count(&self) -> (n: u32)
        requires
            self.walkable(),
        ensures
            n == self.population(),
    {
        proof {
            lemma_count_is_bounded(self.slots());
        }
        pool_alive_count(&self.pool) as u32
    }
}

impl ActorContainer {
    /// How the visit under the name `name` ends: in a region of that name,
    /// the pool. A visit that cannot enter the region leaves everything as
    /// it is.
    pub closed spec fn visit_outcome(&self, tree: Tree, name: Seq<char>) -> PoolVisit {
        if !tree.can_enter(name) {
            PoolVisit {
                ok: false,
                records: pool_records(self.pool),
                free_stack: pool_free_stack(self.pool),
                tree,
            }
        } else {
            let pool = pool_visit_outcome(self.pool, "Pool"@, tree.entered(name));
            PoolVisit {
                ok: pool.ok,
                records: pool.records,
                free_stack: pool.free_stack,
                tree: pool.tree.closed(pool.ok),
            }
        }
    }
}

impl Visit for ActorContainer {
    /// Saves the actors to a writing visitor, which leaves them as they are,
    /// or loads actors from a reading one. The targets belong to one tick and
    /// are neither saved nor loaded.
    fn visit(&mut self, name: &str, visitor: &mut Visitor) -> (r: Result<(), VisitError>)
        requires
            visitor_tree(*old(visitor)).inside,
        ensures
            r is Ok <==> old(self).visit_outcome(visitor_tree(*old(visitor)), name@).ok,
            final(self).slots() == old(self).visit_outcome(
                visitor_tree(*old(visitor)),
                name@,
            ).records,
            final(self).free_slots() == old(self).visit_outcome(
                visitor_tree(*old(visitor)),
                name@,
            ).free_stack,
            visitor_tree(*final(visitor)) == old(self).visit_outcome(
                visitor_tree(*old(visitor)),
                name@,
            ).tree,
            visitor_tree(*final(visitor)).reading == visitor_tree(*old(visitor)).reading,
            r is Ok ==> visitor_tree(*final(visitor)).inside && visitor_tree(*final(visitor)).path
                == visitor_tree(*old(visitor)).path,
            !visitor_tree(*old(visitor)).reading ==> final(self).slots() == old(self).slots()
                && final(self).free_slots() == old(self).free_slots(),
            final(self).targets() == old(self).targets(),
    {
        proof {
            let tree = visitor_tree(*old(visitor));
            assert(tree.below(name@).drop_last() =~= tree.path);
        }
        enter_region(visitor, name)?;
        pool_visit(&mut self.pool, "Pool", visitor)?;
        leave_region(visitor)
    }
}

impl Default for ActorContainer {
    fn default() -> (c: Self)
        ensures
            c.wf(),
            c.slots() == Seq::<Record>::empty(),
            c.targets() == Seq::<TargetDescriptor>::empty(),
    {
        ActorContainer::new()
    }
}

} // verus!
