//! The actor that steers itself.
//!
//! Each tick a living bot looks over the targets of that tick and goes for
//! the closest one that is alive and is not the bot itself. A dead bot stays
//! in the arena for a number of ticks before it may be removed.

use vstd::prelude::*;
use crate::actor::TargetDescriptor;
use crate::character::lemma_character_round_trip;
use crate::character::lemma_character_visit_adds;
use crate::persist::Stored;
use crate::character::Character;
use crate::handle::ActorHandle;
use crate::scalar::Scalar;
use crate::persist::enter_region;
use crate::persist::leave_region;
use crate::persist::visit_u32;
use crate::persist::visitor_tree;
use crate::persist::Outcome;
use crate::persist::Tree;
use rg3d_core::visitor::Visit;
use rg3d_core::visitor::VisitError;
use rg3d_core::visitor::Visitor;

verus! {

/// Pattern of a quiet "not a number", which stands for a distance that was
/// not measured.
pub const UNMEASURED: u32 = 0x7FC0_0000;

pub struct Bot {
    pub character: Character,
    /// Whom the bot goes for.
    pub target: Option<TargetDescriptor>,
    /// Ticks that the bot, once dead, still stays in the arena.
    pub despawn_delay: u32,
}

/// The distance measured to the actor in slot `slot`.
pub open spec fn measured(ranges: Seq<Scalar>, slot: int) -> Scalar {
    if 0 <= slot < ranges.len() {
        ranges[slot]
    } else {
        Scalar { bits: UNMEASURED }
    }
}

/// A target that the actor `me` may go for: another actor, with health above
/// zero, at a measured distance.
pub open spec fn is_candidate(
    me: ActorHandle,
    targets: Seq<TargetDescriptor>,
    ranges: Seq<Scalar>,
    j: int,
) -> bool {
    &&& 0 <= j < targets.len()
    &&& targets[j].handle != me
    &&& Scalar::spec_zero().less(targets[j].health)
    &&& !measured(ranges, targets[j].handle.index as int).nan()
}

/// How far target `j` is, as a rank.
pub open spec fn separation(targets: Seq<TargetDescriptor>, ranges: Seq<Scalar>, j: int) -> int {
    measured(ranges, targets[j].handle.index as int).rank()
}

/// Target `j` is the one to go for: a candidate, no candidate is closer, and
/// of the candidates that are as close it comes first.
pub open spec fn is_choice(
    me: ActorHandle,
    targets: Seq<TargetDescriptor>,
    ranges: Seq<Scalar>,
    j: int,
) -> bool {
    &&& is_candidate(me, targets, ranges, j)
    &&& forall|k: int| #[trigger]
        is_candidate(me, targets, ranges, k) ==> separation(targets, ranges, j) <= separation(
            targets,
            ranges,
            k,
        )
    &&& forall|k: int| #[trigger]
        is_candidate(me, targets, ranges, k) && k < j ==> separation(targets, ranges, j)
            < separation(targets, ranges, k)
}

/// The target that `me` goes for, if there is a candidate.
pub open spec fn choice(
    me: ActorHandle,
    targets: Seq<TargetDescriptor>,
    ranges: Seq<Scalar>,
) -> Option<TargetDescriptor> {
    if exists|j: int| is_choice(me, targets, ranges, j) {
        Some(targets[choose|j: int| is_choice(me, targets, ranges, j)])
    } else {
        None
    }
}

/// The distance at position `slot`; a distance that is not a number where
/// none was measured.
pub fn range_to(ranges: &Vec<Scalar>, slot: usize) -> (r: Scalar)
    ensures
        r == measured(ranges@, slot as int),
{
    if slot < ranges.len() {
        ranges[slot]
    } else {
        Scalar::from_bits(UNMEASURED)
    }
}

/// Position in `targets` of the target that `me` goes for.
pub fn select_target(me: ActorHandle, targets: &Vec<TargetDescriptor>, ranges: &Vec<Scalar>) -> (r:
    Option<usize>)
    ensures
        match r {
            Some(j) => is_choice(me, targets@, ranges@, j as int),
            None => forall|k: int| !is_candidate(me, targets@, ranges@, k),
        },
        r is Some ==> choice(me, targets@, ranges@) == Some(targets@[r->0 as int]),
        r is None ==> choice(me, targets@, ranges@) is None,
{
    let mut best: Option<usize> = None;
    let mut i: usize = 0;
    while i < targets.len()
        invariant
            i <= targets@.len(),
            match best {
                Some(j) => {
                    &&& j < i
                    &&& is_candidate(me, targets@, ranges@, j as int)
                    &&& forall|k: int|
                        0 <= k < i && #[trigger] is_candidate(me, targets@, ranges@, k)
                            ==> separation(targets@, ranges@, j as int) <= separation(
                            targets@,
                            ranges@,
                            k,
                        )
                    &&& forall|k: int|
                        0 <= k < j && #[trigger] is_candidate(me, targets@, ranges@, k)
                            ==> separation(targets@, ranges@, j as int) < separation(
                            targets@,
                            ranges@,
                            k,
                        )
                },
                None => forall|k: int|
                    0 <= k < i ==> !#[trigger] is_candidate(me, targets@, ranges@, k),
            },
        decreases targets@.len() - i,
    {
        let target = &targets[i];
        let distance = range_to(ranges, target.handle.index as usize);
        if target.handle != me && target.health.is_positive() && !distance.is_nan() {
            match best {
                Some(j) => {
                    let best_distance = range_to(ranges, targets[j].handle.index as usize);
                    if distance.lt(best_distance) {
                        best = Some(i);
                    }
                },
                None => {
                    best = Some(i);
                },
            }
        }
        i += 1;
    }
    proof {
        if let Some(j) = best {
            lemma_choice_is_unique(me, targets@, ranges@, j as int);
        }
    }
    best
}

/// At most one target is the one to go for.
pub proof fn lemma_choice_is_unique(
    me: ActorHandle,
    targets: Seq<TargetDescriptor>,
    ranges: Seq<Scalar>,
    j: int,
)
    requires
        is_choice(me, targets, ranges, j),
    ensures
        forall|k: int| is_choice(me, targets, ranges, k) ==> k == j,
        choice(me, targets, ranges) == Some(targets[j]),
{
    assert forall|k: int| is_choice(me, targets, ranges, k) implies k == j by {
        assert(is_candidate(me, targets, ranges, k));
        assert(is_candidate(me, targets, ranges, j));
    }
    let c = choose|k: int| is_choice(me, targets, ranges, k);
    assert(is_choice(me, targets, ranges, c));
}

/// Whom an actor goes for is one of the targets, is alive, and is never the
/// actor itself.
pub proof fn lemma_choice_is_another(
    me: ActorHandle,
    targets: Seq<TargetDescriptor>,
    ranges: Seq<Scalar>,
)
    ensures
        choice(me, targets, ranges) is Some ==> {
            let chosen = choice(me, targets, ranges)->0;
            &&& chosen.handle != me
            &&& Scalar::spec_zero().less(chosen.health)
            &&& targets.contains(chosen)
        },
{
    if exists|j: int| is_choice(me, targets, ranges, j) {
        let j = choose|j: int| is_choice(me, targets, ranges, j);
        assert(is_candidate(me, targets, ranges, j));
        assert(targets[j] == choice(me, targets, ranges)->0);
    }
}

impl Bot {
    /// A bot may be removed once it is dead and its delay has run out.
    pub open spec fn removable(&self) -> bool {
        self.character.dead() && self.despawn_delay == 0
    }

    /// The bot after one tick in which it saw `targets` at `ranges`.
    pub open spec fn after_tick(
        self,
        me: ActorHandle,
        targets: Seq<TargetDescriptor>,
        ranges: Seq<Scalar>,
    ) -> Bot {
        if self.character.dead() {
            Bot {
                character: self.character,
                target: None,
                despawn_delay: if self.despawn_delay > 0 {
                    (self.despawn_delay - 1) as u32
                } else {
                    0
                },
            }
        } else {
            Bot {
                character: self.character,
                target: choice(me, targets, ranges),
                despawn_delay: self.despawn_delay,
            }
        }
    }

    /// The bot once it has been told that the actor `removed` is gone.
    pub open spec fn forgetting(self, removed: ActorHandle) -> Bot {
        if self.target is Some && self.target->0.handle == removed {
            Bot { character: self.character, target: None, despawn_delay: self.despawn_delay }
        } else {
            self
        }
    }

    pub fn new(character: Character, despawn_delay: u32) -> (b: Bot)
        ensures
            b.character == character,
            b.target is None,
            b.despawn_delay == despawn_delay,
    {
        Bot { character, target: None, despawn_delay }
    }

    pub fn can_be_removed(&self) -> (b: bool)
        ensures
            b == self.removable(),
    {
        self.character.is_dead() && self.despawn_delay == 0
    }

    /// One tick of the bot whose handle is `me`.
    pub fn update(&mut self, me: ActorHandle, targets: &Vec<TargetDescriptor>, ranges: &Vec<Scalar>)
        ensures
            *final(self) == old(self).after_tick(me, targets@, ranges@),
            final(self).target is Some ==> final(self).target->0.handle != me,
    {
        proof {
            lemma_choice_is_another(me, targets@, ranges@);
        }
        if self.character.is_dead() {
            self.target = None;
            if self.despawn_delay > 0 {
                self.despawn_delay = self.despawn_delay - 1;
            }
        } else {
            match select_target(me, targets, ranges) {
                Some(j) => {
                    self.target = Some(targets[j]);
                },
                None => {
                    self.target = None;
                },
            }
        }
    }

    /// Drops the target if it is the actor that is being removed.
    pub fn on_actor_removed(&mut self, removed: ActorHandle)
        ensures
            *final(self) == old(self).forgetting(removed),
    {
        let drop = match &self.target {
            Some(target) => target.handle == removed,
            None => false,
        };
        if drop {
            self.target = None;
        }
    }
}

impl Bot {
    /// How the visit under the name `name` ends: in a region of that name,
    /// first the character, then the delay. The target is left as it is.
    pub open spec fn visit_outcome(self, tree: Tree, name: Seq<char>) -> Outcome<Bot> {
        if !tree.can_enter(name) {
            Outcome { ok: false, value: self, tree }
        } else {
            let character = self.character.visit_outcome(tree.entered(name), "Character"@);
            let delay = character.tree.number("DespawnDelay"@, self.despawn_delay);
            Outcome {
                ok: character.ok && delay.ok,
                value: Bot {
                    character: character.value,
                    target: self.target,
                    despawn_delay: if character.ok {
                        delay.value
                    } else {
                        self.despawn_delay
                    },
                },
                tree: if character.ok {
                    delay.tree.closed(delay.ok)
                } else {
                    character.tree
                },
            }
        }
    }
}

/// A visit that succeeds ends where it began, and a visit of any end adds to
/// what the visitor holds and takes nothing away.
pub proof fn lemma_bot_visit_adds(shown: Bot, tree: Tree, name: Seq<char>)
    ensures
        shown.visit_outcome(tree, name).tree.keeps(tree),
        shown.visit_outcome(tree, name).tree.reading == tree.reading,
        shown.visit_outcome(tree, name).tree.inside == tree.inside,
        shown.visit_outcome(tree, name).ok ==> shown.visit_outcome(tree, name).tree.path
            == tree.path,
{
    assert(tree.below(name).drop_last() =~= tree.path);
    lemma_character_visit_adds(shown.character, tree.entered(name), "Character"@);
}

/// A bot that was saved is loaded again as it was, but for its target, which
/// is not saved: whatever bot is shown to a reading visitor that stands
/// where the writing one stood and holds what that one held afterwards, it
/// becomes the saved one with the target that it had, and the visitor ends
/// where it began.
pub proof fn lemma_bot_round_trip(saved: Bot, shown: Bot, began: Tree, reader: Tree, name: Seq<char>)
    requires
        !began.reading,
        saved.visit_outcome(began, name).ok,
        reader.rereads(began, saved.visit_outcome(began, name).tree),
    ensures
        shown.visit_outcome(reader, name).ok,
        shown.visit_outcome(reader, name).value == (Bot {
            character: saved.character,
            target: shown.target,
            despawn_delay: saved.despawn_delay,
        }),
        shown.visit_outcome(reader, name).tree == reader,
{
    let written = saved.visit_outcome(began, name).tree;
    let character = saved.character.visit_outcome(began.entered(name), "Character"@);
    let delay = character.tree.number("DespawnDelay"@, saved.despawn_delay);
    lemma_character_visit_adds(saved.character, began.entered(name), "Character"@);
    assert(written == delay.tree.left());
    assert(delay.tree == character.tree.with_field(
        "DespawnDelay"@,
        Stored::Number(saved.despawn_delay),
    ));
    assert(character.tree.path == began.below(name));
    assert(character.tree.regions.contains(began.below(name)));
    assert(written.fields.dom().contains((began.below(name), "DespawnDelay"@)));
    assert(reader.regions.insert(reader.below(name)) =~= reader.regions);
    assert(reader.below(name).drop_last() =~= reader.path);
    assert(reader.entered(name).keeps(character.tree)) by {
        assert forall|key: (Seq<Seq<char>>, Seq<char>)| #[trigger]
            character.tree.fields.dom().contains(key) implies reader.fields.dom().contains(key)
            && reader.fields[key] == character.tree.fields[key] by {
            assert(written.fields.dom().contains(key));
        }
    }
    lemma_character_round_trip(
        saved.character,
        shown.character,
        began.entered(name),
        reader.entered(name),
        "Character"@,
    );
    assert(shown.visit_outcome(reader, name).tree =~= reader);
}

impl Visit for Bot {
    /// Saves the bot to a writing visitor, which leaves it as it is, or
    /// loads it from a reading one. The target belongs to one tick and is
    /// neither saved nor loaded.
    fn visit(&mut self, name: &str, visitor: &mut Visitor) -> (r: Result<(), VisitError>)
        requires
            visitor_tree(*old(visitor)).inside,
        ensures
            r is Ok <==> old(self).visit_outcome(visitor_tree(*old(visitor)), name@).ok,
            *final(self) == old(self).visit_outcome(visitor_tree(*old(visitor)), name@).value,
            visitor_tree(*final(visitor)) == old(self).visit_outcome(
                visitor_tree(*old(visitor)),
                name@,
            ).tree,
            visitor_tree(*final(visitor)).reading == visitor_tree(*old(visitor)).reading,
            r is Ok ==> visitor_tree(*final(visitor)).inside && visitor_tree(*final(visitor)).path
                == visitor_tree(*old(visitor)).path,
            !visitor_tree(*old(visitor)).reading ==> *final(self) == *old(self),
            !visitor_tree(*old(visitor)).reading ==> (r is Ok <==> !visitor_tree(
                *old(visitor),
            ).has_region(name@)),
            visitor_tree(*old(visitor)).reading ==> visitor_tree(*final(visitor)).holds_what(
                visitor_tree(*old(visitor)),
            ),
            final(self).target == old(self).target,
    {
        proof {
            let tree = visitor_tree(*old(visitor));
            assert(tree.below(name@).drop_last() =~= tree.path);
            if tree.reading && tree.has_region(name@) {
                assert(tree.regions.insert(tree.below(name@)) =~= tree.regions);
            }
        }
        enter_region(visitor, name)?;
        proof {
            let inner = visitor_tree(*visitor);
            if !inner.reading {
                assert(!inner.has_region("Character"@));
                assert(inner.field("DespawnDelay"@) is None);
            }
        }
        self.character.visit("Character", visitor)?;
        visit_u32(&mut self.despawn_delay, "DespawnDelay", visitor)?;
        leave_region(visitor)
    }
}

} // verus!
