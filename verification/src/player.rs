//! The actor that a person steers.

use vstd::prelude::*;
use crate::character::lemma_character_round_trip;
use crate::character::lemma_character_visit_adds;
use crate::character::Character;
use crate::persist::enter_region;
use crate::persist::leave_region;
use crate::persist::visitor_tree;
use crate::persist::Outcome;
use crate::persist::Tree;
use rg3d_core::visitor::Visit;
use rg3d_core::visitor::VisitError;
use rg3d_core::visitor::Visitor;

verus! {

pub struct Player {
    pub character: Character,
}

impl Player {
    /// A player leaves the arena as soon as they are dead.
    pub open spec fn removable(&self) -> bool {
        self.character.dead()
    }

    pub fn new(character: Character) -> (p: Player)
        ensures
            p.character == character,
    {
        Player { character }
    }

    /// One tick. The engine moves a player from the person's input; of what
    /// the simulation keeps of a player a tick changes nothing.
    pub fn update(&mut self)
        ensures
            *final(self) == *old(self),
    {
    }

    pub fn can_be_removed(&self) -> (b: bool)
        ensures
            b == self.removable(),
    {
        self.character.is_dead()
    }
}

impl Player {
    /// How the visit under the name `name` ends: in a region of that name,
    /// the character.
    pub open spec fn visit_outcome(self, tree: Tree, name: Seq<char>) -> Outcome<Player> {
        if !tree.can_enter(name) {
            Outcome { ok: false, value: self, tree }
        } else {
            let character = self.character.visit_outcome(tree.entered(name), "Character"@);
            Outcome {
                ok: character.ok,
                value: Player { character: character.value },
                tree: character.tree.closed(character.ok),
            }
        }
    }
}

/// A visit that succeeds ends where it began, and a visit of any end adds to
/// what the visitor holds and takes nothing away.
pub proof fn lemma_player_visit_adds(shown: Player, tree: Tree, name: Seq<char>)
    ensures
        shown.visit_outcome(tree, name).tree.keeps(tree),
        shown.visit_outcome(tree, name).tree.reading == tree.reading,
        shown.visit_outcome(tree, name).tree.inside == tree.inside,
        shown.visit_outcome(tree, name).ok ==> shown.visit_outcome(tree, name).tree.path
            == tree.path,
{
    assert(tree.below(name).drop_last() =~= tree.path);
    lemma_character_visit_adds(shown.character, tree.entered(name), "Character"@);
}

/// A player that was saved is loaded again as they were: whatever player is
/// shown to a reading visitor that stands where the writing one stood and
/// holds what that one held afterwards, they become the saved one, and the
/// visitor ends where it began.
pub proof fn lemma_player_round_trip(
    saved: Player,
    shown: Player,
    began: Tree,
    reader: Tree,
    name: Seq<char>,
)
    requires
        !began.reading,
        saved.visit_outcome(began, name).ok,
        reader.rereads(began, saved.visit_outcome(began, name).tree),
    ensures
        shown.visit_outcome(reader, name).ok,
        shown.visit_outcome(reader, name).value == saved,
        shown.visit_outcome(reader, name).tree == reader,
{
    let written = saved.visit_outcome(began, name).tree;
    let character = saved.character.visit_outcome(began.entered(name), "Character"@);
    lemma_character_visit_adds(saved.character, began.entered(name), "Character"@);
    assert(written == character.tree.left());
    assert(character.tree.regions.contains(began.below(name)));
    assert(reader.regions.insert(reader.below(name)) =~= reader.regions);
    assert(reader.entered(name).keeps(character.tree)) by {
        assert forall|key: (Seq<Seq<char>>, Seq<char>)| #[trigger]
            character.tree.fields.dom().contains(key) implies reader.fields.dom().contains(key)
            && reader.fields[key] == character.tree.fields[key] by {
            assert(written.fields.dom().contains(key));
        }
    }
    assert(reader.below(name).drop_last() =~= reader.path);
    lemma_character_round_trip(
        saved.character,
        shown.character,
        began.entered(name),
        reader.entered(name),
        "Character"@,
    );
    assert(shown.visit_outcome(reader, name).tree =~= reader);
}

impl Visit for Player {
    /// Saves the player to a writing visitor, which leaves them as they
    /// are, or loads them from a reading one: in a region of the given name,
    /// the character.
    fn visit(&mut self, name: &str, visitor: &mut Visitor) -> (r: Result<(), VisitError>)
        requires
            visitor_tree(*old(visitor)).inside,
        ensures
            r is Ok <==> old(self).visit_outcome(visitor_tree(*old(visitor)), name@).ok,
            *final(self) == old(self).visit_outcome(visitor_tree(*old(visitor)), name@).value,
            visitor_tree(*final(visitor)) == old(self).visit_outcome(
                visitor_tree(*old(visitor)),
                name@,
            ).tree,
            visitor_tree(*final(visitor)).reading == visitor_tree(*old(visitor)).reading,
            r is Ok ==> visitor_tree(*final(visitor)).inside && visitor_tree(*final(visitor)).path
                == visitor_tree(*old(visitor)).path,
            !visitor_tree(*old(visitor)).reading ==> *final(self) == *old(self),
            !visitor_tree(*old(visitor)).reading ==> (r is Ok <==> !visitor_tree(
                *old(visitor),
            ).has_region(name@)),
            visitor_tree(*old(visitor)).reading ==> visitor_tree(*final(visitor)).holds_what(
                visitor_tree(*old(visitor)),
            ),
    {
        proof {
            let tree = visitor_tree(*old(visitor));
            assert(tree.below(name@).drop_last() =~= tree.path);
            if tree.reading && tree.has_region(name@) {
                assert(tree.regions.insert(tree.below(name@)) =~= tree.regions);
            }
        }
        enter_region(visitor, name)?;
        proof {
            let inner = visitor_tree(*visitor);
            if !inner.reading {
                assert(!inner.has_region("Character"@));
            }
        }
        self.character.visit("Character", visitor)?;
        leave_region(visitor)
    }
}

} // verus!
