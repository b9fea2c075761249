//! What every actor has, whoever steers it.

use vstd::prelude::*;
use crate::handle::BodyHandle;
use crate::level::Physics;
use crate::persist::visit_uuid;
use crate::persist::enter_region;
use crate::persist::leave_region;
use crate::persist::visit_u32;
use crate::persist::visitor_tree;
use crate::persist::Outcome;
use crate::persist::Tree;
use rg3d_core::visitor::Visit;
use rg3d_core::visitor::VisitError;
use rg3d_core::visitor::Visitor;
use crate::scalar::Scalar;
use crate::scalar::Vector3;

verus! {

pub struct Character {
    pub health: Scalar,
    pub body: BodyHandle,
}

impl Character {
    /// Dead means that the health is a number and is zero or less.
    pub open spec fn dead(&self) -> bool {
        self.health.at_most(Scalar::spec_zero())
    }

    pub fn new(health: Scalar, body: BodyHandle) -> (c: Character)
        ensures
            c.health == health,
            c.body == body,
    {
        Character { health, body }
    }

    pub fn get_health(&self) -> (h: Scalar)
        ensures
            h == self.health,
    {
        self.health
    }

    pub fn get_body(&self) -> (b: BodyHandle)
        ensures
            b == self.body,
    {
        self.body
    }

    pub fn is_dead(&self) -> (b: bool)
        ensures
            b == self.dead(),
    {
        self.health.is_non_positive()
    }

    /// Where the character's body is.
    pub fn position(&self, physics: &Physics) -> (p: Vector3)
        requires
            physics.has_body(self.body),
        ensures
            p == physics.body(self.body).position,
    {
        match physics.find_body(self.body) {
            Some(i) => physics.bodies[i].position,
            None => Vector3::origin(),
        }
    }
}

impl Character {
    /// How the visit under the name `name` ends: in a region of that name,
    /// first the health, then the body.
    pub open spec fn visit_outcome(self, tree: Tree, name: Seq<char>) -> Outcome<Character> {
        if !tree.can_enter(name) {
            Outcome { ok: false, value: self, tree }
        } else {
            let health = tree.entered(name).number("Health"@, self.health.bits);
            let body = health.tree.id("Body"@, self.body.id);
            Outcome {
                ok: health.ok && body.ok,
                value: Character {
                    health: Scalar { bits: health.value },
                    body: BodyHandle {
                        id: if health.ok {
                            body.value
                        } else {
                            self.body.id
                        },
                    },
                },
                tree: if health.ok {
                    body.tree.closed(body.ok)
                } else {
                    health.tree
                },
            }
        }
    }
}

/// A visit that succeeds ends where it began, and a visit of any end adds to
/// what the visitor holds and takes nothing away.
pub proof fn lemma_character_visit_adds(shown: Character, tree: Tree, name: Seq<char>)
    ensures
        shown.visit_outcome(tree, name).tree.keeps(tree),
        shown.visit_outcome(tree, name).tree.reading == tree.reading,
        shown.visit_outcome(tree, name).tree.inside == tree.inside,
        shown.visit_outcome(tree, name).ok ==> shown.visit_outcome(tree, name).tree.path
            == tree.path,
{
    assert(tree.below(name).drop_last() =~= tree.path);
}

/// A character that was saved is loaded again as it was: whatever character
/// is shown to a reading visitor that stands where the writing one stood and
/// holds what that one held afterwards, it becomes the saved one, and the
/// visitor ends where it began.
pub proof fn lemma_character_round_trip(
    saved: Character,
    shown: Character,
    began: Tree,
    reader: Tree,
    name: Seq<char>,
)
    requires
        !began.reading,
        saved.visit_outcome(began, name).ok,
        reader.rereads(began, saved.visit_outcome(began, name).tree),
    ensures
        shown.visit_outcome(reader, name).ok,
        shown.visit_outcome(reader, name).value == saved,
        shown.visit_outcome(reader, name).tree == reader,
{
    let written = saved.visit_outcome(began, name).tree;
    let inner = began.entered(name);
    let health = inner.number("Health"@, saved.health.bits);
    let body = health.tree.id("Body"@, saved.body.id);
    reveal_strlit("Health");
    reveal_strlit("Body");
    assert("Health"@.len() != "Body"@.len());
    assert(written.regions.contains(began.below(name)));
    assert(written.fields.dom().contains((began.below(name), "Health"@)));
    assert(written.fields.dom().contains((began.below(name), "Body"@)));
    assert(reader.regions.insert(reader.below(name)) =~= reader.regions);
    assert(reader.below(name).drop_last() =~= reader.path);
    assert(shown.visit_outcome(reader, name).tree =~= reader);
}

impl Visit for Character {
    /// Saves the character to a writing visitor, which leaves it as it is,
    /// or loads it from a reading one: in a region of the given name, first
    /// the health, then the body. What cannot be loaded ends the visit
    /// inside the region, with what was loaded before it.
    fn visit(&mut self, name: &str, visitor: &mut Visitor) -> (r: Result<(), VisitError>)
        requires
            visitor_tree(*old(visitor)).inside,
        ensures
            r is Ok <==> old(self).visit_outcome(visitor_tree(*old(visitor)), name@).ok,
            *final(self) == old(self).visit_outcome(visitor_tree(*old(visitor)), name@).value,
            visitor_tree(*final(visitor)) == old(self).visit_outcome(
                visitor_tree(*old(visitor)),
                name@,
            ).tree,
            visitor_tree(*final(visitor)).reading == visitor_tree(*old(visitor)).reading,
            r is Ok ==> visitor_tree(*final(visitor)).inside && visitor_tree(*final(visitor)).path
                == visitor_tree(*old(visitor)).path,
            !visitor_tree(*old(visitor)).reading ==> *final(self) == *old(self),
            !visitor_tree(*old(visitor)).reading ==> (r is Ok <==> !visitor_tree(
                *old(visitor),
            ).has_region(name@)),
            visitor_tree(*old(visitor)).reading ==> visitor_tree(*final(visitor)).holds_what(
                visitor_tree(*old(visitor)),
            ),
    {
        proof {
            let tree = visitor_tree(*old(visitor));
            assert(tree.below(name@).drop_last() =~= tree.path);
            if tree.reading && tree.has_region(name@) {
                assert(tree.regions.insert(tree.below(name@)) =~= tree.regions);
            }
        }
        enter_region(visitor, name)?;
        proof {
            let inner = visitor_tree(*visitor);
            reveal_strlit("Health");
            reveal_strlit("Body");
            assert("Health"@.len() != "Body"@.len());
            assert("Health"@ != "Body"@);
            if !inner.reading {
                assert(inner.field("Health"@) is None);
                assert(inner.field("Body"@) is None);
            }
        }
        visit_u32(&mut self.health.bits, "Health", visitor)?;
        visit_uuid(&mut self.body.id, "Body", visitor)?;
        leave_region(visitor)
    }
}

} // verus!
