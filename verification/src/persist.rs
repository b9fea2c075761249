//! The visitor of `rg3d_core`, as far as saving and loading use it.
//!
//! A visitor holds a tree of named regions with named fields, and stands in
//! one of the regions. It either writes, and then every visit adds to the tree
//! what it is shown, or reads, and then every visit overwrites what it is
//! shown with what the tree holds. A region or a field is found by its name;
//! of several of one name the first counts. What is stated here of the
//! visitor's methods was read from their source and is believed, not proved.

use vstd::prelude::*;
use rg3d_core::pool::Pool;
use rg3d_core::uuid::Uuid;
use rg3d_core::visitor::Visit;
use rg3d_core::visitor::VisitError;
use rg3d_core::visitor::Visitor;
use crate::actor::Actor;
use crate::pool::pool_free_stack;
use crate::pool::pool_records;
use crate::pool::Record;

verus! {

#[verifier::external_type_specification]
#[verifier::external_body]
pub struct ExVisitor(Visitor);

#[verifier::external_type_specification]
#[verifier::external_body]
pub struct ExVisitError(VisitError);

/// The way to a region: the names of the regions entered, outermost first.
/// The outermost region has the empty path.
pub type Path = Seq<Seq<char>>;

/// What a field holds.
pub enum Stored {
    /// A number of 8 bits.
    Byte(u8),
    /// A number of 32 bits.
    Number(u32),
    /// An identifier of 128 bits.
    Id(u128),
    /// Something of another kind.
    Other,
}

/// What a visitor holds and where it stands.
#[verifier::ext_equal]
pub struct Tree {
    /// The visitor reads; one that does not read writes.
    pub reading: bool,
    /// The visitor stands in a region. One that has left the outermost region
    /// stands in none, and panics on every further visit.
    pub inside: bool,
    /// The region in which the visitor stands.
    pub path: Path,
    /// The regions that can be found.
    pub regions: Set<Path>,
    /// The fields that can be found, by region and name.
    pub fields: Map<(Path, Seq<char>), Stored>,
}

impl Tree {
    /// The region `name` of the region in which the visitor stands.
    pub open spec fn below(self, name: Seq<char>) -> Path {
        self.path.push(name)
    }

    /// Whether the region in which the visitor stands has a region `name`.
    pub open spec fn has_region(self, name: Seq<char>) -> bool {
        self.regions.contains(self.below(name))
    }

    /// Whether `enter_region` succeeds: a reading visitor needs the region
    /// to be there, a writing one needs it not to be.
    pub open spec fn can_enter(self, name: Seq<char>) -> bool {
        self.reading == self.has_region(name)
    }

    /// The visitor after it has entered the region `name`, which is there
    /// from then on.
    pub open spec fn entered(self, name: Seq<char>) -> Tree {
        Tree {
            reading: self.reading,
            inside: self.inside,
            path: self.below(name),
            regions: self.regions.insert(self.below(name)),
            fields: self.fields,
        }
    }

    /// The visitor after it has left the region in which it stands for the
    /// one around it.
    pub open spec fn left(self) -> Tree {
        Tree {
            reading: self.reading,
            inside: self.inside,
            path: self.path.drop_last(),
            regions: self.regions,
            fields: self.fields,
        }
    }

    /// The visitor after it has left the outermost region.
    pub open spec fn lost(self) -> Tree {
        Tree {
            reading: self.reading,
            inside: false,
            path: self.path,
            regions: self.regions,
            fields: self.fields,
        }
    }

    /// What the field `name` of the region in which the visitor stands
    /// holds, if there is such a field.
    pub open spec fn field(self, name: Seq<char>) -> Option<Stored> {
        if self.fields.dom().contains((self.path, name)) {
            Some(self.fields[(self.path, name)])
        } else {
            None
        }
    }

    /// The visitor after the field `name` was added to the region in which
    /// it stands.
    pub open spec fn with_field(self, name: Seq<char>, stored: Stored) -> Tree {
        Tree {
            reading: self.reading,
            inside: self.inside,
            path: self.path,
            regions: self.regions,
            fields: self.fields.insert((self.path, name), stored),
        }
    }

    /// The region in which the visitor stands has neither fields nor regions.
    pub open spec fn is_bare(self) -> bool {
        &&& forall|name: Seq<char>| #[trigger] self.field(name) is None
        &&& forall|name: Seq<char>| !#[trigger] self.has_region(name)
    }

    /// Whether a visit of a value that is stored as `stored` succeeds on the
    /// field `name`: a reading visitor needs a field of that kind, a writing
    /// one needs no field of that name.
    pub open spec fn can_visit(self, name: Seq<char>, stored: Stored) -> bool {
        if self.reading {
            match (self.field(name), stored) {
                (Some(Stored::Number(_)), Stored::Number(_)) => true,
                (Some(Stored::Id(_)), Stored::Id(_)) => true,
                _ => false,
            }
        } else {
            self.field(name) is None
        }
    }

    /// The value after a visit of the field `name`: what the field holds
    /// where a reading visitor succeeds, the value shown otherwise.
    pub open spec fn visited(self, name: Seq<char>, shown: Stored) -> Stored {
        if self.reading && self.can_visit(name, shown) {
            self.field(name)->0
        } else {
            shown
        }
    }

    /// The visitor after a visit of the field `name`: with the field added
    /// where a writing visitor succeeds, as before otherwise.
    pub open spec fn after_visit(self, name: Seq<char>, shown: Stored) -> Tree {
        if !self.reading && self.can_visit(name, shown) {
            self.with_field(name, shown)
        } else {
            self
        }
    }
}

/// How a visit ends.
pub struct Outcome<V> {
    /// The visit succeeds.
    pub ok: bool,
    /// The value after the visit.
    pub value: V,
    /// The visitor after the visit.
    pub tree: Tree,
}

impl Tree {
    /// How the visit of a number under the name `name` ends.
    pub open spec fn number(self, name: Seq<char>, shown: u32) -> Outcome<u32> {
        Outcome {
            ok: self.can_visit(name, Stored::Number(shown)),
            value: match self.visited(name, Stored::Number(shown)) {
                Stored::Number(number) => number,
                _ => shown,
            },
            tree: self.after_visit(name, Stored::Number(shown)),
        }
    }

    /// How the visit of an identifier under the name `name` ends.
    pub open spec fn id(self, name: Seq<char>, shown: u128) -> Outcome<u128> {
        Outcome {
            ok: self.can_visit(name, Stored::Id(shown)),
            value: match self.visited(name, Stored::Id(shown)) {
                Stored::Id(id) => id,
                _ => shown,
            },
            tree: self.after_visit(name, Stored::Id(shown)),
        }
    }

    /// The visitor at the end of a visit that had entered a region: back in
    /// the region around where the visit succeeded, still in the region
    /// where it failed.
    pub open spec fn closed(self, ok: bool) -> Tree {
        if ok {
            self.left()
        } else {
            self
        }
    }

    /// The visitor holds every region and every field that `saved` holds.
    pub open spec fn keeps(self, saved: Tree) -> bool {
        &&& saved.regions.subset_of(self.regions)
        &&& forall|key: (Path, Seq<char>)| #[trigger]
            saved.fields.dom().contains(key) ==> self.fields.dom().contains(key)
                && self.fields[key] == saved.fields[key]
    }

    /// A reading visitor stands where a writing visitor stood when it began
    /// to save, and holds what that visitor held after it or later.
    pub open spec fn rereads(self, began: Tree, saved: Tree) -> bool {
        &&& self.reading
        &&& self.inside
        &&& self.path == began.path
        &&& self.keeps(saved)
    }

    /// The visitor differs from `before` at most in where it stands: it holds
    /// what `before` holds.
    pub open spec fn holds_what(self, before: Tree) -> bool {
        &&& self.reading == before.reading
        &&& self.regions == before.regions
        &&& self.fields == before.fields
    }
}

/// What the visitor holds and where it stands.
pub uninterp spec fn visitor_tree(visitor: Visitor) -> Tree;

/// How a visit of a pool ends.
pub struct PoolVisit {
    /// The visit succeeds.
    pub ok: bool,
    /// The records of the pool after the visit.
    pub records: Seq<Record>,
    /// The free indices of the pool after the visit.
    pub free_stack: Seq<u32>,
    /// The visitor after the visit.
    pub tree: Tree,
}

/// How the visit of the pool under the name `name` ends, for a visitor that
/// holds `tree`.
pub uninterp spec fn pool_visit_outcome(pool: Pool<Actor>, name: Seq<char>, tree: Tree) -> PoolVisit;

/// `Visitor::is_reading`: the visitor's mode.
#[verifier::external_body]
pub(crate) fn is_reading(visitor: &Visitor) -> (reading: bool)
    ensures
        reading == visitor_tree(*visitor).reading,
{
    visitor.is_reading()
}

/// `Visitor::enter_region`: moves into the region of that name, which a
/// writing visitor first makes, without fields and without regions. Fails,
/// and stays where it is, where a reading visitor finds no such region or a
/// writing one finds one already. Left out: a visitor that stands in no
/// region (the visitor panics).
#[verifier::external_body]
pub(crate) fn enter_region(visitor: &mut Visitor, name: &str) -> (r: Result<(), VisitError>)
    requires
        visitor_tree(*old(visitor)).inside,
    ensures
        r is Ok <==> visitor_tree(*old(visitor)).can_enter(name@),
        r is Ok ==> visitor_tree(*final(visitor)) == visitor_tree(*old(visitor)).entered(name@),
        r is Ok && !visitor_tree(*old(visitor)).reading ==> visitor_tree(*final(visitor)).is_bare(),
        r is Err ==> visitor_tree(*final(visitor)) == visitor_tree(*old(visitor)),
{
    visitor.enter_region(name)
}

/// `Visitor::leave_region`: moves back to the region around. Fails in the
/// outermost region, and then stands in no region. Left out: a visitor that
/// stands in no region (the visitor panics).
#[verifier::external_body]
pub(crate) fn leave_region(visitor: &mut Visitor) -> (r: Result<(), VisitError>)
    requires
        visitor_tree(*old(visitor)).inside,
    ensures
        r is Ok <==> visitor_tree(*old(visitor)).path.len() > 0,
        r is Ok ==> visitor_tree(*final(visitor)) == visitor_tree(*old(visitor)).left(),
        r is Err ==> visitor_tree(*final(visitor)) == visitor_tree(*old(visitor)).lost(),
{
    visitor.leave_region()
}

/// `Visit::visit` of `u32`: a writing visitor adds the number as a field of
/// the region in which it stands, and fails where a field of that name is
/// there; a reading one overwrites the number with what the field holds, and
/// fails where there is no such field or it holds no such number. Left out:
/// a visitor that stands in no region (the visitor panics).
#[verifier::external_body]
pub(crate) fn visit_u32(value: &mut u32, name: &str, visitor: &mut Visitor) -> (r: Result<
    (),
    VisitError,
>)
    requires
        visitor_tree(*old(visitor)).inside,
    ensures
        r is Ok <==> visitor_tree(*old(visitor)).can_visit(name@, Stored::Number(*old(value))),
        Stored::Number(*final(value)) == visitor_tree(*old(visitor)).visited(
            name@,
            Stored::Number(*old(value)),
        ),
        visitor_tree(*final(visitor)) == visitor_tree(*old(visitor)).after_visit(
            name@,
            Stored::Number(*old(value)),
        ),
{
    value.visit(name, visitor)
}

/// `Visit::visit` of `Uuid`, for a number of 128 bits taken as a `Uuid`: a
/// writing visitor adds it as a field of the region in which it stands, and
/// fails where a field of that name is there; a reading one overwrites it
/// with what the field holds, and fails where there is no such field or it
/// holds no such identifier. Left out: a visitor that stands in no region
/// (the visitor panics).
#[verifier::external_body]
pub(crate) fn visit_uuid(value: &mut u128, name: &str, visitor: &mut Visitor) -> (r: Result<
    (),
    VisitError,
>)
    requires
        visitor_tree(*old(visitor)).inside,
    ensures
        r is Ok <==> visitor_tree(*old(visitor)).can_visit(name@, Stored::Id(*old(value))),
        Stored::Id(*final(value)) == visitor_tree(*old(visitor)).visited(
            name@,
            Stored::Id(*old(value)),
        ),
        visitor_tree(*final(visitor)) == visitor_tree(*old(visitor)).after_visit(
            name@,
            Stored::Id(*old(value)),
        ),
{
    let mut uuid = Uuid::from_u128(*value);
    let result = uuid.visit(name, visitor);
    *value = uuid.as_u128();
    result
}

/// `VisitError::from` a `String`: the error that carries a message of the
/// caller's own.
#[verifier::external_body]
pub(crate) fn user_error(text: String) -> (error: VisitError) {
    VisitError::from(text)
}

/// `Visit::visit` of the actor pool: a writing visitor stores the records and
/// the stack of free indices and leaves the pool as it is; a reading one
/// appends the stored records and free indices to those of the pool. How the
/// visit ends follows from the pool, the name and what the visitor holds, and
/// has a name of its own here. The mode stays, and a visit that succeeds ends in
/// the region in which it began. Left out: a visitor that stands in no
/// region (the visitor panics).
#[verifier::external_body]
pub(crate) fn pool_visit(pool: &mut Pool<Actor>, name: &str, visitor: &mut Visitor) -> (r: Result<
    (),
    VisitError,
>)
    requires
        visitor_tree(*old(visitor)).inside,
    ensures
        r is Ok <==> pool_visit_outcome(*old(pool), name@, visitor_tree(*old(visitor))).ok,
        pool_records(*final(pool)) == pool_visit_outcome(*old(pool), name@, visitor_tree(*old(visitor))).records,
        pool_free_stack(*final(pool)) == pool_visit_outcome(
            *old(pool),
            name@,
            visitor_tree(*old(visitor)),
        ).free_stack,
        visitor_tree(*final(visitor)) == pool_visit_outcome(*old(pool), name@, visitor_tree(*old(visitor))).tree,
        visitor_tree(*final(visitor)).reading == visitor_tree(*old(visitor)).reading,
        r is Ok ==> visitor_tree(*final(visitor)).inside && visitor_tree(*final(visitor)).path
            == visitor_tree(*old(visitor)).path,
        !visitor_tree(*old(visitor)).reading ==> pool_records(*final(pool)) == pool_records(
            *old(pool),
        ) && pool_free_stack(*final(pool)) == pool_free_stack(*old(pool)),
{
    pool.visit(name, visitor)
}

} // verus!
