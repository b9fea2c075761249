//! Rules of a match, chosen when a new game starts.

use vstd::prelude::*;
use crate::scalar::Scalar;
use crate::text::decimal;
use crate::text::numbered;
use crate::persist::enter_region;
use crate::persist::is_reading;
use crate::persist::leave_region;
use crate::persist::user_error;
use crate::persist::visit_u32;
use crate::persist::visitor_tree;
use crate::persist::Outcome;
use crate::persist::Stored;
use crate::persist::Tree;
use rg3d_core::visitor::Visit;
use rg3d_core::visitor::VisitError;
use rg3d_core::visitor::Visitor;

verus! {

/// Every player for themselves.
#[derive(Copy, Clone, Debug, PartialEq, Eq, Structural)]
pub struct DeathMatch {
    pub time_limit_secs: Scalar,
    pub frag_limit: u32,
}

impl Default for DeathMatch {
    fn default() -> (d: Self)
        ensures
            d.time_limit_secs == Scalar::spec_zero(),
            d.frag_limit == 0,
    {
        Self { time_limit_secs: Scalar::zero(), frag_limit: 0 }
    }
}

impl DeathMatch {
    /// How the visit under the name `name` ends.
    pub open spec fn visit_outcome(self, tree: Tree, name: Seq<char>) -> Outcome<DeathMatch> {
        if !tree.can_enter(name) {
            Outcome { ok: false, value: self, tree }
        } else {
            let time = tree.entered(name).number("TimeLimit"@, self.time_limit_secs.bits);
            let limit = time.tree.number("FragLimit"@, self.frag_limit);
            Outcome {
                ok: time.ok && limit.ok,
                value: DeathMatch {
                    time_limit_secs: Scalar { bits: time.value },
                    frag_limit: if time.ok {
                        limit.value
                    } else {
                        self.frag_limit
                    },
                },
                tree: if time.ok {
                    limit.tree.closed(limit.ok)
                } else {
                    time.tree
                },
            }
        }
    }
}

/// A visit that succeeds ends where it began, and a visit of any end adds to
/// what the visitor holds and takes nothing away.
pub proof fn lemma_death_match_visit_adds(shown: DeathMatch, tree: Tree, name: Seq<char>)
    ensures
        shown.visit_outcome(tree, name).tree.keeps(tree),
        shown.visit_outcome(tree, name).tree.reading == tree.reading,
        shown.visit_outcome(tree, name).tree.inside == tree.inside,
        shown.visit_outcome(tree, name).ok ==> shown.visit_outcome(tree, name).tree.path
            == tree.path,
{
    assert(tree.below(name).drop_last() =~= tree.path);
}

/// Limits that were saved are loaded again as they were: whatever limits are
/// shown to a reading visitor that stands where the writing one stood and
/// holds what that one held afterwards, they become the saved ones, and the
/// visitor ends where it began.
pub proof fn lemma_death_match_round_trip(
    saved: DeathMatch,
    shown: DeathMatch,
    began: Tree,
    reader: Tree,
    name: Seq<char>,
)
    requires
        !began.reading,
        saved.visit_outcome(began, name).ok,
        reader.rereads(began, saved.visit_outcome(began, name).tree),
    ensures
        shown.visit_outcome(reader, name).ok,
        shown.visit_outcome(reader, name).value == saved,
        shown.visit_outcome(reader, name).tree == reader,
{
    let written = saved.visit_outcome(began, name).tree;
    reveal_strlit("TimeLimit");
    reveal_strlit("FragLimit");
    assert("TimeLimit"@[0] != "FragLimit"@[0]);
    assert("TimeLimit"@ != "FragLimit"@);
    assert(written.regions.contains(began.below(name)));
    assert(written.fields.dom().contains((began.below(name), "TimeLimit"@)));
    assert(written.fields.dom().contains((began.below(name), "FragLimit"@)));
    assert(reader.regions.insert(reader.below(name)) =~= reader.regions);
    assert(reader.below(name).drop_last() =~= reader.path);
    assert(shown.visit_outcome(reader, name).tree =~= reader);
}

impl Visit for DeathMatch {
    /// Saves the limits to a writing visitor, which leaves them as they
    /// are, or loads them from a reading one: in a region of the given name,
    /// first the time limit, then the other limit. A limit that cannot be
    /// loaded ends the visit inside the region, with the limits that were
    /// loaded before it.
    fn visit(&mut self, name: &str, visitor: &mut Visitor) -> (r: Result<(), VisitError>)
        requires
            visitor_tree(*old(visitor)).inside,
        ensures
            r is Ok <==> old(self).visit_outcome(visitor_tree(*old(visitor)), name@).ok,
            *final(self) == old(self).visit_outcome(visitor_tree(*old(visitor)), name@).value,
            visitor_tree(*final(visitor)) == old(self).visit_outcome(
                visitor_tree(*old(visitor)),
                name@,
            ).tree,
            visitor_tree(*final(visitor)).reading == visitor_tree(*old(visitor)).reading,
            r is Ok ==> visitor_tree(*final(visitor)).inside && visitor_tree(*final(visitor)).path
                == visitor_tree(*old(visitor)).path,
            !visitor_tree(*old(visitor)).reading ==> *final(self) == *old(self),
            !visitor_tree(*old(visitor)).reading ==> (r is Ok <==> !visitor_tree(
                *old(visitor),
            ).has_region(name@)),
            visitor_tree(*old(visitor)).reading ==> visitor_tree(*final(visitor)).holds_what(
                visitor_tree(*old(visitor)),
            ),
    {
        proof {
            let tree = visitor_tree(*old(visitor));
            assert(tree.below(name@).drop_last() =~= tree.path);
            if tree.reading && tree.has_region(name@) {
                assert(tree.regions.insert(tree.below(name@)) =~= tree.regions);
            }
            reveal_strlit("TimeLimit");
            reveal_strlit("FragLimit");
            assert("TimeLimit"@[0] != "FragLimit"@[0]);
            assert("TimeLimit"@ != "FragLimit"@);
        }
        enter_region(visitor, name)?;
        proof {
            let inner = visitor_tree(*visitor);
            if !inner.reading {
                assert(inner.field("TimeLimit"@) is None);
                assert(inner.field("FragLimit"@) is None);
            }
        }
        visit_u32(&mut self.time_limit_secs.bits, "TimeLimit", visitor)?;
        visit_u32(&mut self.frag_limit, "FragLimit", visitor)?;
        leave_region(visitor)
    }
}

/// Two teams, frags counted per team.
#[derive(Copy, Clone, Debug, PartialEq, Eq, Structural)]
pub struct TeamDeathMatch {
    pub time_limit_secs: Scalar,
    pub team_frag_limit: u32,
}

impl Default for TeamDeathMatch {
    fn default() -> (d: Self)
        ensures
            d.time_limit_secs == Scalar::spec_zero(),
            d.team_frag_limit == 0,
    {
        Self { time_limit_secs: Scalar::zero(), team_frag_limit: 0 }
    }
}

impl TeamDeathMatch {
    /// How the visit under the name `name` ends.
    pub open spec fn visit_outcome(self, tree: Tree, name: Seq<char>) -> Outcome<TeamDeathMatch> {
        if !tree.can_enter(name) {
            Outcome { ok: false, value: self, tree }
        } else {
            let time = tree.entered(name).number("TimeLimit"@, self.time_limit_secs.bits);
            let limit = time.tree.number("TeamFragLimit"@, self.team_frag_limit);
            Outcome {
                ok: time.ok && limit.ok,
                value: TeamDeathMatch {
                    time_limit_secs: Scalar { bits: time.value },
                    team_frag_limit: if time.ok {
                        limit.value
                    } else {
                        self.team_frag_limit
                    },
                },
                tree: if time.ok {
                    limit.tree.closed(limit.ok)
                } else {
                    time.tree
                },
            }
        }
    }
}

/// A visit that succeeds ends where it began, and a visit of any end adds to
/// what the visitor holds and takes nothing away.
pub proof fn lemma_team_death_match_visit_adds(shown: TeamDeathMatch, tree: Tree, name: Seq<char>)
    ensures
        shown.visit_outcome(tree, name).tree.keeps(tree),
        shown.visit_outcome(tree, name).tree.reading == tree.reading,
        shown.visit_outcome(tree, name).tree.inside == tree.inside,
        shown.visit_outcome(tree, name).ok ==> shown.visit_outcome(tree, name).tree.path
            == tree.path,
{
    assert(tree.below(name).drop_last() =~= tree.path);
}

/// Limits that were saved are loaded again as they were: whatever limits are
/// shown to a reading visitor that stands where the writing one stood and
/// holds what that one held afterwards, they become the saved ones, and the
/// visitor ends where it began.
pub proof fn lemma_team_death_match_round_trip(
    saved: TeamDeathMatch,
    shown: TeamDeathMatch,
    began: Tree,
    reader: Tree,
    name: Seq<char>,
)
    requires
        !began.reading,
        saved.visit_outcome(began, name).ok,
        reader.rereads(began, saved.visit_outcome(began, name).tree),
    ensures
        shown.visit_outcome(reader, name).ok,
        shown.visit_outcome(reader, name).value == saved,
        shown.visit_outcome(reader, name).tree == reader,
{
    let written = saved.visit_outcome(began, name).tree;
    reveal_strlit("TimeLimit");
    reveal_strlit("TeamFragLimit");
    assert("TimeLimit"@.len() != "TeamFragLimit"@.len());
    assert(written.regions.contains(began.below(name)));
    assert(written.fields.dom().contains((began.below(name), "TimeLimit"@)));
    assert(written.fields.dom().contains((began.below(name), "TeamFragLimit"@)));
    assert(reader.regions.insert(reader.below(name)) =~= reader.regions);
    assert(reader.below(name).drop_last() =~= reader.path);
    assert(shown.visit_outcome(reader, name).tree =~= reader);
}

impl Visit for TeamDeathMatch {
    /// Saves the limits to a writing visitor, which leaves them as they
    /// are, or loads them from a reading one: in a region of the given name,
    /// first the time limit, then the other limit. A limit that cannot be
    /// loaded ends the visit inside the region, with the limits that were
    /// loaded before it.
    fn visit(&mut self, name: &str, visitor: &mut Visitor) -> (r: Result<(), VisitError>)
        requires
            visitor_tree(*old(visitor)).inside,
        ensures
            r is Ok <==> old(self).visit_outcome(visitor_tree(*old(visitor)), name@).ok,
            *final(self) == old(self).visit_outcome(visitor_tree(*old(visitor)), name@).value,
            visitor_tree(*final(visitor)) == old(self).visit_outcome(
                visitor_tree(*old(visitor)),
                name@,
            ).tree,
            visitor_tree(*final(visitor)).reading == visitor_tree(*old(visitor)).reading,
            r is Ok ==> visitor_tree(*final(visitor)).inside && visitor_tree(*final(visitor)).path
                == visitor_tree(*old(visitor)).path,
            !visitor_tree(*old(visitor)).reading ==> *final(self) == *old(self),
            !visitor_tree(*old(visitor)).reading ==> (r is Ok <==> !visitor_tree(
                *old(visitor),
            ).has_region(name@)),
            visitor_tree(*old(visitor)).reading ==> visitor_tree(*final(visitor)).holds_what(
                visitor_tree(*old(visitor)),
            ),
    {
        proof {
            let tree = visitor_tree(*old(visitor));
            assert(tree.below(name@).drop_last() =~= tree.path);
            if tree.reading && tree.has_region(name@) {
                assert(tree.regions.insert(tree.below(name@)) =~= tree.regions);
            }
            reveal_strlit("TimeLimit");
            reveal_strlit("TeamFragLimit");
            assert("TimeLimit"@.len() != "TeamFragLimit"@.len());
            assert("TimeLimit"@ != "TeamFragLimit"@);
        }
        enter_region(visitor, name)?;
        proof {
            let inner = visitor_tree(*visitor);
            if !inner.reading {
                assert(inner.field("TimeLimit"@) is None);
                assert(inner.field("TeamFragLimit"@) is None);
            }
        }
        visit_u32(&mut self.time_limit_secs.bits, "TimeLimit", visitor)?;
        visit_u32(&mut self.team_frag_limit, "TeamFragLimit", visitor)?;
        leave_region(visitor)
    }
}

/// Two teams, flags counted per team.
#[derive(Copy, Clone, Debug, PartialEq, Eq, Structural)]
pub struct CaptureTheFlag {
    pub time_limit_secs: Scalar,
    pub flag_limit: u32,
}

impl Default for CaptureTheFlag {
    fn default() -> (d: Self)
        ensures
            d.time_limit_secs == Scalar::spec_zero(),
            d.flag_limit == 0,
    {
        Self { time_limit_secs: Scalar::zero(), flag_limit: 0 }
    }
}

impl CaptureTheFlag {
    /// How the visit under the name `name` ends.
    pub open spec fn visit_outcome(self, tree: Tree, name: Seq<char>) -> Outcome<CaptureTheFlag> {
        if !tree.can_enter(name) {
            Outcome { ok: false, value: self, tree }
        } else {
            let time = tree.entered(name).number("TimeLimit"@, self.time_limit_secs.bits);
            let limit = time.tree.number("FlagLimit"@, self.flag_limit);
            Outcome {
                ok: time.ok && limit.ok,
                value: CaptureTheFlag {
                    time_limit_secs: Scalar { bits: time.value },
                    flag_limit: if time.ok {
                        limit.value
                    } else {
                        self.flag_limit
                    },
                },
                tree: if time.ok {
                    limit.tree.closed(limit.ok)
                } else {
                    time.tree
                },
            }
        }
    }
}

/// A visit that succeeds ends where it began, and a visit of any end adds to
/// what the visitor holds and takes nothing away.
pub proof fn lemma_capture_the_flag_visit_adds(shown: CaptureTheFlag, tree: Tree, name: Seq<char>)
    ensures
        shown.visit_outcome(tree, name).tree.keeps(tree),
        shown.visit_outcome(tree, name).tree.reading == tree.reading,
        shown.visit_outcome(tree, name).tree.inside == tree.inside,
        shown.visit_outcome(tree, name).ok ==> shown.visit_outcome(tree, name).tree.path
            == tree.path,
{
    assert(tree.below(name).drop_last() =~= tree.path);
}

/// Limits that were saved are loaded again as they were: whatever limits are
/// shown to a reading visitor that stands where the writing one stood and
/// holds what that one held afterwards, they become the saved ones, and the
/// visitor ends where it began.
pub proof fn lemma_capture_the_flag_round_trip(
    saved: CaptureTheFlag,
    shown: CaptureTheFlag,
    began: Tree,
    reader: Tree,
    name: Seq<char>,
)
    requires
        !began.reading,
        saved.visit_outcome(began, name).ok,
        reader.rereads(began, saved.visit_outcome(began, name).tree),
    ensures
        shown.visit_outcome(reader, name).ok,
        shown.visit_outcome(reader, name).value == saved,
        shown.visit_outcome(reader, name).tree == reader,
{
    let written = saved.visit_outcome(began, name).tree;
    reveal_strlit("TimeLimit");
    reveal_strlit("FlagLimit");
    assert("TimeLimit"@[0] != "FlagLimit"@[0]);
    assert("TimeLimit"@ != "FlagLimit"@);
    assert(written.regions.contains(began.below(name)));
    assert(written.fields.dom().contains((began.below(name), "TimeLimit"@)));
    assert(written.fields.dom().contains((began.below(name), "FlagLimit"@)));
    assert(reader.regions.insert(reader.below(name)) =~= reader.regions);
    assert(reader.below(name).drop_last() =~= reader.path);
    assert(shown.visit_outcome(reader, name).tree =~= reader);
}

impl Visit for CaptureTheFlag {
    /// Saves the limits to a writing visitor, which leaves them as they
    /// are, or loads them from a reading one: in a region of the given name,
    /// first the time limit, then the other limit. A limit that cannot be
    /// loaded ends the visit inside the region, with the limits that were
    /// loaded before it.
    fn visit(&mut self, name: &str, visitor: &mut Visitor) -> (r: Result<(), VisitError>)
        requires
            visitor_tree(*old(visitor)).inside,
        ensures
            r is Ok <==> old(self).visit_outcome(visitor_tree(*old(visitor)), name@).ok,
            *final(self) == old(self).visit_outcome(visitor_tree(*old(visitor)), name@).value,
            visitor_tree(*final(visitor)) == old(self).visit_outcome(
                visitor_tree(*old(visitor)),
                name@,
            ).tree,
            visitor_tree(*final(visitor)).reading == visitor_tree(*old(visitor)).reading,
            r is Ok ==> visitor_tree(*final(visitor)).inside && visitor_tree(*final(visitor)).path
                == visitor_tree(*old(visitor)).path,
            !visitor_tree(*old(visitor)).reading ==> *final(self) == *old(self),
            !visitor_tree(*old(visitor)).reading ==> (r is Ok <==> !visitor_tree(
                *old(visitor),
            ).has_region(name@)),
            visitor_tree(*old(visitor)).reading ==> visitor_tree(*final(visitor)).holds_what(
                visitor_tree(*old(visitor)),
            ),
    {
        proof {
            let tree = visitor_tree(*old(visitor));
            assert(tree.below(name@).drop_last() =~= tree.path);
            if tree.reading && tree.has_region(name@) {
                assert(tree.regions.insert(tree.below(name@)) =~= tree.regions);
            }
            reveal_strlit("TimeLimit");
            reveal_strlit("FlagLimit");
            assert("TimeLimit"@[0] != "FlagLimit"@[0]);
            assert("TimeLimit"@ != "FlagLimit"@);
        }
        enter_region(visitor, name)?;
        proof {
            let inner = visitor_tree(*visitor);
            if !inner.reading {
                assert(inner.field("TimeLimit"@) is None);
                assert(inner.field("FlagLimit"@) is None);
            }
        }
        visit_u32(&mut self.time_limit_secs.bits, "TimeLimit", visitor)?;
        visit_u32(&mut self.flag_limit, "FlagLimit", visitor)?;
        leave_region(visitor)
    }
}

#[derive(Copy, Clone, Debug, PartialEq, Eq, Structural)]
pub enum MatchOptions {
    DeathMatch(DeathMatch),
    TeamDeathMatch(TeamDeathMatch),
    CaptureTheFlag(CaptureTheFlag),
}

impl MatchOptions {
    /// The tag under which a kind of match is stored.
    pub open spec fn tag(self) -> u32 {
        match self {
            MatchOptions::DeathMatch(_) => 0,
            MatchOptions::TeamDeathMatch(_) => 1,
            MatchOptions::CaptureTheFlag(_) => 2,
        }
    }

    /// The options of the given kind, all limits at zero.
    pub open spec fn blank(id: u32) -> MatchOptions {
        if id == 0 {
            MatchOptions::DeathMatch(
                DeathMatch { time_limit_secs: Scalar::spec_zero(), frag_limit: 0 },
            )
        } else if id == 1 {
            MatchOptions::TeamDeathMatch(
                TeamDeathMatch { time_limit_secs: Scalar::spec_zero(), team_frag_limit: 0 },
            )
        } else {
            MatchOptions::CaptureTheFlag(
                CaptureTheFlag { time_limit_secs: Scalar::spec_zero(), flag_limit: 0 },
            )
        }
    }

    /// Blank options for a stored tag; tags above 2 name no kind of match.
    pub fn from_id(id: u32) -> (r: Result<Self, String>)
        ensures
            id <= 2 ==> r == Ok::<MatchOptions, String>(MatchOptions::blank(id)),
            id > 2 ==> r is Err && r->Err_0@ == "Invalid match options "@ + decimal(id as nat),
    {
        if id == 0 {
            Ok(MatchOptions::DeathMatch(Default::default()))
        } else if id == 1 {
            Ok(MatchOptions::TeamDeathMatch(Default::default()))
        } else if id == 2 {
            Ok(MatchOptions::CaptureTheFlag(Default::default()))
        } else {
            Err(numbered("Invalid match options ", id))
        }
    }

    pub fn id(&self) -> (id: u32)
        ensures
            id == self.tag(),
    {
        match self {
            MatchOptions::DeathMatch(_) => 0,
            MatchOptions::TeamDeathMatch(_) => 1,
            MatchOptions::CaptureTheFlag(_) => 2,
        }
    }

    /// What a load does once the stored tag has been read: the options become
    /// blank options of the stored kind, ready to receive the stored limits.
    /// An unknown tag is reported and leaves the options as they were.
    pub fn reset_to(&mut self, id: u32) -> (r: Result<(), String>)
        ensures
            id <= 2 ==> r is Ok && *final(self) == MatchOptions::blank(id),
            id > 2 ==> r is Err && *final(self) == *old(self)
                && r->Err_0@ == "Invalid match options "@ + decimal(id as nat),
    {
        match MatchOptions::from_id(id) {
            Ok(options) => {
                *self = options;
                Ok(())
            },
            Err(text) => Err(text),
        }
    }
}

impl Default for MatchOptions {
    fn default() -> (m: Self)
        ensures
            m == MatchOptions::blank(0),
    {
        MatchOptions::DeathMatch(Default::default())
    }
}

impl MatchOptions {
    /// How the visit of the limits ends, which are stored under the name
    /// "Data" whatever the kind.
    pub open spec fn data_outcome(self, tree: Tree) -> Outcome<MatchOptions> {
        match self {
            MatchOptions::DeathMatch(o) => {
                let data = o.visit_outcome(tree, "Data"@);
                Outcome { ok: data.ok, value: MatchOptions::DeathMatch(data.value), tree: data.tree }
            },
            MatchOptions::TeamDeathMatch(o) => {
                let data = o.visit_outcome(tree, "Data"@);
                Outcome {
                    ok: data.ok,
                    value: MatchOptions::TeamDeathMatch(data.value),
                    tree: data.tree,
                }
            },
            MatchOptions::CaptureTheFlag(o) => {
                let data = o.visit_outcome(tree, "Data"@);
                Outcome {
                    ok: data.ok,
                    value: MatchOptions::CaptureTheFlag(data.value),
                    tree: data.tree,
                }
            },
        }
    }

    /// How the visit under the name `name` ends. In a region of that name
    /// the tag of the kind comes first. A reading visitor then makes blank
    /// options of the stored kind, and fails on a tag that names no kind,
    /// with the options as they were. The limits of the kind come last.
    pub open spec fn visit_outcome(self, tree: Tree, name: Seq<char>) -> Outcome<MatchOptions> {
        if !tree.can_enter(name) {
            Outcome { ok: false, value: self, tree }
        } else {
            let id = tree.entered(name).number("Id"@, self.tag());
            if !id.ok || (tree.reading && id.value > 2) {
                Outcome { ok: false, value: self, tree: id.tree }
            } else {
                let kind = if tree.reading {
                    MatchOptions::blank(id.value)
                } else {
                    self
                };
                let data = kind.data_outcome(id.tree);
                Outcome { ok: data.ok, value: data.value, tree: data.tree.closed(data.ok) }
            }
        }
    }
}

/// Options that were saved are loaded again as they were: whatever options
/// are shown to a reading visitor that stands where the writing one stood
/// and holds what that one held afterwards, they become the saved ones, and
/// the visitor ends where it began.
pub proof fn lemma_match_options_round_trip(
    saved: MatchOptions,
    shown: MatchOptions,
    began: Tree,
    reader: Tree,
    name: Seq<char>,
)
    requires
        !began.reading,
        saved.visit_outcome(began, name).ok,
        reader.rereads(began, saved.visit_outcome(began, name).tree),
    ensures
        shown.visit_outcome(reader, name).ok,
        shown.visit_outcome(reader, name).value == saved,
        shown.visit_outcome(reader, name).tree == reader,
{
    let written = saved.visit_outcome(began, name).tree;
    let id = began.entered(name).number("Id"@, saved.tag());
    let data = saved.data_outcome(id.tree);
    assert(id.tree == began.entered(name).with_field("Id"@, Stored::Number(saved.tag())));
    assert(written == data.tree.left());
    assert(id.tree.fields.dom().contains((began.below(name), "Id"@)));
    assert(id.tree.regions.contains(began.below(name)));
    assert(reader.regions.insert(reader.below(name)) =~= reader.regions);
    assert(reader.below(name).drop_last() =~= reader.path);
    let inner = reader.entered(name);
    match saved {
        MatchOptions::DeathMatch(o) => {
            lemma_death_match_visit_adds(o, id.tree, "Data"@);
        },
        MatchOptions::TeamDeathMatch(o) => {
            lemma_team_death_match_visit_adds(o, id.tree, "Data"@);
        },
        MatchOptions::CaptureTheFlag(o) => {
            lemma_capture_the_flag_visit_adds(o, id.tree, "Data"@);
        },
    }
    assert(written.fields.dom().contains((began.below(name), "Id"@)));
    assert(inner.keeps(data.tree)) by {
        assert forall|key: (Seq<Seq<char>>, Seq<char>)| #[trigger]
            data.tree.fields.dom().contains(key) implies reader.fields.dom().contains(key)
            && reader.fields[key] == data.tree.fields[key] by {
            assert(written.fields.dom().contains(key));
        }
    }
    match saved {
        MatchOptions::DeathMatch(o) => {
            lemma_death_match_round_trip(
                o,
                MatchOptions::blank(0)->DeathMatch_0,
                id.tree,
                inner,
                "Data"@,
            );
        },
        MatchOptions::TeamDeathMatch(o) => {
            lemma_team_death_match_round_trip(
                o,
                MatchOptions::blank(1)->TeamDeathMatch_0,
                id.tree,
                inner,
                "Data"@,
            );
        },
        MatchOptions::CaptureTheFlag(o) => {
            lemma_capture_the_flag_round_trip(
                o,
                MatchOptions::blank(2)->CaptureTheFlag_0,
                id.tree,
                inner,
                "Data"@,
            );
        },
    }
    assert(shown.visit_outcome(reader, name).tree =~= reader);
}

impl Visit for MatchOptions {
    /// Saves the options to a writing visitor, which leaves them as they
    /// are, or loads them from a reading one: first the tag of the kind, then
    /// the limits of that kind. A stored tag that names no kind fails the
    /// load and leaves the options as they were.
    fn visit(&mut self, name: &str, visitor: &mut Visitor) -> (r: Result<(), VisitError>)
        requires
            visitor_tree(*old(visitor)).inside,
        ensures
            r is Ok <==> old(self).visit_outcome(visitor_tree(*old(visitor)), name@).ok,
            *final(self) == old(self).visit_outcome(visitor_tree(*old(visitor)), name@).value,
            visitor_tree(*final(visitor)) == old(self).visit_outcome(
                visitor_tree(*old(visitor)),
                name@,
            ).tree,
            visitor_tree(*final(visitor)).reading == visitor_tree(*old(visitor)).reading,
            r is Ok ==> visitor_tree(*final(visitor)).inside && visitor_tree(*final(visitor)).path
                == visitor_tree(*old(visitor)).path,
            !visitor_tree(*old(visitor)).reading ==> *final(self) == *old(self),
            !visitor_tree(*old(visitor)).reading ==> (r is Ok <==> !visitor_tree(
                *old(visitor),
            ).has_region(name@)),
            visitor_tree(*old(visitor)).reading ==> visitor_tree(*final(visitor)).holds_what(
                visitor_tree(*old(visitor)),
            ),
    {
        proof {
            let tree = visitor_tree(*old(visitor));
            assert(tree.below(name@).drop_last() =~= tree.path);
            if tree.reading && tree.has_region(name@) {
                assert(tree.regions.insert(tree.below(name@)) =~= tree.regions);
            }
        }
        enter_region(visitor, name)?;
        proof {
            let inner = visitor_tree(*visitor);
            if !inner.reading {
                assert(inner.field("Id"@) is None);
                assert(!inner.has_region("Data"@));
            }
        }
        let mut id = self.id();
        visit_u32(&mut id, "Id", visitor)?;
        if is_reading(visitor) {
            match self.reset_to(id) {
                Ok(()) => {},
                Err(text) => {
                    return Err(user_error(text));
                },
            }
        }
        match self {
            MatchOptions::DeathMatch(o) => o.visit("Data", visitor)?,
            MatchOptions::TeamDeathMatch(o) => o.visit("Data", visitor)?,
            MatchOptions::CaptureTheFlag(o) => o.visit("Data", visitor)?,
        }
        leave_region(visitor)
    }
}

/// The tag of a kind of match names that kind again.
pub proof fn lemma_match_tag_round_trip(options: MatchOptions)
    ensures
        options.tag() <= 2,
        MatchOptions::blank(options.tag()).tag() == options.tag(),
        forall|id: u32| id <= 2 ==> (#[trigger] MatchOptions::blank(id)).tag() == id,
{
}

} // verus!
