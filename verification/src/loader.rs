//! The hand-off of a level that is built in the background.
//!
//! A new game is built on a thread of its own while the main loop goes on
//! drawing. The two meet in one place only: a cell that the builder fills
//! once and the main loop empties once. The main loop never waits for the
//! builder. Once per frame it tries to look into the cell; as long as it
//! cannot, or finds nothing, it shows how far the loading has come.

use vstd::prelude::*;

verus! {

/// The cell through which the finished level is handed over.
pub struct LoadContext<L> {
    pub level: Option<L>,
}

impl<L> LoadContext<L> {
    /// An empty cell.
    pub fn new() -> (c: Self)
        ensures
            c.level is None,
    {
        LoadContext { level: None }
    }

    /// Puts the finished level into the cell. The builder does this once.
    pub fn fill(&mut self, level: L)
        requires
            old(self).level is None,
        ensures
            final(self).level == Some(level),
    {
        self.level = Some(level);
    }

    /// Takes out what the cell holds and leaves it empty.
    pub fn take(&mut self) -> (level: Option<L>)
        ensures
            level == old(self).level,
            final(self).level is None,
    {
        self.level.take()
    }
}

/// Where the loading stands.
#[derive(Clone, Copy, Debug, PartialEq, Eq, Structural)]
pub enum LoadState {
    /// Nothing is being built.
    Idle,
    /// A level is being built; the loading screen is up, the menu is down.
    Loading,
}

/// What the main loop found when it tried to look into the cell.
#[derive(Clone, Copy, Debug, PartialEq, Eq, Structural)]
pub enum Observation {
    /// The builder holds the cell.
    Busy,
    /// The cell is empty.
    Empty,
    /// The cell holds the finished level.
    Ready,
    /// The builder has failed and will never fill the cell.
    Failed,
}

/// What the main loop has to do after it looked into the cell.
#[derive(Clone, Copy, Debug, PartialEq, Eq, Structural)]
pub enum PollAction {
    /// Nothing is being loaded: nothing to do.
    Nothing,
    /// Show on the loading screen how far the loading has come.
    ReportProgress,
    /// Take the level out of the cell and play it, hide the menu and the
    /// loading screen, and let go of the cell.
    Commit,
    /// Tell the person that the level could not be built, hide the loading
    /// screen, show the menu, and let go of the cell.
    GiveUp,
}

/// What the main loop has to do when a new game is asked for, in this order.
#[derive(Clone, Copy, Debug, PartialEq, Eq, Structural)]
pub struct StartPlan {
    /// First tear down the level that is being played.
    pub destroy_level: bool,
    /// Then make a cell, show the loading screen and hide the menu.
    pub show_loading_screen: bool,
    /// Then start the builder.
    pub spawn_builder: bool,
}

/// The main loop's side of the hand-off.
#[derive(Clone, Copy, Debug, PartialEq, Eq, Structural)]
pub struct Loader {
    pub state: LoadState,
    /// A level is being played.
    pub level_present: bool,
    pub loading_screen_visible: bool,
    pub menu_visible: bool,
}

impl Loader {
    /// The loader after it looked into the cell and found `seen`.
    pub open spec fn polled(self, seen: Observation) -> Loader {
        if self.state == LoadState::Loading && seen == Observation::Ready {
            Loader {
                state: LoadState::Idle,
                level_present: true,
                loading_screen_visible: false,
                menu_visible: false,
            }
        } else if self.state == LoadState::Loading && seen == Observation::Failed {
            Loader {
                state: LoadState::Idle,
                level_present: false,
                loading_screen_visible: false,
                menu_visible: true,
            }
        } else {
            self
        }
    }

    /// What there is to do after the loader looked into the cell and found
    /// `seen`.
    pub open spec fn action(self, seen: Observation) -> PollAction {
        if self.state == LoadState::Idle {
            PollAction::Nothing
        } else if seen == Observation::Ready {
            PollAction::Commit
        } else if seen == Observation::Failed {
            PollAction::GiveUp
        } else {
            PollAction::ReportProgress
        }
    }

    /// The loader after a new game was asked for.
    pub open spec fn started(self) -> Loader {
        Loader {
            state: LoadState::Loading,
            level_present: false,
            loading_screen_visible: true,
            menu_visible: false,
        }
    }

    /// The loader after it looked into the cell once for each of `seen`.
    pub open spec fn polled_all(self, seen: Seq<Observation>) -> Loader
        decreases seen.len(),
    {
        if seen.len() == 0 {
            self
        } else {
            self.polled_all(seen.drop_last()).polled(seen.last())
        }
    }

    /// How many of the polls `seen` end in a commit.
    pub open spec fn commits(self, seen: Seq<Observation>) -> nat
        decreases seen.len(),
    {
        if seen.len() == 0 {
            0
        } else {
            let before = self.commits(seen.drop_last());
            if self.polled_all(seen.drop_last()).action(seen.last()) == PollAction::Commit {
                before + 1
            } else {
                before
            }
        }
    }

    /// The loader of a game that shows its menu and plays no level.
    pub fn new() -> (l: Loader)
        ensures
            l.state == LoadState::Idle,
            !l.level_present,
            !l.loading_screen_visible,
            l.menu_visible,
    {
        Loader {
            state: LoadState::Idle,
            level_present: false,
            loading_screen_visible: false,
            menu_visible: true,
        }
    }

    pub fn is_loading(&self) -> (b: bool)
        ensures
            b == (self.state == LoadState::Loading),
    {
        match self.state {
            LoadState::Loading => true,
            LoadState::Idle => false,
        }
    }

    /// A new game is asked for. The level that is being played, if any, is
    /// torn down before the builder starts.
    pub fn start_new_game(&mut self) -> (plan: StartPlan)
        ensures
            *final(self) == old(self).started(),
            plan.destroy_level == old(self).level_present,
            plan.show_loading_screen,
            plan.spawn_builder,
    {
        let plan = StartPlan {
            destroy_level: self.level_present,
            show_loading_screen: true,
            spawn_builder: true,
        };
        self.state = LoadState::Loading;
        self.level_present = false;
        self.loading_screen_visible = true;
        self.menu_visible = false;
        plan
    }

    /// The main loop looked into the cell and found `seen`. While a level is
    /// being loaded, a finished level is committed, a failed builder ends the
    /// loading, and everything else is answered with a progress report.
    pub fn poll(&mut self, seen: Observation) -> (action: PollAction)
        ensures
            *final(self) == old(self).polled(seen),
            action == old(self).action(seen),
    {
        match self.state {
            LoadState::Idle => PollAction::Nothing,
            LoadState::Loading => match seen {
                Observation::Ready => {
                    self.state = LoadState::Idle;
                    self.level_present = true;
                    self.loading_screen_visible = false;
                    self.menu_visible = false;
                    PollAction::Commit
                },
                Observation::Failed => {
                    self.state = LoadState::Idle;
                    self.level_present = false;
                    self.loading_screen_visible = false;
                    self.menu_visible = true;
                    PollAction::GiveUp
                },
                Observation::Busy => PollAction::ReportProgress,
                Observation::Empty => PollAction::ReportProgress,
            },
        }
    }
}

/// The builder is still at work: it has neither finished nor failed.
pub open spec fn is_waiting(seen: Observation) -> bool {
    seen == Observation::Busy || seen == Observation::Empty
}

/// As long as the builder is at work, polling commits nothing and keeps the
/// loading screen up.
pub proof fn lemma_waiting_commits_nothing(loader: Loader, seen: Seq<Observation>)
    requires
        forall|i: int| 0 <= i < seen.len() ==> is_waiting(#[trigger] seen[i]),
    ensures
        loader.started().polled_all(seen) == loader.started(),
        loader.started().commits(seen) == 0,
        loader.started().polled_all(seen).loading_screen_visible,
        !loader.started().polled_all(seen).level_present,
    decreases seen.len(),
{
    if seen.len() > 0 {
        lemma_waiting_commits_nothing(loader, seen.drop_last());
    }
}

/// The first poll that finds the finished level commits it and takes the
/// loading screen down, and no poll after that commits again.
pub proof fn lemma_commit_happens_once(
    loader: Loader,
    waiting: Seq<Observation>,
    later: Seq<Observation>,
)
    requires
        forall|i: int| 0 <= i < waiting.len() ==> is_waiting(#[trigger] waiting[i]),
    ensures
        loader.started().polled_all(waiting).action(Observation::Ready) == PollAction::Commit,
        loader.started().commits(waiting.push(Observation::Ready) + later) == 1,
        !loader.started().polled_all(waiting.push(Observation::Ready) + later).loading_screen_visible,
        loader.started().polled_all(waiting.push(Observation::Ready) + later).level_present,
        loader.started().polled_all(waiting.push(Observation::Ready) + later).state
            == LoadState::Idle,
    decreases later.len(),
{
    let start = loader.started();
    let first = waiting.push(Observation::Ready);
    lemma_waiting_commits_nothing(loader, waiting);
    assert(first.drop_last() =~= waiting);
    if later.len() == 0 {
        assert(first + later =~= first);
    } else {
        lemma_commit_happens_once(loader, waiting, later.drop_last());
        assert((first + later).drop_last() =~= first + later.drop_last());
    }
}

} // verus!
