use rusty_shooter::loader::LoadContext;
use rusty_shooter::loader::LoadState;
use rusty_shooter::loader::Loader;
use rusty_shooter::loader::Observation;
use rusty_shooter::loader::PollAction;

#[test]
fn new_loader_is_idle_and_shows_the_menu() {
    let loader = Loader::new();
    assert_eq!(loader.state, LoadState::Idle);
    assert!(!loader.is_loading());
    assert!(!loader.level_present);
    assert!(!loader.loading_screen_visible);
    assert!(loader.menu_visible);
}

#[test]
fn idle_polls_do_nothing() {
    let mut loader = Loader::new();
    for seen in [Observation::Busy, Observation::Empty, Observation::Ready] {
        assert_eq!(loader.poll(seen), PollAction::Nothing);
        assert_eq!(loader, Loader::new());
    }
}

#[test]
fn start_new_game_shows_the_loading_screen() {
    let mut loader = Loader::new();
    let plan = loader.start_new_game();
    assert!(!plan.destroy_level);
    assert!(plan.show_loading_screen);
    assert!(plan.spawn_builder);
    assert!(loader.is_loading());
    assert!(loader.loading_screen_visible);
    assert!(!loader.menu_visible);
    assert!(!loader.level_present);
}

#[test]
fn start_new_game_tears_down_the_level_that_is_played() {
    let mut loader = Loader::new();
    loader.start_new_game();
    assert_eq!(loader.poll(Observation::Ready), PollAction::Commit);
    assert!(loader.level_present);
    let plan = loader.start_new_game();
    assert!(plan.destroy_level);
    assert!(!loader.level_present);
    assert!(loader.is_loading());
    assert!(loader.loading_screen_visible);
}

#[test]
fn polling_before_the_level_is_ready_never_commits() {
    let mut loader = Loader::new();
    loader.start_new_game();
    for round in 0..100 {
        let seen = if round % 3 == 0 { Observation::Busy } else { Observation::Empty };
        assert_eq!(loader.poll(seen), PollAction::ReportProgress);
        assert!(loader.is_loading());
        assert!(loader.loading_screen_visible);
        assert!(!loader.level_present);
        assert!(!loader.menu_visible);
    }
}

#[test]
fn first_poll_after_the_level_is_ready_commits_once() {
    let mut loader = Loader::new();
    loader.start_new_game();
    for _ in 0..5 {
        assert_eq!(loader.poll(Observation::Empty), PollAction::ReportProgress);
    }
    assert_eq!(loader.poll(Observation::Ready), PollAction::Commit);
    assert!(!loader.is_loading());
    assert_eq!(loader.state, LoadState::Idle);
    assert!(loader.level_present);
    assert!(!loader.loading_screen_visible);
    assert!(!loader.menu_visible);
    let mut commits = 0;
    for seen in [Observation::Ready, Observation::Empty, Observation::Busy, Observation::Ready] {
        if loader.poll(seen) == PollAction::Commit {
            commits += 1;
        }
        assert!(loader.level_present);
        assert!(!loader.loading_screen_visible);
    }
    assert_eq!(commits, 0);
}

#[test]
fn load_context_hands_over_once() {
    let mut cell: LoadContext<u32> = LoadContext::new();
    assert_eq!(cell.level, None);
    assert_eq!(cell.take(), None);
    cell.fill(42);
    assert_eq!(cell.level, Some(42));
    assert_eq!(cell.take(), Some(42));
    assert_eq!(cell.take(), None);
    assert_eq!(cell.level, None);
}

#[test]
fn load_context_drives_the_loader() {
    let mut cell: LoadContext<&str> = LoadContext::new();
    let mut loader = Loader::new();
    loader.start_new_game();
    let observe = |cell: &LoadContext<&str>| {
        if cell.level.is_some() {
            Observation::Ready
        } else {
            Observation::Empty
        }
    };
    assert_eq!(loader.poll(observe(&cell)), PollAction::ReportProgress);
    cell.fill("arena");
    let mut played = None;
    if loader.poll(observe(&cell)) == PollAction::Commit {
        played = cell.take();
    }
    assert_eq!(played, Some("arena"));
    assert_eq!(loader.poll(observe(&cell)), PollAction::Nothing);
    assert_eq!(cell.level, None);
}

#[test]
fn failed_builder_ends_the_loading() {
    let mut loader = Loader::new();
    assert_eq!(loader.poll(Observation::Failed), PollAction::Nothing);
    loader.start_new_game();
    assert_eq!(loader.poll(Observation::Busy), PollAction::ReportProgress);
    assert_eq!(loader.poll(Observation::Failed), PollAction::GiveUp);
    assert!(!loader.is_loading());
    assert!(!loader.level_present);
    assert!(!loader.loading_screen_visible);
    assert!(loader.menu_visible);
    assert_eq!(loader.poll(Observation::Ready), PollAction::Nothing);
    assert!(!loader.level_present);
}
