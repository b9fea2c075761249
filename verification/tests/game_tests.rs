use rusty_shooter::game::Game;
use rusty_shooter::game::Order;
use rusty_shooter::handle::ActorHandle;
use rusty_shooter::handle::ItemHandle;
use rusty_shooter::loader::LoadState;
use rusty_shooter::loader::Observation;
use rusty_shooter::loader::PollAction;
use rusty_shooter::loader::StartPlan;
use rusty_shooter::message::Message;
use rusty_shooter::options::DeathMatch;
use rusty_shooter::options::MatchOptions;
use rusty_shooter::scalar::Scalar;

fn options() -> MatchOptions {
    MatchOptions::DeathMatch(DeathMatch {
        time_limit_secs: Scalar::from_bits(300.0f32.to_bits()),
        frag_limit: 10,
    })
}

fn playing() -> Game {
    let mut game = Game::new();
    game.start_new_game(options());
    assert_eq!(game.update(Observation::Ready), PollAction::Commit);
    game
}

#[test]
fn new_game_runs_and_shows_the_menu() {
    let game = Game::new();
    assert!(game.running);
    assert!(game.is_menu_visible());
    assert!(!game.hud_visible);
    assert!(!game.leader_board_visible);
    assert!(!game.is_level_present());
    assert_eq!(game.loader.state, LoadState::Idle);
}

#[test]
fn menu_and_display_take_turns() {
    let mut game = Game::new();
    game.set_menu_visible(false);
    assert!(!game.is_menu_visible());
    assert!(game.hud_visible);
    game.set_menu_visible(true);
    assert!(game.is_menu_visible());
    assert!(!game.hud_visible);
}

#[test]
fn escape_toggles_the_menu() {
    let mut game = Game::new();
    game.process_input_event(false);
    assert!(game.is_menu_visible());
    game.process_input_event(true);
    assert!(!game.is_menu_visible());
    assert!(game.hud_visible);
    game.process_input_event(true);
    assert!(game.is_menu_visible());
    assert!(!game.hud_visible);
}

#[test]
fn start_then_poll_then_commit() {
    let mut game = Game::new();
    let plan = game.start_new_game(options());
    assert_eq!(
        plan,
        StartPlan { destroy_level: false, show_loading_screen: true, spawn_builder: true }
    );
    assert!(!game.is_menu_visible());
    assert!(game.loader.loading_screen_visible);
    for _ in 0..10 {
        assert_eq!(game.update(Observation::Empty), PollAction::ReportProgress);
        assert_eq!(game.update(Observation::Busy), PollAction::ReportProgress);
        assert!(game.loader.loading_screen_visible);
        assert!(!game.is_level_present());
        assert!(!game.hud_visible);
    }
    assert_eq!(game.update(Observation::Ready), PollAction::Commit);
    assert!(game.is_level_present());
    assert!(!game.loader.loading_screen_visible);
    assert!(!game.is_menu_visible());
    assert!(game.hud_visible);
    assert_eq!(game.update(Observation::Ready), PollAction::Nothing);
    assert_eq!(game.update(Observation::Empty), PollAction::Nothing);
    assert!(game.is_level_present());
}

#[test]
fn start_message_orders_a_level() {
    let mut game = playing();
    let order = game.handle_message(&Message::StartNewGame { options: options() });
    assert_eq!(
        order,
        Order::BuildLevel {
            plan: StartPlan { destroy_level: true, show_loading_screen: true, spawn_builder: true },
            options: options(),
        }
    );
    assert!(!game.is_level_present());
    assert_eq!(game.loader.state, LoadState::Loading);
    assert!(game.loader.loading_screen_visible);
    assert!(game.running);
}

#[test]
fn quit_tears_down_and_stops() {
    let mut game = playing();
    assert_eq!(game.handle_message(&Message::QuitGame), Order::Quit { destroy_level: true });
    assert!(!game.running);
    assert!(!game.is_level_present());
    let mut idle = Game::new();
    assert_eq!(idle.handle_message(&Message::QuitGame), Order::Quit { destroy_level: false });
    assert!(!idle.running);
}

#[test]
fn end_of_match_shows_the_leader_board() {
    let mut game = playing();
    assert_eq!(
        game.handle_message(&Message::EndMatch),
        Order::ShowLeaderBoard { destroy_level: true }
    );
    assert!(game.running);
    assert!(game.leader_board_visible);
    assert!(!game.is_level_present());
}

#[test]
fn other_messages_change_nothing() {
    let mut game = playing();
    let before = game;
    assert_eq!(game.handle_message(&Message::SaveGame), Order::Save);
    assert_eq!(game.handle_message(&Message::LoadGame), Order::Load);
    let volume = Scalar::from_bits(0.25f32.to_bits());
    assert_eq!(
        game.handle_message(&Message::SetMusicVolume { volume }),
        Order::SetMusicVolume { volume }
    );
    let actor = ActorHandle::new(1, 1);
    let item = ItemHandle { index: 2, generation: 1 };
    assert_eq!(game.handle_message(&Message::PickUpItem { actor, item }), Order::Nothing);
    assert_eq!(game.handle_message(&Message::RespawnActor { actor }), Order::Nothing);
    assert_eq!(game, before);
    assert!(game.is_level_present());
}

#[test]
fn loading_a_save_hides_the_menu() {
    let mut game = playing();
    game.set_menu_visible(true);
    assert!(game.destroy_level());
    assert!(!game.destroy_level());
    game.load_game(true);
    assert!(game.is_level_present());
    assert!(!game.is_menu_visible());
    assert!(game.hud_visible);
    game.set_menu_visible(true);
    game.load_game(false);
    assert!(!game.is_level_present());
    assert!(!game.is_menu_visible());
}

#[test]
fn failed_builder_brings_the_menu_back() {
    let mut game = Game::new();
    game.start_new_game(options());
    assert_eq!(game.update(Observation::Failed), PollAction::GiveUp);
    assert!(game.is_menu_visible());
    assert!(!game.hud_visible);
    assert!(!game.is_level_present());
    assert!(!game.loader.loading_screen_visible);
    assert!(game.running);
}
