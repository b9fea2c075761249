use rusty_shooter::actor::Actor;
use rusty_shooter::bot::Bot;
use rusty_shooter::character::Character;
use rusty_shooter::collision::CollisionGroups;
use rusty_shooter::handle::ActorHandle;
use rusty_shooter::handle::BodyHandle;
use rusty_shooter::options::CaptureTheFlag;
use rusty_shooter::options::DeathMatch;
use rusty_shooter::options::MatchOptions;
use rusty_shooter::options::TeamDeathMatch;
use rusty_shooter::player::Player;
use rusty_shooter::scalar::Scalar;

fn s(x: f32) -> Scalar {
    Scalar::from_bits(x.to_bits())
}

#[test]
fn actor_ids_name_the_kinds() {
    let player = Actor::Player(Player::new(Character::new(s(100.0), BodyHandle { id: 7 })));
    let bot = Actor::Bot(Bot::new(Character::new(s(50.0), BodyHandle { id: 8 }), 3));
    assert_eq!(player.id(), 0);
    assert_eq!(bot.id(), 1);
}

#[test]
fn actor_from_id_makes_the_kind() {
    assert!(matches!(Actor::from_id(0), Ok(Actor::Player(_))));
    assert!(matches!(Actor::from_id(1), Ok(Actor::Bot(_))));
    assert_eq!(Actor::from_id(0).ok().map(|a| a.id()), Some(0));
    assert_eq!(Actor::from_id(1).ok().map(|a| a.id()), Some(1));
}

#[test]
fn actor_from_id_refuses_unknown_kinds() {
    assert_eq!(Actor::from_id(2).err(), Some("Unknown actor kind 2".to_string()));
    assert_eq!(Actor::from_id(7).err(), Some("Unknown actor kind 7".to_string()));
    assert_eq!(Actor::from_id(120).err(), Some("Unknown actor kind 120".to_string()));
    assert_eq!(
        Actor::from_id(u32::MAX).err(),
        Some("Unknown actor kind 4294967295".to_string())
    );
}

#[test]
fn actor_default_is_a_bot() {
    let actor = Actor::default();
    assert_eq!(actor.id(), 1);
    assert_eq!(actor.character().get_health(), s(0.0));
}

#[test]
fn actor_reset_to_keeps_the_actor_on_unknown_kind() {
    let mut actor = Actor::Bot(Bot::new(Character::new(s(50.0), BodyHandle { id: 8 }), 3));
    assert_eq!(actor.reset_to(9), Err("Unknown actor kind 9".to_string()));
    assert_eq!(actor.id(), 1);
    assert_eq!(actor.character().get_health(), s(50.0));
    assert_eq!(actor.character().get_body(), BodyHandle { id: 8 });
    assert_eq!(actor.reset_to(0), Ok(()));
    assert_eq!(actor.id(), 0);
    assert_eq!(actor.character().get_health(), s(0.0));
}

#[test]
fn actor_tag_round_trip_for_both_kinds() {
    let actors = vec![
        Actor::Player(Player::new(Character::new(s(100.0), BodyHandle { id: 1 }))),
        Actor::Bot(Bot::new(Character::new(s(75.5), BodyHandle { id: 2 }), 0)),
    ];
    for actor in actors {
        let again = Actor::from_id(actor.id()).ok().map(|a| a.id());
        assert_eq!(again, Some(actor.id()));
    }
}

#[test]
fn character_mut_changes_the_shared_part() {
    let mut actor = Actor::Bot(Bot::new(Character::new(s(50.0), BodyHandle { id: 8 }), 3));
    actor.character_mut().health = s(10.0);
    assert_eq!(actor.character().get_health(), s(10.0));
    assert!(!actor.character().is_dead());
    actor.character_mut().health = s(0.0);
    assert!(actor.character().is_dead());
    actor.character_mut().health = s(-3.0);
    assert!(actor.character().is_dead());
    actor.character_mut().health = s(f32::NAN);
    assert!(!actor.character().is_dead());
}

#[test]
fn removal_rules_differ_by_kind() {
    let dead_player = Actor::Player(Player::new(Character::new(s(0.0), BodyHandle { id: 1 })));
    let live_player = Actor::Player(Player::new(Character::new(s(1.0), BodyHandle { id: 1 })));
    let waiting_bot = Actor::Bot(Bot::new(Character::new(s(0.0), BodyHandle { id: 2 }), 2));
    let gone_bot = Actor::Bot(Bot::new(Character::new(s(-1.0), BodyHandle { id: 2 }), 0));
    let live_bot = Actor::Bot(Bot::new(Character::new(s(5.0), BodyHandle { id: 2 }), 0));
    assert!(dead_player.can_be_removed());
    assert!(!live_player.can_be_removed());
    assert!(!waiting_bot.can_be_removed());
    assert!(gone_bot.can_be_removed());
    assert!(!live_bot.can_be_removed());
}

#[test]
fn match_option_ids_name_the_kinds() {
    assert_eq!(MatchOptions::DeathMatch(DeathMatch::default()).id(), 0);
    assert_eq!(MatchOptions::TeamDeathMatch(TeamDeathMatch::default()).id(), 1);
    assert_eq!(MatchOptions::CaptureTheFlag(CaptureTheFlag::default()).id(), 2);
    assert_eq!(MatchOptions::default().id(), 0);
}

#[test]
fn match_options_from_id_makes_blank_options() {
    assert_eq!(
        MatchOptions::from_id(0),
        Ok(MatchOptions::DeathMatch(DeathMatch { time_limit_secs: s(0.0), frag_limit: 0 }))
    );
    assert_eq!(
        MatchOptions::from_id(1),
        Ok(MatchOptions::TeamDeathMatch(TeamDeathMatch {
            time_limit_secs: s(0.0),
            team_frag_limit: 0
        }))
    );
    assert_eq!(
        MatchOptions::from_id(2),
        Ok(MatchOptions::CaptureTheFlag(CaptureTheFlag { time_limit_secs: s(0.0), flag_limit: 0 }))
    );
}

#[test]
fn match_options_from_id_refuses_unknown_kinds() {
    assert_eq!(MatchOptions::from_id(3), Err("Invalid match options 3".to_string()));
    assert_eq!(MatchOptions::from_id(10), Err("Invalid match options 10".to_string()));
    assert_eq!(
        MatchOptions::from_id(u32::MAX),
        Err("Invalid match options 4294967295".to_string())
    );
}

#[test]
fn match_options_reset_to_keeps_the_options_on_unknown_kind() {
    let mut options =
        MatchOptions::TeamDeathMatch(TeamDeathMatch { time_limit_secs: s(60.0), team_frag_limit: 9 });
    assert_eq!(options.reset_to(5), Err("Invalid match options 5".to_string()));
    assert_eq!(
        options,
        MatchOptions::TeamDeathMatch(TeamDeathMatch { time_limit_secs: s(60.0), team_frag_limit: 9 })
    );
    assert_eq!(options.reset_to(2), Ok(()));
    assert_eq!(options.id(), 2);
}

#[test]
fn collision_masks() {
    assert_eq!(CollisionGroups::Generic.mask(), 1);
    assert_eq!(CollisionGroups::Projectile.mask(), 1 << 1);
    assert_eq!(CollisionGroups::Actor.mask(), 1 << 2);
    assert_eq!(CollisionGroups::All.mask(), isize::MAX);
}

#[test]
fn none_handle_names_nothing() {
    assert!(ActorHandle::none().is_none());
    assert!(!ActorHandle::none().is_some());
    assert!(ActorHandle::new(0, 1).is_some());
    assert!(ActorHandle::new(3, 0).is_some());
    assert_eq!(ActorHandle::new(3, 4), ActorHandle { index: 3, generation: 4 });
}
