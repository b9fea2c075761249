use rusty_shooter::tick::queue_pickups;
use rusty_shooter::actor::Actor;
use rusty_shooter::actor::ActorContainer;
use rusty_shooter::actor::TargetDescriptor;
use rusty_shooter::bot::range_to;
use rusty_shooter::bot::select_target;
use rusty_shooter::bot::Bot;
use rusty_shooter::bot::UNMEASURED;
use rusty_shooter::character::Character;
use rusty_shooter::handle::ActorHandle;
use rusty_shooter::handle::BodyHandle;
use rusty_shooter::handle::ItemHandle;
use rusty_shooter::level::Item;
use rusty_shooter::level::Physics;
use rusty_shooter::level::Ranges;
use rusty_shooter::level::RigidBody;
use rusty_shooter::level::UpdateContext;
use rusty_shooter::message::Message;
use rusty_shooter::player::Player;
use rusty_shooter::scalar::Scalar;
use rusty_shooter::scalar::Vector3;

fn s(x: f32) -> Scalar {
    Scalar::from_bits(x.to_bits())
}

fn v(x: f32, y: f32, z: f32) -> Vector3 {
    Vector3::new(s(x), s(y), s(z))
}

fn bot(health: f32, body: u128, delay: u32) -> Actor {
    Actor::Bot(Bot::new(Character::new(s(health), BodyHandle { id: body }), delay))
}

fn player(health: f32, body: u128) -> Actor {
    Actor::Player(Player::new(Character::new(s(health), BodyHandle { id: body })))
}

fn body_at(id: u128, position: Vector3) -> RigidBody {
    RigidBody { handle: BodyHandle { id }, position, linvel: v(0.0, 0.0, 0.0), colliders: Vec::new() }
}

fn item(index: u32, picked_up: bool) -> Item {
    Item { handle: ItemHandle { index, generation: 1 }, position: v(0.0, 0.0, 0.0), picked_up }
}

fn ranges(to_actors: &[f32], to_items: &[f32]) -> Ranges {
    Ranges {
        to_actors: to_actors.iter().map(|d| s(*d)).collect(),
        to_items: to_items.iter().map(|d| s(*d)).collect(),
    }
}

fn context(bodies: Vec<RigidBody>, items: Vec<Item>, ranges: Vec<Ranges>) -> UpdateContext {
    UpdateContext {
        physics: Physics { bodies },
        items,
        jump_pads: Vec::new(),
        ranges,
        messages: Vec::new(),
    }
}

fn target(index: u32, health: f32) -> TargetDescriptor {
    TargetDescriptor {
        handle: ActorHandle::new(index, 1),
        health: s(health),
        position: v(0.0, 0.0, 0.0),
    }
}

fn target_of(container: &ActorContainer, handle: ActorHandle) -> Option<ActorHandle> {
    match container.get(handle) {
        Actor::Bot(bot) => bot.target.map(|t| t.handle),
        Actor::Player(_) => None,
    }
}

#[test]
fn unmeasured_ranges_are_not_numbers() {
    let measured = vec![s(1.0), s(2.0)];
    assert_eq!(range_to(&measured, 0), s(1.0));
    assert_eq!(range_to(&measured, 1), s(2.0));
    assert_eq!(range_to(&measured, 2), Scalar::from_bits(UNMEASURED));
    assert!(range_to(&measured, 2).is_nan());
    assert!(f32::from_bits(UNMEASURED).is_nan());
}

#[test]
fn closest_living_target_is_selected() {
    let me = ActorHandle::new(0, 1);
    let targets = vec![target(0, 50.0), target(1, 50.0), target(2, 50.0), target(3, 50.0)];
    let distances = vec![s(0.0), s(7.0), s(3.0), s(5.0)];
    assert_eq!(select_target(me, &targets, &distances), Some(2));
}

#[test]
fn self_is_excluded_by_handle_even_when_targets_overlap() {
    let me = ActorHandle::new(1, 1);
    let targets = vec![target(0, 50.0), target(1, 50.0), target(2, 50.0)];
    let distances = vec![s(0.0), s(0.0), s(0.0)];
    assert_eq!(select_target(me, &targets, &distances), Some(0));
    let alone = vec![target(1, 50.0)];
    assert_eq!(select_target(me, &alone, &distances), None);
    let stale_self = vec![TargetDescriptor {
        handle: ActorHandle::new(1, 2),
        health: s(50.0),
        position: v(0.0, 0.0, 0.0),
    }];
    assert_eq!(select_target(me, &stale_self, &distances), Some(0));
}

#[test]
fn dead_targets_are_never_selected() {
    let me = ActorHandle::new(0, 1);
    let targets =
        vec![target(0, 50.0), target(1, 0.0), target(2, -5.0), target(3, f32::NAN), target(4, 0.5)];
    let distances = vec![s(0.0), s(1.0), s(1.0), s(1.0), s(90.0)];
    assert_eq!(select_target(me, &targets, &distances), Some(4));
    let all_dead = vec![target(1, 0.0), target(2, -0.0)];
    assert_eq!(select_target(me, &all_dead, &distances), None);
}

#[test]
fn ties_go_to_the_first_target() {
    let me = ActorHandle::new(9, 1);
    let targets = vec![target(0, 1.0), target(1, 1.0), target(2, 1.0)];
    let distances = vec![s(4.0), s(2.0), s(2.0)];
    assert_eq!(select_target(me, &targets, &distances), Some(1));
    let zeros = vec![s(0.0), s(-0.0), s(0.0)];
    assert_eq!(select_target(me, &targets, &zeros), Some(0));
}

#[test]
fn targets_without_a_measured_distance_are_skipped() {
    let me = ActorHandle::new(9, 1);
    let targets = vec![target(0, 1.0), target(1, 1.0), target(5, 1.0)];
    let distances = vec![s(f32::NAN), s(8.0)];
    assert_eq!(select_target(me, &targets, &distances), Some(1));
    assert_eq!(select_target(me, &targets, &Vec::new()), None);
    assert_eq!(select_target(me, &Vec::new(), &distances), None);
}

#[test]
fn bot_update_stores_the_selected_target() {
    let me = ActorHandle::new(0, 1);
    let targets = vec![target(0, 50.0), target(1, 50.0), target(2, 50.0)];
    let distances = vec![s(0.0), s(7.0), s(3.0)];
    let mut bot = Bot::new(Character::new(s(10.0), BodyHandle { id: 1 }), 4);
    bot.update(me, &targets, &distances);
    assert_eq!(bot.target, Some(targets[2]));
    assert_eq!(bot.despawn_delay, 4);
    bot.update(me, &Vec::new(), &distances);
    assert_eq!(bot.target, None);
}

#[test]
fn dead_bot_counts_down_and_drops_its_target() {
    let me = ActorHandle::new(0, 1);
    let targets = vec![target(0, 50.0), target(1, 50.0)];
    let distances = vec![s(0.0), s(7.0)];
    let mut bot = Bot::new(Character::new(s(0.0), BodyHandle { id: 1 }), 2);
    bot.target = Some(targets[1]);
    bot.update(me, &targets, &distances);
    assert_eq!(bot.target, None);
    assert_eq!(bot.despawn_delay, 1);
    assert!(!bot.can_be_removed());
    bot.update(me, &targets, &distances);
    assert_eq!(bot.despawn_delay, 0);
    assert!(bot.can_be_removed());
    bot.update(me, &targets, &distances);
    assert_eq!(bot.despawn_delay, 0);
    assert!(bot.can_be_removed());
}

#[test]
fn pickups_are_queued_in_item_order() {
    let me = ActorHandle::new(3, 2);
    let items = vec![item(0, false), item(1, false), item(2, true), item(3, false), item(4, false)];
    let distances: Vec<Scalar> = [1.0f32, 1.25, 0.5, 1.2499].iter().map(|d| s(*d)).collect();
    let mut messages = vec![Message::SaveGame];
    queue_pickups(me, &items, &distances, &mut messages);
    assert_eq!(
        messages,
        vec![
            Message::SaveGame,
            Message::PickUpItem { actor: me, item: ItemHandle { index: 0, generation: 1 } },
            Message::PickUpItem { actor: me, item: ItemHandle { index: 3, generation: 1 } },
        ]
    );
}

#[test]
fn item_at_exactly_the_radius_is_not_picked_up() {
    let mut container = ActorContainer::new();
    let a = container.add(player(100.0, 1));
    let mut ctx = context(
        vec![body_at(1, v(0.0, 0.0, 0.0))],
        vec![item(0, false)],
        vec![ranges(&[0.0], &[1.25])],
    );
    container.update(&mut ctx);
    assert!(ctx.messages.is_empty());
    let mut ctx = context(
        vec![body_at(1, v(0.0, 0.0, 0.0))],
        vec![item(0, false)],
        vec![ranges(&[0.0], &[1.2499])],
    );
    container.update(&mut ctx);
    assert_eq!(
        ctx.messages,
        vec![Message::PickUpItem { actor: a, item: ItemHandle { index: 0, generation: 1 } }]
    );
}

#[test]
fn update_takes_one_target_of_each_actor() {
    let mut container = ActorContainer::new();
    let a = container.add(bot(10.0, 1, 0));
    let b = container.add(player(20.0, 2));
    let c = container.add(bot(30.0, 3, 0));
    container.free(b);
    let d = container.add(player(40.0, 4));
    let mut ctx = context(
        vec![
            body_at(1, v(1.0, 0.0, 0.0)),
            body_at(3, v(3.0, 0.0, 0.0)),
            body_at(4, v(4.0, 0.0, 0.0)),
        ],
        Vec::new(),
        vec![
            ranges(&[0.0, 3.0, 2.0], &[]),
            ranges(&[3.0, 0.0, 1.0], &[]),
            ranges(&[2.0, 1.0, 0.0], &[]),
        ],
    );
    container.update(&mut ctx);
    assert_eq!(container.count(), 3);
    assert_eq!(target_of(&container, a), Some(c));
    assert_eq!(target_of(&container, c), Some(d));
    assert_eq!(target_of(&container, d), None);
    match container.get(c) {
        Actor::Bot(bot) => {
            assert_eq!(
                bot.target,
                Some(TargetDescriptor { handle: d, health: s(40.0), position: v(4.0, 0.0, 0.0) })
            );
        }
        Actor::Player(_) => panic!("a bot was added"),
    }
    assert!(ctx.messages.is_empty());
}

#[test]
fn no_bot_ever_targets_itself() {
    let mut container = ActorContainer::new();
    let a = container.add(bot(10.0, 1, 0));
    let b = container.add(bot(10.0, 1, 0));
    let mut ctx = context(
        vec![body_at(1, v(0.0, 0.0, 0.0))],
        Vec::new(),
        vec![ranges(&[0.0, 0.0], &[]), ranges(&[0.0, 0.0], &[])],
    );
    container.update(&mut ctx);
    assert_eq!(target_of(&container, a), Some(b));
    assert_eq!(target_of(&container, b), Some(a));
    container.free(b);
    container.update(&mut ctx);
    assert_eq!(target_of(&container, a), None);
}

#[test]
fn actor_dead_before_its_tick_picks_nothing_up() {
    let mut container = ActorContainer::new();
    let dead = container.add(bot(0.0, 1, 1));
    let live = container.add(player(5.0, 2));
    let mut ctx = context(
        vec![body_at(1, v(0.0, 0.0, 0.0)), body_at(2, v(0.0, 0.0, 0.0))],
        vec![item(0, false), item(1, true)],
        vec![ranges(&[0.0, 0.0], &[0.5, 0.5]), ranges(&[0.0, 0.0], &[0.5, 0.5])],
    );
    container.update(&mut ctx);
    assert_eq!(
        ctx.messages,
        vec![
            Message::RespawnActor { actor: dead },
            Message::PickUpItem { actor: live, item: ItemHandle { index: 0, generation: 1 } },
        ]
    );
}

#[test]
fn removal_is_judged_after_the_tick() {
    let mut container = ActorContainer::new();
    let waiting = container.add(bot(0.0, 1, 2));
    let mut ctx =
        context(vec![body_at(1, v(0.0, 0.0, 0.0))], Vec::new(), vec![ranges(&[0.0], &[])]);
    container.update(&mut ctx);
    assert!(ctx.messages.is_empty());
    container.update(&mut ctx);
    assert_eq!(ctx.messages, vec![Message::RespawnActor { actor: waiting }]);
    container.update(&mut ctx);
    assert_eq!(
        ctx.messages,
        vec![Message::RespawnActor { actor: waiting }, Message::RespawnActor { actor: waiting }]
    );
}

#[test]
fn dead_player_asks_for_a_new_life_and_living_one_picks_up() {
    let mut container = ActorContainer::new();
    let dead = container.add(player(-1.0, 1));
    let live = container.add(player(1.0, 1));
    let mut ctx = context(
        vec![body_at(1, v(0.0, 0.0, 0.0))],
        vec![item(7, false)],
        vec![ranges(&[], &[0.0]), ranges(&[], &[1.0])],
    );
    ctx.messages.push(Message::QuitGame);
    container.update(&mut ctx);
    assert_eq!(
        ctx.messages,
        vec![
            Message::QuitGame,
            Message::RespawnActor { actor: dead },
            Message::PickUpItem { actor: live, item: ItemHandle { index: 7, generation: 1 } },
        ]
    );
}

#[test]
fn actors_without_ranges_pick_nothing_up() {
    let mut container = ActorContainer::new();
    let _a = container.add(player(1.0, 1));
    let b = container.add(bot(1.0, 1, 0));
    let mut ctx = context(vec![body_at(1, v(0.0, 0.0, 0.0))], vec![item(7, false)], Vec::new());
    container.update(&mut ctx);
    assert!(ctx.messages.is_empty());
    assert_eq!(target_of(&container, b), None);
}

#[test]
fn update_leaves_the_world_as_it_was() {
    let mut container = ActorContainer::new();
    container.add(player(1.0, 1));
    let mut ctx = context(
        vec![body_at(1, v(1.0, 2.0, 3.0))],
        vec![item(7, false)],
        vec![ranges(&[0.0], &[9.0])],
    );
    container.update(&mut ctx);
    assert_eq!(ctx.physics.bodies.len(), 1);
    assert_eq!(ctx.physics.bodies[0].position, v(1.0, 2.0, 3.0));
    assert_eq!(ctx.items.len(), 1);
    assert!(!ctx.items[0].is_picked_up());
    assert_eq!(ctx.ranges.len(), 1);
    assert!(ctx.jump_pads.is_empty());
}
