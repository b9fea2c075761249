use rusty_shooter::contact::launch_body;
use rusty_shooter::actor::Actor;
use rusty_shooter::actor::ActorContainer;
use rusty_shooter::bot::Bot;
use rusty_shooter::character::Character;
use rusty_shooter::handle::BodyHandle;
use rusty_shooter::handle::ColliderHandle;
use rusty_shooter::level::ContactEvent;
use rusty_shooter::level::JumpPad;
use rusty_shooter::level::Physics;
use rusty_shooter::level::RigidBody;
use rusty_shooter::level::UpdateContext;
use rusty_shooter::player::Player;
use rusty_shooter::scalar::Scalar;
use rusty_shooter::scalar::Vector3;

fn s(x: f32) -> Scalar {
    Scalar::from_bits(x.to_bits())
}

fn v(x: f32, y: f32, z: f32) -> Vector3 {
    Vector3::new(s(x), s(y), s(z))
}

fn c(index: u32) -> ColliderHandle {
    ColliderHandle { index, generation: 0 }
}

fn body(id: u128, colliders: Vec<ColliderHandle>) -> RigidBody {
    RigidBody {
        handle: BodyHandle { id },
        position: v(0.0, 0.0, 0.0),
        linvel: v(0.5, 0.5, 0.5),
        colliders,
    }
}

fn pad(body: u128, force: Vector3) -> JumpPad {
    JumpPad { body: BodyHandle { id: body }, force }
}

fn world(bodies: Vec<RigidBody>, jump_pads: Vec<JumpPad>) -> UpdateContext {
    UpdateContext {
        physics: Physics { bodies },
        items: Vec::new(),
        jump_pads,
        ranges: Vec::new(),
        messages: Vec::new(),
    }
}

fn player(body: u128) -> Actor {
    Actor::Player(Player::new(Character::new(s(100.0), BodyHandle { id: body })))
}

fn bot(body: u128) -> Actor {
    Actor::Bot(Bot::new(Character::new(s(100.0), BodyHandle { id: body }), 0))
}

#[test]
fn jump_pad_launches_the_actor_that_touches_it() {
    let mut container = ActorContainer::new();
    container.add(player(1));
    let force = v(0.0, 12.5, -3.0);
    let mut ctx = world(vec![body(1, vec![c(10), c(11)]), body(2, vec![c(20)])], vec![pad(2, force)]);
    container.handle_event(&ContactEvent::Started(c(10), c(20)), &mut ctx);
    assert_eq!(ctx.physics.bodies[0].linvel, force);
    assert_eq!(ctx.physics.bodies[1].linvel, v(0.5, 0.5, 0.5));
    assert_eq!(container.count(), 1);
}

#[test]
fn contact_is_recognised_in_either_order() {
    let mut container = ActorContainer::new();
    container.add(bot(1));
    let force = v(1.0, 2.0, 3.0);
    let mut ctx = world(vec![body(1, vec![c(10)]), body(2, vec![c(20)])], vec![pad(2, force)]);
    container.handle_event(&ContactEvent::Started(c(20), c(10)), &mut ctx);
    assert_eq!(ctx.physics.bodies[0].linvel, force);
    assert_eq!(ctx.physics.bodies[1].linvel, v(0.5, 0.5, 0.5));
}

#[test]
fn end_of_contact_launches_nobody() {
    let mut container = ActorContainer::new();
    container.add(player(1));
    let mut ctx =
        world(vec![body(1, vec![c(10)]), body(2, vec![c(20)])], vec![pad(2, v(1.0, 2.0, 3.0))]);
    container.handle_event(&ContactEvent::Stopped(c(10), c(20)), &mut ctx);
    assert_eq!(ctx.physics.bodies[0].linvel, v(0.5, 0.5, 0.5));
    assert_eq!(ctx.physics.bodies[1].linvel, v(0.5, 0.5, 0.5));
}

#[test]
fn only_the_capsule_counts() {
    let mut container = ActorContainer::new();
    container.add(player(1));
    let mut ctx = world(
        vec![body(1, vec![c(10), c(11)]), body(2, vec![c(20)])],
        vec![pad(2, v(1.0, 2.0, 3.0))],
    );
    container.handle_event(&ContactEvent::Started(c(11), c(20)), &mut ctx);
    assert_eq!(ctx.physics.bodies[0].linvel, v(0.5, 0.5, 0.5));
}

#[test]
fn contact_with_something_else_launches_nobody() {
    let mut container = ActorContainer::new();
    container.add(player(1));
    let mut ctx = world(
        vec![body(1, vec![c(10)]), body(2, vec![c(20)]), body(3, vec![c(30)])],
        vec![pad(2, v(1.0, 2.0, 3.0))],
    );
    container.handle_event(&ContactEvent::Started(c(10), c(30)), &mut ctx);
    assert_eq!(ctx.physics.bodies[0].linvel, v(0.5, 0.5, 0.5));
    container.handle_event(&ContactEvent::Started(c(30), c(20)), &mut ctx);
    assert_eq!(ctx.physics.bodies[0].linvel, v(0.5, 0.5, 0.5));
    assert_eq!(ctx.physics.bodies[2].linvel, v(0.5, 0.5, 0.5));
}

#[test]
fn only_the_touching_actor_is_launched() {
    let mut container = ActorContainer::new();
    container.add(player(1));
    container.add(bot(3));
    let force = v(0.0, 9.0, 0.0);
    let mut ctx = world(
        vec![body(1, vec![c(10)]), body(2, vec![c(20)]), body(3, vec![c(30)])],
        vec![pad(2, force)],
    );
    container.handle_event(&ContactEvent::Started(c(30), c(20)), &mut ctx);
    assert_eq!(ctx.physics.bodies[0].linvel, v(0.5, 0.5, 0.5));
    assert_eq!(ctx.physics.bodies[2].linvel, force);
}

#[test]
fn last_matching_pad_wins() {
    let mut container = ActorContainer::new();
    container.add(player(1));
    let mut ctx = world(
        vec![body(1, vec![c(10)]), body(2, vec![c(20)])],
        vec![pad(2, v(1.0, 0.0, 0.0)), pad(5, v(2.0, 0.0, 0.0)), pad(2, v(3.0, 0.0, 0.0))],
    );
    container.handle_event(&ContactEvent::Started(c(10), c(20)), &mut ctx);
    assert_eq!(ctx.physics.bodies[0].linvel, v(3.0, 0.0, 0.0));
}

#[test]
fn without_pads_or_actors_nothing_is_looked_up() {
    let mut container = ActorContainer::new();
    let mut ctx = world(vec![body(2, vec![c(20)])], vec![pad(2, v(1.0, 0.0, 0.0))]);
    container.handle_event(&ContactEvent::Started(c(77), c(78)), &mut ctx);
    assert_eq!(ctx.physics.bodies[0].linvel, v(0.5, 0.5, 0.5));
    container.add(player(99));
    let mut ctx = world(vec![body(2, vec![c(20)])], Vec::new());
    container.handle_event(&ContactEvent::Started(c(77), c(78)), &mut ctx);
    assert_eq!(ctx.physics.bodies[0].linvel, v(0.5, 0.5, 0.5));
}

#[test]
fn freed_actors_are_not_launched() {
    let mut container = ActorContainer::new();
    let a = container.add(player(1));
    container.add(player(3));
    container.free(a);
    let mut ctx = world(
        vec![body(1, vec![c(10)]), body(2, vec![c(20)]), body(3, vec![c(30)])],
        vec![pad(2, v(0.0, 9.0, 0.0))],
    );
    container.handle_event(&ContactEvent::Started(c(10), c(20)), &mut ctx);
    assert_eq!(ctx.physics.bodies[0].linvel, v(0.5, 0.5, 0.5));
}

#[test]
fn collider_parent_is_the_body_that_lists_it() {
    let physics = Physics { bodies: vec![body(1, vec![c(10), c(11)]), body(2, vec![c(20)])] };
    assert_eq!(physics.collider_parent(c(10)), Some(BodyHandle { id: 1 }));
    assert_eq!(physics.collider_parent(c(11)), Some(BodyHandle { id: 1 }));
    assert_eq!(physics.collider_parent(c(20)), Some(BodyHandle { id: 2 }));
    assert_eq!(physics.collider_parent(c(30)), None);
    assert_eq!(physics.collider_parent(ColliderHandle { index: 10, generation: 1 }), None);
}

#[test]
fn launch_body_sets_the_velocity_of_one_body() {
    let mut physics = Physics { bodies: vec![body(1, vec![c(10)]), body(2, vec![c(20)])] };
    let pads = vec![pad(2, v(0.0, 4.0, 0.0))];
    launch_body(&mut physics, 0, &pads, c(10), c(20), BodyHandle { id: 1 }, BodyHandle { id: 2 });
    assert_eq!(physics.bodies[0].linvel, v(0.0, 4.0, 0.0));
    assert_eq!(physics.bodies[1].linvel, v(0.5, 0.5, 0.5));
    launch_body(&mut physics, 1, &pads, c(10), c(20), BodyHandle { id: 1 }, BodyHandle { id: 2 });
    assert_eq!(physics.bodies[1].linvel, v(0.5, 0.5, 0.5));
    let pad = &pads[0];
    assert_eq!(pad.rigid_body(), BodyHandle { id: 2 });
    assert_eq!(pad.get_force(), v(0.0, 4.0, 0.0));
}

#[test]
fn readiness_for_a_contact_is_tested_against_the_world() {
    let mut container = ActorContainer::new();
    let bare = world(vec![body(2, vec![c(20)])], vec![pad(2, v(1.0, 0.0, 0.0))]);
    assert!(container.is_ready_for_contact(&bare, c(77), c(78)));
    container.add(player(1));
    assert!(!container.is_ready_for_contact(&bare, c(20), c(20)));
    let padless = world(vec![body(2, vec![c(20)])], Vec::new());
    assert!(container.is_ready_for_contact(&padless, c(77), c(78)));
    let full = world(vec![body(1, vec![c(10)]), body(2, vec![c(20)])], vec![pad(2, v(1.0, 0.0, 0.0))]);
    assert!(container.is_ready_for_contact(&full, c(10), c(20)));
    assert!(container.is_ready_for_contact(&full, c(20), c(20)));
    assert!(!container.is_ready_for_contact(&full, c(10), c(99)));
    assert!(!container.is_ready_for_contact(&full, c(99), c(20)));
    let no_capsule =
        world(vec![body(1, Vec::new()), body(2, vec![c(20)])], vec![pad(2, v(1.0, 0.0, 0.0))]);
    assert!(!container.is_ready_for_contact(&no_capsule, c(20), c(20)));
}
