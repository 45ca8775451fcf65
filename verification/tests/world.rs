use junglebeast::components::{
    MeshWrapper, MoveState, Obb, PhysicsObject, Player, PointObject, Properties, Shape,
};
use junglebeast::fixed::ONE;
use junglebeast::shared::{Shared, GRAVITY, JUMP_SPEED, MOVE_SPEED, PHYSICS_STEP};
use junglebeast::store::{Component, Components, EntityId, NoSuchEntity};
use junglebeast::vec3::Vec3;

fn v(x: i64, y: i64, z: i64) -> Vec3 {
    Vec3 { x, y, z }
}

fn cube(pos: Vec3, size: Vec3) -> PhysicsObject {
    PhysicsObject::new(Shape::Obb(Obb::from_pos_size(pos, size)))
}

fn body(obj: PhysicsObject) -> Components {
    Components::empty().with(Component::Body(obj))
}

fn physics(world: &mut Shared, id: EntityId) -> PhysicsObject {
    world.get(id).unwrap().physics.unwrap()
}

#[test]
fn physics_constants_are_as_documented() {
    assert_eq!(GRAVITY, 10 * ONE);
    assert_eq!(MOVE_SPEED, ONE / 10);
    assert_eq!(JUMP_SPEED, 5 * ONE);
    assert_eq!(PHYSICS_STEP, 16_667);
}

#[test]
fn new_world_is_empty() {
    let mut world = Shared::new();
    assert!(world.ids().is_empty());
    assert!(world.query_bodies(false).is_empty());
    assert!(!world.contains(EntityId { bits: 1 << 32 }));
}

#[test]
fn spawn_gives_distinct_valid_handles() {
    let mut world = Shared::new();
    let a = world.spawn(Components::empty());
    let b = world.spawn(body(cube(v(0, 0, 0), v(ONE, ONE, ONE))));
    assert_ne!(a, b);
    assert!(a.valid());
    assert!(b.valid());
    assert!(world.contains(a));
    assert!(world.contains(b));
    assert_eq!(world.ids(), vec![a, b]);
}

#[test]
fn get_returns_what_was_spawned() {
    let mut world = Shared::new();
    let obj = cube(v(1, 2, 3), v(ONE, ONE, ONE));
    let id = world.spawn(body(obj));
    assert_eq!(world.get(id), Ok(body(obj)));
    assert_eq!(world.get(id), Ok(body(obj)));
}

#[test]
fn get_of_an_unknown_handle_fails() {
    let mut world = Shared::new();
    let id = world.spawn(Components::empty());
    assert_eq!(world.get(EntityId { bits: id.bits + 1 }), Err(NoSuchEntity));
    assert_eq!(world.get(EntityId { bits: id.bits + (1 << 32) }), Err(NoSuchEntity));
    assert_eq!(world.get(EntityId { bits: 0 }), Err(NoSuchEntity));
    assert!(!world.contains(EntityId { bits: 0 }));
}

#[test]
fn insert_adds_and_replaces_components() {
    let mut world = Shared::new();
    let id = world.spawn(Components::empty());
    assert_eq!(world.insert(id, Component::Player(Player::new())), Ok(()));
    let obj = cube(v(0, 0, 0), v(ONE, ONE, ONE));
    assert_eq!(world.insert(id, Component::Body(obj)), Ok(()));
    let mut hurt = Player::new();
    hurt.hurt(30);
    assert_eq!(world.insert(id, Component::Player(hurt)), Ok(()));
    let c = world.get(id).unwrap();
    assert_eq!(c.player, Some(hurt));
    assert_eq!(c.physics, Some(obj));
    assert_eq!(c.mesh, None);
}

#[test]
fn insert_covers_every_kind() {
    let mut world = Shared::new();
    let id = world.spawn(Components::empty());
    let mesh = MeshWrapper { vertices: Vec::new(), indices: vec![0, 1, 2], texture: None };
    world.insert(id, Component::Mesh(mesh.clone())).unwrap();
    world.insert(id, Component::Point(PointObject(v(1, 1, 1)))).unwrap();
    let props = Properties { spawn: Some(true), launch: None };
    world.insert(id, Component::Properties(props)).unwrap();
    let c = world.get(id).unwrap();
    assert_eq!(c.mesh, Some(mesh));
    assert_eq!(c.point, Some(PointObject(v(1, 1, 1))));
    assert_eq!(c.properties, Some(props));
    assert_eq!(c.spawn, None);
}

#[test]
fn insert_into_an_unknown_entity_fails() {
    let mut world = Shared::new();
    let id = EntityId { bits: (1 << 32) | 5 };
    assert_eq!(world.insert(id, Component::Player(Player::new())), Err(NoSuchEntity));
    assert!(!world.contains(id));
}

#[test]
fn spawn_at_creates_under_the_given_handle() {
    let mut world = Shared::new();
    let id = EntityId { bits: (3 << 32) | 7 };
    let obj = cube(v(0, 0, 0), v(ONE, ONE, ONE));
    assert!(world.spawn_at(id, body(obj)));
    assert!(world.contains(id));
    assert_eq!(world.get(id), Ok(body(obj)));
    assert_eq!(world.ids(), vec![id]);
}

#[test]
fn spawn_at_leaves_an_existing_entity_alone() {
    let mut world = Shared::new();
    let obj = cube(v(0, 0, 0), v(ONE, ONE, ONE));
    let id = world.spawn(body(obj));
    assert!(!world.spawn_at(id, Components::empty()));
    assert_eq!(world.get(id), Ok(body(obj)));
}

#[test]
fn spawn_at_refuses_a_handle_without_generation() {
    let mut world = Shared::new();
    assert!(!world.spawn_at(EntityId { bits: 7 }, Components::empty()));
    assert!(world.ids().is_empty());
}

#[test]
fn a_stale_handle_does_not_alias_the_new_entity() {
    let mut world = Shared::new();
    let old = world.spawn(Components::empty());
    let renewed = EntityId { bits: old.bits + (1 << 32) };
    assert!(world.spawn_at(renewed, Components::empty()));
    assert!(world.contains(renewed));
    assert!(!world.contains(old));
    assert_eq!(world.ids(), vec![renewed]);
}

#[test]
fn spawn_after_spawn_at_gives_a_fresh_handle() {
    let mut world = Shared::new();
    let far = EntityId { bits: (1 << 32) | 3 };
    assert!(world.spawn_at(far, Components::empty()));
    let a = world.spawn(Components::empty());
    let b = world.spawn(Components::empty());
    assert!(a != far && b != far && a != b);
    assert_eq!(world.ids().len(), 3);
}

#[test]
fn steps_for_forward_and_right() {
    let mut obj = cube(v(0, 0, 0), v(ONE, ONE, ONE));
    let mut state = MoveState { forward: true, ..MoveState::default() };
    Shared::handle_movement(&mut state, &mut obj);
    assert_eq!(obj.vel, v(0, 0, -100_000));
    let mut obj = cube(v(0, 0, 0), v(ONE, ONE, ONE));
    let mut state = MoveState { right: true, ..MoveState::default() };
    Shared::handle_movement(&mut state, &mut obj);
    assert_eq!(obj.vel, v(100_000, 0, 0));
}

#[test]
fn opposite_directions_cancel() {
    let mut obj = cube(v(0, 0, 0), v(ONE, ONE, ONE)).vel(v(7, 8, 9));
    let mut state =
        MoveState { forward: true, back: true, left: true, right: true, jump: false };
    Shared::handle_movement(&mut state, &mut obj);
    assert_eq!(obj.vel, v(7, 8, 9));
}

#[test]
fn steps_follow_the_orientation() {
    let mut obj = cube(v(0, 0, 0), v(ONE, ONE, ONE));
    obj.set_orientation(v(0, 0, ONE));
    let mut state = MoveState { forward: true, ..MoveState::default() };
    Shared::handle_movement(&mut state, &mut obj);
    assert_eq!(obj.vel, v(100_000, 0, 0));
    let mut obj = cube(v(0, 0, 0), v(ONE, ONE, ONE));
    obj.set_orientation(v(600_000, 0, 800_000));
    let mut state = MoveState { back: true, left: true, ..MoveState::default() };
    Shared::handle_movement(&mut state, &mut obj);
    assert_eq!(obj.vel, v(-80_000 - 60_000, 0, 60_000 - 80_000));
}

#[test]
fn diagonal_movement_is_faster() {
    let mut straight = cube(v(0, 0, 0), v(ONE, ONE, ONE));
    let mut state = MoveState { forward: true, ..MoveState::default() };
    Shared::handle_movement(&mut state, &mut straight);
    let mut diagonal = cube(v(0, 0, 0), v(ONE, ONE, ONE));
    let mut state = MoveState { forward: true, right: true, ..MoveState::default() };
    Shared::handle_movement(&mut state, &mut diagonal);
    assert_eq!(diagonal.vel, v(100_000, 0, -100_000));
    assert_eq!(straight.vel.length_sq(), 10_000_000_000);
    assert_eq!(diagonal.vel.length_sq(), 20_000_000_000);
    assert!(diagonal.vel.length_sq() > straight.vel.length_sq());
}

#[test]
fn jump_adds_jump_speed_once() {
    let mut obj = cube(v(0, 0, 0), v(ONE, ONE, ONE)).vel(v(0, -166_670, 0));
    obj.on_ground = true;
    let mut state = MoveState { jump: true, ..MoveState::default() };
    Shared::handle_movement(&mut state, &mut obj);
    assert_eq!(obj.vel, v(0, 5 * ONE - 166_670, 0));
    assert!(!state.jump);
    Shared::handle_movement(&mut state, &mut obj);
    assert_eq!(obj.vel, v(0, 5 * ONE - 166_670, 0));
    assert!(obj.on_ground);
}

#[test]
fn jump_in_the_air_is_used_up_without_effect() {
    let mut obj = cube(v(0, 0, 0), v(ONE, ONE, ONE));
    let mut state = MoveState { jump: true, ..MoveState::default() };
    Shared::handle_movement(&mut state, &mut obj);
    assert_eq!(obj.vel, v(0, 0, 0));
    assert!(!state.jump);
}

#[test]
fn jump_saturates() {
    let mut obj = cube(v(0, 0, 0), v(ONE, ONE, ONE)).vel(v(0, i64::MAX - 1, 0));
    obj.on_ground = true;
    let mut state = MoveState { jump: true, ..MoveState::default() };
    Shared::handle_movement(&mut state, &mut obj);
    assert_eq!(obj.vel.y, i64::MAX);
}

#[test]
fn a_lone_body_falls() {
    let mut world = Shared::new();
    let id = world.spawn(body(cube(v(0, ONE, 0), v(ONE, ONE, ONE))));
    world.handle_physics(PHYSICS_STEP);
    let obj = physics(&mut world, id);
    assert_eq!(obj.vel, v(0, -166_670, 0));
    assert_eq!(obj.pos(), v(0, ONE - 2_777, 0));
    assert!(!obj.on_ground);
    world.handle_physics(PHYSICS_STEP);
    let obj = physics(&mut world, id);
    assert_eq!(obj.vel, v(0, -333_340, 0));
    assert_eq!(obj.pos(), v(0, ONE - 2_777 - 5_555, 0));
}

#[test]
fn a_resting_body_stays_on_the_ground() {
    let mut world = Shared::new();
    let ground = world.spawn(body(cube(v(0, 0, 0), v(10 * ONE, ONE, 10 * ONE)).fixed()));
    let id = world.spawn(body(cube(v(0, ONE, 0), v(ONE, ONE, ONE))));
    for _ in 0..3 {
        world.handle_physics(PHYSICS_STEP);
        let obj = physics(&mut world, id);
        assert_eq!(obj.vel.y, 0);
        assert!(obj.on_ground);
        assert_eq!(obj.pos(), v(0, ONE, 0));
    }
    let g = physics(&mut world, ground);
    assert_eq!(g, cube(v(0, 0, 0), v(10 * ONE, ONE, 10 * ONE)).fixed());
}

#[test]
fn resting_does_not_depend_on_the_order_of_the_walk() {
    let mut world = Shared::new();
    let id = world.spawn(body(cube(v(0, ONE, 0), v(ONE, ONE, ONE))));
    world.spawn(body(cube(v(50 * ONE, 0, 0), v(ONE, ONE, ONE)).fixed()));
    world.spawn(body(cube(v(0, 0, 0), v(10 * ONE, ONE, 10 * ONE)).fixed()));
    world.handle_physics(PHYSICS_STEP);
    let obj = physics(&mut world, id);
    assert_eq!(obj.vel.y, 0);
    assert!(obj.on_ground);
}

#[test]
fn a_fixed_body_is_not_moved() {
    let mut world = Shared::new();
    let start = cube(v(0, 5 * ONE, 0), v(ONE, ONE, ONE)).fixed().vel(v(ONE, ONE, ONE));
    let id = world.spawn(body(start));
    world.spawn(body(cube(v(0, 5 * ONE, 0), v(ONE, ONE, ONE))));
    world.handle_physics(PHYSICS_STEP);
    assert_eq!(physics(&mut world, id), start);
}

#[test]
fn friction_slows_what_stands() {
    let mut world = Shared::new();
    world.spawn(body(cube(v(0, 0, 0), v(10 * ONE, ONE, 10 * ONE)).fixed()));
    let id = world.spawn(body(cube(v(0, ONE, 0), v(ONE, ONE, ONE)).vel(v(1_020_000, 0, -2_040_000))));
    world.handle_physics(PHYSICS_STEP);
    let obj = physics(&mut world, id);
    assert_eq!(obj.vel, v(ONE, 0, -2 * ONE));
    assert_eq!(obj.pos(), v(16_667, ONE, -33_334));
}

#[test]
fn overlapping_bodies_push_each_other_out() {
    let mut world = Shared::new();
    let a = world.spawn(body(cube(v(0, 0, 0), v(ONE, ONE, ONE))));
    let b = world.spawn(body(cube(v(300_000, 0, 0), v(ONE, ONE, ONE))));
    world.handle_physics(PHYSICS_STEP);
    let left = physics(&mut world, a);
    let right = physics(&mut world, b);
    assert_eq!(left.vel, v(-ONE, 0, 0));
    assert_eq!(right.vel, v(ONE, 0, 0));
    assert_eq!(left.pos(), v(-16_667, 0, 0));
    assert_eq!(right.pos(), v(316_667, 0, 0));
    assert!(!left.on_ground && !right.on_ground);
}

#[test]
fn a_step_reads_the_world_as_it_was() {
    let mut world = Shared::new();
    let a = world.spawn(body(cube(v(0, 0, 0), v(ONE, ONE, ONE))));
    let b = world.spawn(body(cube(v(ONE, 0, 0), v(ONE, ONE, ONE))));
    world.handle_physics(PHYSICS_STEP);
    assert_eq!(physics(&mut world, a).vel, v(-ONE, 0, 0));
    assert_eq!(physics(&mut world, b).vel, v(ONE, 0, 0));
}

#[test]
fn a_player_on_the_ground_jumps() {
    let mut world = Shared::new();
    world.spawn(body(cube(v(0, 0, 0), v(10 * ONE, ONE, 10 * ONE)).fixed()));
    let mut player = Player::new();
    player.moves.set_jump();
    let id = world.spawn(
        body(cube(v(0, 1_500_000, 0), v(ONE, 2 * ONE, ONE))).with(Component::Player(player)),
    );
    world.handle_physics(PHYSICS_STEP);
    let c = world.get(id).unwrap();
    let obj = c.physics.unwrap();
    assert_eq!(obj.vel, v(0, 5 * ONE, 0));
    assert_eq!(obj.pos(), v(0, 1_500_000 + 83_335, 0));
    assert!(!c.player.unwrap().moves.jump);
    assert_eq!(c.player.unwrap().hp(), 100);
    world.handle_physics(PHYSICS_STEP);
    let obj = physics(&mut world, id);
    assert_eq!(obj.vel, v(0, 0, 0));
    assert!(obj.on_ground);
}

#[test]
fn an_entity_without_a_body_is_left_alone() {
    let mut world = Shared::new();
    let mut player = Player::new();
    player.moves.set_jump();
    let c = Components::empty().with(Component::Player(player));
    let id = world.spawn(c.clone());
    world.handle_physics(PHYSICS_STEP);
    assert_eq!(world.get(id), Ok(c));
}

#[test]
fn run_steps_takes_whole_steps() {
    let mut world = Shared::new();
    let id = world.spawn(body(cube(v(0, ONE, 0), v(ONE, ONE, ONE))));
    let mut left = 0;
    assert_eq!(world.run_steps(&mut left, 16_666), 0);
    assert_eq!(left, 16_666);
    assert_eq!(physics(&mut world, id).pos(), v(0, ONE, 0));
    assert_eq!(world.run_steps(&mut left, 1), 1);
    assert_eq!(left, 0);
    assert_eq!(physics(&mut world, id).vel, v(0, -166_670, 0));
    assert_eq!(world.run_steps(&mut left, 40_000), 2);
    assert_eq!(left, 40_000 - 2 * 16_667);
    assert_eq!(physics(&mut world, id).vel, v(0, -3 * 166_670, 0));
}

#[test]
fn run_steps_with_negative_time_does_nothing() {
    let mut world = Shared::new();
    let mut left = 100;
    assert_eq!(world.run_steps(&mut left, -500), 0);
    assert_eq!(left, -400);
}

#[test]
fn queries_walk_in_spawn_order() {
    let mut world = Shared::new();
    let ground = cube(v(0, 0, 0), v(ONE, ONE, ONE)).fixed();
    let a = world.spawn(body(ground));
    let b = world.spawn(Components::empty().with(Component::Player(Player::new())));
    let free = cube(v(0, 9 * ONE, 0), v(ONE, ONE, ONE));
    let c = world.spawn(body(free).with(Component::Player(Player::new())));
    assert_eq!(world.query_bodies(false), vec![(a, ground), (c, free)]);
    assert_eq!(world.query_bodies(true), vec![(c, free)]);
    assert_eq!(world.query_players(), vec![(b, Player::new()), (c, Player::new())]);
    assert!(world.query_meshes().is_empty());
    let mesh = MeshWrapper { vertices: Vec::new(), indices: Vec::new(), texture: None };
    world.insert(a, Component::Mesh(mesh.clone())).unwrap();
    assert_eq!(world.query_meshes(), vec![(a, mesh)]);
}
