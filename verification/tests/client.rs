use junglebeast::client::{reconcile, Client, SMOOTH_STEP, SNAP_DISTANCE};
use junglebeast::components::{MeshWrapper, MoveState, Obb, PhysicsObject, Player, Shape, Spawn};
use junglebeast::fixed::ONE;
use junglebeast::network::{ClientMessage, Columns, ServerMessage};
use junglebeast::server::Server;
use junglebeast::store::{Component, Components, EntityId};
use junglebeast::vec3::Vec3;

fn v(x: i64, y: i64, z: i64) -> Vec3 {
    Vec3 { x, y, z }
}

fn cube(pos: Vec3, size: Vec3) -> PhysicsObject {
    PhysicsObject::new(Shape::Obb(Obb::from_pos_size(pos, size)))
}

fn body(obj: PhysicsObject) -> Components {
    Components::empty().with(Component::Body(obj))
}

fn id(n: u64) -> EntityId {
    EntityId { bits: (1 << 32) | n }
}

fn bodies(entries: Vec<(EntityId, PhysicsObject)>) -> ServerMessage {
    let mut columns = Columns::new();
    columns.physics_object = entries;
    ServerMessage::Ecs(columns)
}

#[test]
fn client_constants_are_as_documented() {
    assert_eq!(SNAP_DISTANCE, ONE / 2);
    assert_eq!(SMOOTH_STEP, 5_000);
}

#[test]
fn small_differences_are_smoothed() {
    assert_eq!(reconcile(v(0, 0, 0), v(100_000, 0, 0)), v(5_000, 0, 0));
    assert_eq!(reconcile(v(ONE, ONE, ONE), v(ONE, ONE - 400_000, ONE)), v(ONE, ONE - 5_000, ONE));
    assert_eq!(reconcile(v(0, 0, 0), v(30_000, 0, -40_000)), v(3_000, 0, -4_000));
}

#[test]
fn smoothing_does_not_go_all_the_way() {
    let shown = reconcile(v(0, 0, 0), v(499_999, 0, 0));
    assert_eq!(shown, v(5_000, 0, 0));
    assert_ne!(shown, v(499_999, 0, 0));
}

#[test]
fn large_differences_snap() {
    assert_eq!(reconcile(v(0, 0, 0), v(500_000, 0, 0)), v(500_000, 0, 0));
    assert_eq!(reconcile(v(0, 0, 0), v(0, 60 * ONE, 0)), v(0, 60 * ONE, 0));
    assert_eq!(reconcile(v(0, 0, 0), v(300_000, 300_000, 300_000)), v(300_000, 300_000, 300_000));
    assert_eq!(reconcile(v(i64::MIN, 0, 0), v(i64::MAX, 0, 0)), v(i64::MAX, 0, 0));
}

#[test]
fn differences_within_one_step_are_closed() {
    assert_eq!(reconcile(v(0, 0, 0), v(3_000, 0, 0)), v(3_000, 0, 0));
    assert_eq!(reconcile(v(0, 0, 0), v(5_000, 0, 0)), v(5_000, 0, 0));
    assert_eq!(reconcile(v(7, 7, 7), v(7, 7, 7)), v(7, 7, 7));
}

#[test]
fn new_client_is_connecting() {
    let mut client = Client::new();
    assert_eq!(client.player, None);
    assert!(!client.connected());
    client.handle_msg(ServerMessage::AssignId(id(3)));
    assert_eq!(client.player, Some(id(3)));
    assert!(!client.connected());
    client.handle_msg(bodies(vec![(id(3), cube(v(0, 0, 0), v(ONE, ONE, ONE)))]));
    assert!(client.connected());
}

#[test]
fn unknown_entities_are_mirrored() {
    let mut client = Client::new();
    let a = cube(v(0, 0, 0), v(ONE, ONE, ONE));
    let b = cube(v(9 * ONE, 0, 0), v(ONE, ONE, ONE)).fixed();
    client.handle_msg(bodies(vec![(id(7), a), (id(2), b)]));
    assert_eq!(client.shared.get(id(7)), Ok(body(a)));
    assert_eq!(client.shared.get(id(2)), Ok(body(b)));
    assert_eq!(client.shared.ids().len(), 2);
}

#[test]
fn known_bodies_are_overwritten_with_smoothing() {
    let mut client = Client::new();
    client.handle_msg(bodies(vec![(id(1), cube(v(0, 0, 0), v(ONE, ONE, ONE)))]));
    let mut update = cube(v(100_000, 0, 0), v(ONE, ONE, ONE)).vel(v(1, 2, 3));
    update.on_ground = true;
    client.handle_msg(bodies(vec![(id(1), update)]));
    let held = client.shared.get(id(1)).unwrap().physics.unwrap();
    assert_eq!(held.pos(), v(5_000, 0, 0));
    assert_eq!(held.vel, v(1, 2, 3));
    assert!(held.on_ground);
}

#[test]
fn known_bodies_snap_when_far() {
    let mut client = Client::new();
    client.handle_msg(bodies(vec![(id(1), cube(v(0, 0, 0), v(ONE, ONE, ONE)))]));
    let update = cube(v(0, 60 * ONE, 0), v(ONE, ONE, ONE));
    client.handle_msg(bodies(vec![(id(1), update)]));
    assert_eq!(client.shared.get(id(1)), Ok(body(update)));
}

#[test]
fn players_and_other_columns_are_taken_in() {
    let mut client = Client::new();
    let mut columns = Columns::new();
    let obj = cube(v(0, 0, 0), v(ONE, ONE, ONE));
    let mesh = MeshWrapper { vertices: Vec::new(), indices: vec![1, 2, 3], texture: None };
    columns.physics_object.push((id(1), obj));
    columns.player.push((id(1), Player::new()));
    columns.player.push((id(2), Player::new()));
    columns.mesh_wrapper.push((id(3), mesh.clone()));
    columns.mesh_wrapper.push((id(1), mesh.clone()));
    columns.spawn.push((id(4), Spawn::player(v(1, 1, 1))));
    client.handle_msg(ServerMessage::Ecs(columns));
    let c = client.shared.get(id(1)).unwrap();
    assert_eq!(c.physics, Some(obj));
    assert_eq!(c.player, Some(Player::new()));
    assert_eq!(c.mesh, Some(mesh.clone()));
    let c = client.shared.get(id(2)).unwrap();
    assert_eq!(c.physics, None);
    assert_eq!(c.player, Some(Player::new()));
    assert_eq!(client.shared.get(id(3)).unwrap().mesh, Some(mesh));
    assert_eq!(client.shared.get(id(4)).unwrap().spawn, Some(Spawn::player(v(1, 1, 1))));
    assert_eq!(client.shared.ids().len(), 4);
}

#[test]
fn handles_without_generation_are_passed_over() {
    let mut client = Client::new();
    client.handle_msg(bodies(vec![
        (EntityId { bits: 5 }, cube(v(0, 0, 0), v(ONE, ONE, ONE))),
        (id(6), cube(v(0, 0, 0), v(ONE, ONE, ONE))),
    ]));
    assert_eq!(client.shared.ids(), vec![id(6)]);
}

#[test]
fn a_new_generation_replaces_the_old_entity() {
    let mut client = Client::new();
    let old = EntityId { bits: (1 << 32) | 4 };
    let new = EntityId { bits: (2 << 32) | 4 };
    client.handle_msg(bodies(vec![(old, cube(v(0, 0, 0), v(ONE, ONE, ONE)))]));
    client.handle_msg(bodies(vec![(new, cube(v(ONE, 0, 0), v(ONE, ONE, ONE)))]));
    assert!(!client.shared.contains(old));
    assert!(client.shared.contains(new));
    assert_eq!(client.shared.ids(), vec![new]);
}

#[test]
fn a_joining_client_holds_what_the_server_holds() {
    let mut server = Server::new();
    let ground = cube(v(0, 0, 0), v(10 * ONE, ONE, 10 * ONE)).fixed();
    let mesh = MeshWrapper { vertices: Vec::new(), indices: vec![0, 1, 2], texture: None };
    let level = server.shared.spawn(body(ground).with(Component::Mesh(mesh.clone())));
    let decor = server.shared.spawn(Components::empty().with(Component::Mesh(mesh.clone())));
    let lonely = server.shared.spawn(Components::empty().with(Component::Player(Player::new())));
    let mut client = Client::new();
    for message in server.connect_at(1, v(0, 3 * ONE, 0)) {
        client.handle_msg(message);
    }
    let me = client.player.unwrap();
    assert!(client.connected());
    assert_eq!(client.shared.get(level), Ok(body(ground).with(Component::Mesh(mesh.clone()))));
    assert_eq!(client.shared.get(decor), Ok(Components::empty().with(Component::Mesh(mesh))));
    assert_eq!(
        client.shared.get(me).unwrap().physics,
        server.shared.get(me).unwrap().physics
    );
    assert!(!client.shared.contains(lonely));
    assert_eq!(client.shared.ids().len(), 3);
    for message in server.network_send() {
        client.handle_msg(message);
    }
    assert_eq!(client.shared.get(me), server.shared.get(me));
    assert!(client.shared.contains(lonely));
}

#[test]
fn command_sends_rotation_and_movement() {
    let mut client = Client::new();
    let keys = MoveState { forward: true, jump: true, ..MoveState::default() };
    assert!(client.command(v(0, 0, ONE), keys).is_empty());
    client.handle_msg(ServerMessage::AssignId(id(1)));
    assert!(client.command(v(0, 0, ONE), keys).is_empty());
    client.handle_msg(bodies(vec![(id(1), cube(v(0, 0, 0), v(ONE, ONE, ONE)))]));
    assert!(client.command(v(0, 0, ONE), keys).is_empty());
    assert_eq!(client.shared.get(id(1)).unwrap().physics.unwrap().orientation(), v(0, 0, ONE));
    client.shared.insert(id(1), Component::Player(Player::new())).unwrap();
    let messages = client.command(v(0, ONE, 0), keys);
    assert_eq!(
        messages,
        vec![ClientMessage::SetRotation(v(0, ONE, 0)), ClientMessage::SetMoveState(keys)]
    );
    let c = client.shared.get(id(1)).unwrap();
    assert_eq!(c.physics.unwrap().orientation(), v(0, ONE, 0));
    assert_eq!(c.player.unwrap().moves, keys);
    let messages = client.command(v(0, ONE, 0), MoveState::default());
    assert_eq!(messages[1], ClientMessage::SetMoveState(MoveState::default()));
    assert_eq!(client.shared.get(id(1)).unwrap().player.unwrap().moves, MoveState::default());
}

#[test]
fn advance_makes_good_the_time_before_the_own_entity() {
    let mut client = Client::new();
    client.handle_msg(bodies(vec![(id(2), cube(v(0, ONE, 0), v(ONE, ONE, ONE)))]));
    assert_eq!(client.advance(50_000), 0);
    assert_eq!(client.dt_accumulator, 50_000);
    assert_eq!(client.shared.get(id(2)).unwrap().physics.unwrap().vel, v(0, 0, 0));
    client.handle_msg(ServerMessage::AssignId(id(2)));
    assert_eq!(client.advance(50_000), 5);
    assert_eq!(client.dt_accumulator, 100_000 - 5 * 16_667);
    assert_eq!(client.shared.get(id(2)).unwrap().physics.unwrap().vel, v(0, -833_350, 0));
    assert_eq!(client.advance(1), 0);
    assert_eq!(client.advance(1), 1);
    assert_eq!(client.dt_accumulator, 0);
}

#[test]
fn shoot_reports_the_first_player_in_the_line_of_fire() {
    let mut client = Client::new();
    assert_eq!(client.shoot(v(ONE, 0, 0)), None);
    client.handle_msg(ServerMessage::AssignId(id(1)));
    let mut columns = Columns::new();
    columns.physics_object.push((id(1), cube(v(0, 0, 0), v(ONE, ONE, ONE))));
    columns.physics_object.push((id(2), cube(v(5 * ONE, 0, 0), v(ONE, ONE, ONE))));
    columns.physics_object.push((id(3), cube(v(0, 0, 5 * ONE), v(ONE, ONE, ONE))));
    columns.physics_object.push((id(4), cube(v(0, 0, 9 * ONE), v(ONE, ONE, ONE))));
    columns.player.push((id(1), Player::new()));
    columns.player.push((id(2), Player::new()));
    columns.player.push((id(4), Player::new()));
    client.handle_msg(ServerMessage::Ecs(columns));
    assert_eq!(client.shoot(v(ONE, 0, 0)), Some(ClientMessage::Shot(id(2))));
    assert_eq!(client.shoot(v(0, 0, ONE)), None);
    assert_eq!(client.shoot(v(-ONE, 0, 0)), None);
    assert_eq!(client.shoot(v(0, ONE, 0)), None);
}

#[test]
fn a_body_named_twice_is_reconciled_twice() {
    let mut client = Client::new();
    client.handle_msg(bodies(vec![(id(1), cube(v(0, 0, 0), v(ONE, ONE, ONE)))]));
    let update = cube(v(100_000, 0, 0), v(ONE, ONE, ONE));
    client.handle_msg(bodies(vec![(id(1), update), (id(1), update)]));
    let held = client.shared.get(id(1)).unwrap().physics.unwrap();
    assert_eq!(held.pos(), v(10_000, 0, 0));
}

#[test]
fn other_entries_of_a_message_do_not_disturb_the_smoothing() {
    let mut client = Client::new();
    client.handle_msg(bodies(vec![(id(1), cube(v(0, 0, 0), v(ONE, ONE, ONE)))]));
    let mut columns = Columns::new();
    columns.physics_object.push((id(2), cube(v(9 * ONE, 0, 0), v(ONE, ONE, ONE))));
    columns.physics_object.push((id(1), cube(v(0, 400_000, 0), v(ONE, ONE, ONE))));
    columns.physics_object.push((id(3), cube(v(0, 9 * ONE, 0), v(ONE, ONE, ONE))));
    columns.player.push((id(1), Player::new()));
    columns.player.push((id(3), Player::new()));
    client.handle_msg(ServerMessage::Ecs(columns));
    let c = client.shared.get(id(1)).unwrap();
    assert_eq!(c.physics.unwrap().pos(), v(0, 5_000, 0));
    assert_eq!(c.player, Some(Player::new()));
}
