use junglebeast::components::{Obb, PhysicsObject, Player, Properties, Shape, Spawn};
use junglebeast::network::{
    client_channel, server_channel, Channel, ClientMessage, Columns, ServerMessage,
};
use junglebeast::store::EntityId;
use junglebeast::vec3::Vec3;

fn id(n: u64) -> EntityId {
    EntityId { bits: (1 << 32) | n }
}

fn body() -> PhysicsObject {
    PhysicsObject::new(Shape::Obb(Obb::from_pos_size(Vec3::zero(), Vec3::zero())))
}

#[test]
fn empty_columns_mention_nobody() {
    let columns = Columns::default();
    assert!(columns.physics_object.is_empty());
    assert!(columns.mesh_wrapper.is_empty());
    assert!(columns.player.is_empty());
    assert!(columns.spawn.is_empty());
    assert!(columns.properties.is_empty());
    assert!(columns.ids().is_empty());
    assert_eq!(Columns::new(), Columns::default());
}

#[test]
fn ids_lists_each_entity_once() {
    let mut columns = Columns::new();
    columns.physics_object.push((id(3), body()));
    columns.physics_object.push((id(1), body()));
    columns.player.push((id(1), Player::new()));
    columns.player.push((id(2), Player::new()));
    columns.spawn.push((id(3), Spawn::player(Vec3::zero())));
    columns.properties.push((id(9), Properties { spawn: None, launch: None }));
    assert_eq!(columns.ids(), vec![id(3), id(1), id(2), id(9)]);
}

#[test]
fn ids_handles_repeats_within_a_column() {
    let mut columns = Columns::new();
    columns.player.push((id(5), Player::new()));
    columns.player.push((id(5), Player::new()));
    columns.player.push((id(4), Player::new()));
    columns.player.push((id(5), Player::new()));
    assert_eq!(columns.ids(), vec![id(5), id(4)]);
}

#[test]
fn ids_tells_generations_apart() {
    let mut columns = Columns::new();
    columns.player.push((EntityId { bits: (1 << 32) | 7 }, Player::new()));
    columns.player.push((EntityId { bits: (2 << 32) | 7 }, Player::new()));
    assert_eq!(columns.ids().len(), 2);
}

#[test]
fn messages_compare_by_content() {
    assert_eq!(ServerMessage::AssignId(id(1)), ServerMessage::AssignId(id(1)));
    assert_ne!(ServerMessage::AssignId(id(1)), ServerMessage::AssignId(id(2)));
    assert_eq!(ClientMessage::Shot(id(1)), ClientMessage::Shot(id(1)));
    assert_ne!(ClientMessage::Shot(id(1)), ClientMessage::SetRotation(Vec3::zero()));
}

#[test]
fn a_handle_travels_reliably() {
    let join = vec![ServerMessage::AssignId(id(1)), ServerMessage::Ecs(Columns::new())];
    assert_eq!(server_channel(&join), Channel::ReliableOrdered);
    let late = vec![ServerMessage::Ecs(Columns::new()), ServerMessage::AssignId(id(1))];
    assert_eq!(server_channel(&late), Channel::ReliableOrdered);
}

#[test]
fn state_and_commands_travel_unreliably() {
    assert_eq!(server_channel(&vec![ServerMessage::Ecs(Columns::new())]), Channel::Unreliable);
    assert_eq!(server_channel(&Vec::new()), Channel::Unreliable);
    assert_eq!(client_channel(), Channel::Unreliable);
}
