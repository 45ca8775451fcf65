use junglebeast::components::{Obb, PhysicsObject, Player, Shape};
use junglebeast::fixed::ONE;
use junglebeast::hitscan::entry;
use junglebeast::shared::Shared;
use junglebeast::store::{Component, Components, EntityId};
use junglebeast::vec3::Vec3;

fn v(x: i64, y: i64, z: i64) -> Vec3 {
    Vec3 { x, y, z }
}

fn cube(pos: Vec3, size: Vec3) -> PhysicsObject {
    PhysicsObject::new(Shape::Obb(Obb::from_pos_size(pos, size)))
}

fn add(world: &mut Shared, pos: Vec3, size: Vec3) -> EntityId {
    world.spawn(Components::empty().with(Component::Body(cube(pos, size))))
}

#[test]
fn ray_from_above_hits_the_top_of_the_box() {
    let mut world = Shared::new();
    let id = add(&mut world, v(0, 0, 0), v(2 * ONE, 2 * ONE, 2 * ONE));
    let hit = world.ray_intersection(v(0, 2 * ONE, 0), v(0, -ONE, 0), &Vec::new());
    assert_eq!(hit, Some((v(0, ONE, 0), id)));
}

#[test]
fn entry_parameter_is_the_distance_for_a_unit_direction() {
    let obj = cube(v(0, 0, 0), v(2 * ONE, 2 * ONE, 2 * ONE));
    assert_eq!(entry(&obj, v(0, 2 * ONE, 0), v(0, -ONE, 0)), Some(ONE));
    assert_eq!(entry(&obj, v(-5 * ONE, 0, 0), v(ONE, 0, 0)), Some(4 * ONE));
    assert_eq!(entry(&obj, v(-5 * ONE, 0, 0), v(2 * ONE, 0, 0)), Some(2 * ONE));
}

#[test]
fn ray_that_points_away_misses() {
    let obj = cube(v(0, 0, 0), v(2 * ONE, 2 * ONE, 2 * ONE));
    assert_eq!(entry(&obj, v(0, 2 * ONE, 0), v(0, ONE, 0)), None);
}

#[test]
fn ray_beside_the_box_misses() {
    let obj = cube(v(0, 0, 0), v(2 * ONE, 2 * ONE, 2 * ONE));
    assert_eq!(entry(&obj, v(ONE + 1, 2 * ONE, 0), v(0, -ONE, 0)), None);
    assert_eq!(entry(&obj, v(ONE, 2 * ONE, 0), v(0, -ONE, 0)), Some(ONE));
}

#[test]
fn ray_from_inside_enters_at_zero() {
    let obj = cube(v(0, 0, 0), v(2 * ONE, 2 * ONE, 2 * ONE));
    assert_eq!(entry(&obj, v(0, 0, 0), v(0, -ONE, 0)), Some(0));
    assert_eq!(entry(&obj, v(0, 0, 0), v(0, 0, 0)), Some(0));
}

#[test]
fn ray_without_direction_outside_misses() {
    let obj = cube(v(0, 0, 0), v(2 * ONE, 2 * ONE, 2 * ONE));
    assert_eq!(entry(&obj, v(0, 2 * ONE, 0), v(0, 0, 0)), None);
}

#[test]
fn diagonal_ray_enters_where_the_last_slab_begins() {
    let obj = cube(v(0, 0, 0), v(2 * ONE, 2 * ONE, 2 * ONE));
    assert_eq!(entry(&obj, v(-3 * ONE, -2 * ONE, 0), v(ONE, ONE, 0)), Some(2 * ONE));
    assert_eq!(entry(&obj, v(-3 * ONE, 2 * ONE, 0), v(ONE, ONE, 0)), None);
}

#[test]
fn the_nearest_body_wins() {
    let mut world = Shared::new();
    let far = add(&mut world, v(10 * ONE, 0, 0), v(ONE, ONE, ONE));
    let near = add(&mut world, v(5 * ONE, 0, 0), v(ONE, ONE, ONE));
    let hit = world.ray_intersection(v(0, 0, 0), v(ONE, 0, 0), &Vec::new());
    assert_eq!(hit, Some((v(4_500_000, 0, 0), near)));
    let hit = world.ray_intersection(v(0, 0, 0), v(ONE, 0, 0), &vec![near]);
    assert_eq!(hit, Some((v(9_500_000, 0, 0), far)));
    let hit = world.ray_intersection(v(0, 0, 0), v(ONE, 0, 0), &vec![near, far]);
    assert_eq!(hit, None);
}

#[test]
fn of_two_bodies_at_the_same_distance_the_first_wins() {
    let mut world = Shared::new();
    let first = add(&mut world, v(5 * ONE, 0, 0), v(ONE, ONE, ONE));
    let _second = add(&mut world, v(5 * ONE, 0, 200_000), v(ONE, ONE, ONE));
    let hit = world.ray_intersection(v(0, 0, 0), v(ONE, 0, 0), &Vec::new());
    assert_eq!(hit, Some((v(4_500_000, 0, 0), first)));
}

#[test]
fn empty_world_has_nothing_to_hit() {
    let mut world = Shared::new();
    assert_eq!(world.ray_intersection(v(0, 0, 0), v(ONE, 0, 0), &Vec::new()), None);
}

#[test]
fn entities_without_a_body_are_not_hit() {
    let mut world = Shared::new();
    world.spawn(Components::empty().with(Component::Player(Player::new())));
    assert_eq!(world.ray_intersection(v(0, 0, 0), v(ONE, 0, 0), &Vec::new()), None);
}

#[test]
fn the_query_leaves_the_world_as_it_was() {
    let mut world = Shared::new();
    let id = add(&mut world, v(5 * ONE, 0, 0), v(ONE, ONE, ONE));
    let before = world.get(id);
    world.ray_intersection(v(0, 0, 0), v(ONE, 0, 0), &Vec::new());
    assert_eq!(world.get(id), before);
    assert_eq!(world.ids(), vec![id]);
}
