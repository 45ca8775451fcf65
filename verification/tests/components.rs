use junglebeast::components::physicsobject::{DEFAULT_FRICTION, EPS_STAND};
use junglebeast::components::{
    MoveState, Obb, PhysicsObject, Player, PointObject, Properties, Shape, Spawn, SpawnKind,
};
use junglebeast::fixed::ONE;
use junglebeast::vec3::Vec3;

fn v(x: i64, y: i64, z: i64) -> Vec3 {
    Vec3 { x, y, z }
}

fn cube(pos: Vec3, size: Vec3) -> PhysicsObject {
    PhysicsObject::new(Shape::Obb(Obb::from_pos_size(pos, size)))
}

#[test]
fn hurt_takes_health() {
    let mut player = Player::new();
    player.hurt(20);
    assert_eq!(player.hp(), 80);
    assert!(!player.dead());
}

#[test]
fn hurt_stops_at_zero() {
    let mut player = Player::new();
    player.hurt(20);
    player.hurt(200);
    assert_eq!(player.hp(), 0);
    assert!(player.dead());
    player.hurt(1);
    assert_eq!(player.hp(), 0);
}

#[test]
fn reset_hp_restores_full_health() {
    let mut player = Player::new();
    player.hurt(100);
    assert!(player.dead());
    player.reset_hp();
    assert_eq!(player.hp(), 100);
    assert!(!player.dead());
}

#[test]
fn hurt_keeps_the_move_state() {
    let mut player = Player::new();
    player.moves.left = true;
    player.hurt(5);
    assert!(player.moves.left);
}

#[test]
fn jump_flag_is_read_once() {
    let mut state = MoveState::default();
    assert!(!state.get_jump());
    state.set_jump();
    assert!(state.jump);
    assert!(state.get_jump());
    assert!(!state.jump);
    assert!(!state.get_jump());
}

#[test]
fn reset_clears_every_flag() {
    let mut state = MoveState { forward: true, back: true, left: true, right: true, jump: true };
    state.reset();
    assert_eq!(state, MoveState::default());
    assert!(!state.forward && !state.back && !state.left && !state.right && !state.jump);
}

#[test]
fn get_jump_keeps_the_directions() {
    let mut state = MoveState { forward: true, back: false, left: true, right: false, jump: true };
    assert!(state.get_jump());
    assert_eq!(
        state,
        MoveState { forward: true, back: false, left: true, right: false, jump: false }
    );
}

#[test]
fn spawn_player_is_a_player_spawn() {
    let spawn = Spawn::player(v(1, 2, 3));
    assert_eq!(spawn.kind, SpawnKind::Player);
    assert_eq!(spawn.pos, v(1, 2, 3));
}

#[test]
fn properties_mark_spawn_points() {
    assert!(Properties { spawn: Some(true), launch: None }.is_spawn());
    assert!(!Properties { spawn: Some(false), launch: None }.is_spawn());
    assert!(!Properties { spawn: None, launch: Some(v(0, ONE, 0)) }.is_spawn());
}

#[test]
fn point_object_holds_a_position() {
    assert_eq!(PointObject(v(4, 5, 6)).0, v(4, 5, 6));
}

#[test]
fn from_pos_size_halves_the_size() {
    let obb = Obb::from_pos_size(v(ONE, 2 * ONE, 3 * ONE), v(ONE, 2 * ONE, 500_000));
    assert_eq!(obb.pos, v(ONE, 2 * ONE, 3 * ONE));
    assert_eq!(obb.half_extents, v(500_000, ONE, 250_000));
    assert_eq!(obb.orientation, v(ONE, 0, 0));
}

#[test]
fn from_pos_size_rounds_toward_zero() {
    let obb = Obb::from_pos_size(v(0, 0, 0), v(3, -3, i64::MIN));
    assert_eq!(obb.half_extents, v(1, -1, i64::MIN / 2));
}

#[test]
fn new_body_is_at_rest_and_free() {
    let obj = cube(v(0, ONE, 0), v(ONE, ONE, ONE));
    assert_eq!(obj.vel, v(0, 0, 0));
    assert_eq!(obj.friction, DEFAULT_FRICTION);
    assert_eq!(obj.friction, 1_020_000);
    assert!(!obj.fixed);
    assert!(!obj.on_ground);
    assert_eq!(obj.pos(), v(0, ONE, 0));
    assert_eq!(obj.half_extents(), v(500_000, 500_000, 500_000));
    assert_eq!(obj.orientation(), v(ONE, 0, 0));
}

#[test]
fn builders_set_one_field() {
    let obj = cube(v(0, 0, 0), v(ONE, ONE, ONE));
    let fixed = obj.fixed();
    assert!(fixed.fixed);
    assert_eq!(fixed.shape, obj.shape);
    let moving = obj.vel(v(1, 2, 3));
    assert_eq!(moving.vel, v(1, 2, 3));
    assert!(!moving.fixed);
}

#[test]
fn set_pos_and_move_pos() {
    let mut obj = cube(v(0, 0, 0), v(ONE, ONE, ONE));
    obj.set_pos(v(5, 6, 7));
    assert_eq!(obj.pos(), v(5, 6, 7));
    obj.move_pos(v(1, -1, 10));
    assert_eq!(obj.pos(), v(6, 5, 17));
    assert_eq!(obj.half_extents(), v(500_000, 500_000, 500_000));
    obj.set_orientation(v(0, 0, ONE));
    assert_eq!(obj.orientation(), v(0, 0, ONE));
    assert_eq!(obj.pos(), v(6, 5, 17));
}

#[test]
fn bounding_box_is_the_full_size() {
    let obj = cube(v(9, 9, 9), v(ONE, 2 * ONE, 3 * ONE));
    assert_eq!(obj.bounding_box(), v(ONE, 2 * ONE, 3 * ONE));
}

#[test]
fn boxes_that_overlap_intersect() {
    let a = cube(v(0, 0, 0), v(ONE, ONE, ONE));
    let b = cube(v(300_000, 0, 0), v(ONE, ONE, ONE));
    assert!(a.intersects(&b));
    assert!(b.intersects(&a));
}

#[test]
fn boxes_that_touch_intersect() {
    let a = cube(v(0, 0, 0), v(ONE, ONE, ONE));
    let b = cube(v(ONE, ONE, ONE), v(ONE, ONE, ONE));
    assert!(a.intersects(&b));
}

#[test]
fn boxes_apart_on_one_axis_do_not_intersect() {
    let a = cube(v(0, 0, 0), v(ONE, ONE, ONE));
    assert!(!a.intersects(&cube(v(ONE + 1, 0, 0), v(ONE, ONE, ONE))));
    assert!(!a.intersects(&cube(v(0, ONE + 1, 0), v(ONE, ONE, ONE))));
    assert!(!a.intersects(&cube(v(0, 0, -ONE - 1), v(ONE, ONE, ONE))));
}

#[test]
fn standing_needs_vertical_nearness() {
    assert_eq!(EPS_STAND, 500_000);
    let ground = cube(v(0, 0, 0), v(10 * ONE, ONE, 10 * ONE)).fixed();
    let on = cube(v(0, ONE, 0), v(ONE, ONE, ONE));
    assert_eq!(on.standing_on(&ground), (true, ONE));
    let just_above = cube(v(0, ONE + 499_999, 0), v(ONE, ONE, ONE));
    assert!(just_above.standing_on(&ground).0);
    let too_high = cube(v(0, ONE + 500_000, 0), v(ONE, ONE, ONE));
    assert!(!too_high.standing_on(&ground).0);
    let sunk = cube(v(0, ONE - 499_999, 0), v(ONE, ONE, ONE));
    assert!(sunk.standing_on(&ground).0);
    let too_deep = cube(v(0, ONE - 500_000, 0), v(ONE, ONE, ONE));
    assert!(!too_deep.standing_on(&ground).0);
}

#[test]
fn standing_needs_horizontal_overlap() {
    let ground = cube(v(0, 0, 0), v(2 * ONE, ONE, 2 * ONE)).fixed();
    let beside = cube(v(2 * ONE, ONE, 0), v(ONE, ONE, ONE));
    assert!(!beside.standing_on(&ground).0);
    let on_the_edge = cube(v(1_500_000, ONE, 0), v(ONE, ONE, ONE));
    assert!(on_the_edge.standing_on(&ground).0);
}

#[test]
fn standing_does_not_need_intersection() {
    let ground = cube(v(0, 0, 0), v(2 * ONE, ONE, 2 * ONE)).fixed();
    let hovering = cube(v(0, ONE + 100_000, 0), v(ONE, ONE, ONE));
    assert!(!hovering.intersects(&ground));
    assert!(hovering.standing_on(&ground).0);
}

#[test]
fn resting_height_puts_the_feet_on_top() {
    let ground = cube(v(0, 2 * ONE, 0), v(2 * ONE, 2 * ONE, 2 * ONE));
    let body = cube(v(0, 0, 0), v(ONE, 4 * ONE, ONE));
    assert_eq!(body.standing_on(&ground).1, 5 * ONE);
}
