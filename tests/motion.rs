use ldtk_swap::motion::{
    diagonal_component, frame_displacement, raw_direction, travel_distance, update_player,
    MoveInput, Player,
};

fn keys(up: bool, down: bool, left: bool, right: bool) -> MoveInput {
    MoveInput { up, down, left, right }
}

fn player() -> Player {
    Player { x: 5_000, y: -3_000, z: 10_000, movement_speed: 100_000 }
}

#[test]
fn raw_direction_of_each_key() {
    assert_eq!(raw_direction(keys(true, false, false, false)), (0, 1));
    assert_eq!(raw_direction(keys(false, true, false, false)), (0, -1));
    assert_eq!(raw_direction(keys(false, false, true, false)), (-1, 0));
    assert_eq!(raw_direction(keys(false, false, false, true)), (1, 0));
    assert_eq!(raw_direction(keys(true, true, true, true)), (0, 0));
    assert_eq!(raw_direction(keys(true, false, true, false)), (-1, 1));
}

#[test]
fn travel_is_speed_times_time() {
    assert_eq!(travel_distance(100_000, 16_667), 1_666);
    assert_eq!(travel_distance(100_000, 10_000), 1_000);
    assert_eq!(travel_distance(0, 10_000), 0);
    assert_eq!(travel_distance(u32::MAX, u32::MAX), 18_446_744_065_119);
}

#[test]
fn diagonal_component_rounds_down() {
    assert_eq!(diagonal_component(0), 0);
    assert_eq!(diagonal_component(1), 0);
    assert_eq!(diagonal_component(2), 1);
    assert_eq!(diagonal_component(1_000), 707);
    assert_eq!(diagonal_component(1_666), 1_178);
    assert_eq!(diagonal_component(18_446_744_065_119), 13_043_817_819_258);
}

#[test]
fn opposing_keys_cancel() {
    assert_eq!(frame_displacement(keys(true, true, false, false), 100_000, 10_000), (0, 0));
    assert_eq!(frame_displacement(keys(false, false, true, true), 100_000, 10_000), (0, 0));
    assert_eq!(frame_displacement(keys(true, true, false, true), 100_000, 10_000), (1_000, 0));
    assert_eq!(frame_displacement(keys(true, false, true, true), 100_000, 10_000), (0, 1_000));
}

#[test]
fn diagonal_move_is_normalized() {
    let (dx, dy) = frame_displacement(keys(true, false, false, true), 100_000, 10_000);
    assert_eq!((dx, dy), (707, 707));
    let straight = frame_displacement(keys(true, false, false, false), 100_000, 10_000);
    assert_eq!(straight, (0, 1_000));
    assert!(dx * dx + dy * dy <= 1_000 * 1_000);
    assert_eq!(frame_displacement(keys(false, true, true, false), 100_000, 10_000), (-707, -707));
}

#[test]
fn idle_player_stays_put() {
    let mut p = player();
    for dt in [0u32, 16_667, 33_333, 1_000_000] {
        update_player(&mut p, keys(false, false, false, false), dt);
    }
    assert_eq!(p, player());
}

#[test]
fn player_moves_by_held_keys() {
    let mut p = player();
    update_player(&mut p, keys(false, false, true, false), 10_000);
    assert_eq!((p.x, p.y, p.z, p.movement_speed), (4_000, -3_000, 10_000, 100_000));
    update_player(&mut p, keys(true, false, false, true), 10_000);
    assert_eq!((p.x, p.y), (4_707, -2_293));
}
