use player_follow::geometry::{Point, UNITS};
use player_follow::player::{
    apply_world_step, gamepad_step, keyboard_step, move_players, LocalStep, MoveKeys, PlayerPose,
    StickAxes, STEP, TURN,
};

fn no_keys() -> MoveKeys {
    MoveKeys {
        forward: false,
        left: false,
        back: false,
        right: false,
        turn_left: false,
        turn_right: false,
    }
}

fn pose(x: i64, y: i64, z: i64, yaw: i64) -> PlayerPose {
    PlayerPose { position: Point::new(x, y, z), yaw }
}

#[test]
fn per_frame_deltas_are_a_tenth() {
    assert_eq!(STEP, UNITS / 10);
    assert_eq!(TURN, UNITS / 10);
}

#[test]
fn forward_key_steps_forward_only() {
    let keys = MoveKeys { forward: true, ..no_keys() };
    assert_eq!(keyboard_step(keys), LocalStep { forward: 100_000, right: 0, yaw: 0 });
}

#[test]
fn each_direction_key_steps_its_own_axis() {
    let back = keyboard_step(MoveKeys { back: true, ..no_keys() });
    assert_eq!(back, LocalStep { forward: -100_000, right: 0, yaw: 0 });
    let left = keyboard_step(MoveKeys { left: true, ..no_keys() });
    assert_eq!(left, LocalStep { forward: 0, right: -100_000, yaw: 0 });
    let right = keyboard_step(MoveKeys { right: true, ..no_keys() });
    assert_eq!(right, LocalStep { forward: 0, right: 100_000, yaw: 0 });
}

#[test]
fn turn_keys_change_yaw_only() {
    let j = keyboard_step(MoveKeys { turn_left: true, ..no_keys() });
    assert_eq!(j, LocalStep { forward: 0, right: 0, yaw: 100_000 });
    let k = keyboard_step(MoveKeys { turn_right: true, ..no_keys() });
    assert_eq!(k, LocalStep { forward: 0, right: 0, yaw: -100_000 });
}

#[test]
fn opposite_keys_cancel() {
    let keys = MoveKeys {
        forward: true,
        left: true,
        back: true,
        right: true,
        turn_left: true,
        turn_right: true,
    };
    assert_eq!(keyboard_step(keys), LocalStep { forward: 0, right: 0, yaw: 0 });
}

#[test]
fn diagonal_keys_combine() {
    let keys = MoveKeys { forward: true, right: true, turn_right: true, ..no_keys() };
    assert_eq!(keyboard_step(keys), LocalStep { forward: 100_000, right: 100_000, yaw: -100_000 });
}

#[test]
fn world_step_forward_is_negative_z() {
    let start = pose(1_000_000, 2_000_000, 3_000_000, 7);
    let r = apply_world_step(start, keyboard_step(MoveKeys { forward: true, ..no_keys() }));
    assert_eq!(r, pose(1_000_000, 2_000_000, 2_900_000, 7));
}

#[test]
fn world_step_each_key_changes_one_coordinate() {
    let start = pose(0, 500, 0, 0);
    let back = apply_world_step(start, keyboard_step(MoveKeys { back: true, ..no_keys() }));
    assert_eq!(back, pose(0, 500, 100_000, 0));
    let left = apply_world_step(start, keyboard_step(MoveKeys { left: true, ..no_keys() }));
    assert_eq!(left, pose(-100_000, 500, 0, 0));
    let right = apply_world_step(start, keyboard_step(MoveKeys { right: true, ..no_keys() }));
    assert_eq!(right, pose(100_000, 500, 0, 0));
    let turn = apply_world_step(start, keyboard_step(MoveKeys { turn_left: true, ..no_keys() }));
    assert_eq!(turn, pose(0, 500, 0, 100_000));
}

#[test]
fn no_keys_leave_pose_unchanged() {
    let start = pose(-4_200_000, 1_300_000, 9_900_000, -250_000);
    let step = keyboard_step(no_keys());
    assert_eq!(step, LocalStep { forward: 0, right: 0, yaw: 0 });
    assert_eq!(apply_world_step(start, step), start);
}

#[test]
fn gamepad_full_and_partial_deflection() {
    let full = gamepad_step(StickAxes { left_x: 0, left_y: 1_000, right_x: 0 });
    assert_eq!(full, LocalStep { forward: 100_000, right: 0, yaw: 0 });
    let mixed = gamepad_step(StickAxes { left_x: 500, left_y: -1_000, right_x: 250 });
    assert_eq!(mixed, LocalStep { forward: -100_000, right: 50_000, yaw: -25_000 });
    let turn_left = gamepad_step(StickAxes { left_x: -1_000, left_y: 0, right_x: -1_000 });
    assert_eq!(turn_left, LocalStep { forward: 0, right: -100_000, yaw: 100_000 });
}

#[test]
fn gamepad_at_rest_gives_no_step() {
    let rest = gamepad_step(StickAxes { left_x: 0, left_y: 0, right_x: 0 });
    assert_eq!(rest, LocalStep { forward: 0, right: 0, yaw: 0 });
}

#[test]
fn move_players_moves_each_and_notifies_each() {
    let mut players = vec![pose(0, 0, 0, 0), pose(5_000_000, 1_000_000, -2_000_000, 30)];
    let step = keyboard_step(MoveKeys { forward: true, left: true, ..no_keys() });
    let moved = move_players(&mut players, step);
    let expected = vec![
        pose(-100_000, 0, -100_000, 0),
        pose(4_900_000, 1_000_000, -2_100_000, 30),
    ];
    assert_eq!(players, expected);
    assert_eq!(moved, expected);
}

#[test]
fn move_players_with_no_player_sends_nothing() {
    let mut players: Vec<PlayerPose> = Vec::new();
    let moved = move_players(&mut players, keyboard_step(MoveKeys { forward: true, ..no_keys() }));
    assert!(players.is_empty());
    assert!(moved.is_empty());
}

#[test]
fn idle_frame_still_notifies_unchanged_pose() {
    let mut players = vec![pose(10, 20, 30, 40)];
    let moved = move_players(&mut players, keyboard_step(no_keys()));
    assert_eq!(players, vec![pose(10, 20, 30, 40)]);
    assert_eq!(moved, vec![pose(10, 20, 30, 40)]);
}
