use puzzlecore::entity::Player;
use puzzlecore::game::GameState;
use puzzlecore::room::Room;

// A room 30 cells wide (480 px, wider than the 200 px viewport) and 3 tall.
const WIDE_LEVEL: &[u8] = b"##############################\n\
                            #a...........................#\n\
                            ##############################";

fn wide_state(px: i32, py: i32) -> GameState {
    let (room, mut player, entities) = Room::from_file(WIDE_LEVEL).unwrap();
    player.x = px;
    player.y = py;
    GameState { room, player, entities }
}

#[test]
fn camera_clamps_at_left_edge() {
    let state = wide_state(0, 1);
    let (cam_x, _cam_y) = state.camera();
    // Player center 8 px lies left of half the viewport: clamp to 100.
    assert_eq!(cam_x, 100);
}

#[test]
fn camera_clamps_at_right_edge() {
    let state = wide_state(29, 1);
    let (cam_x, _cam_y) = state.camera();
    // Player center 472 px lies past width - half = 380: clamp to 380.
    assert_eq!(cam_x, 380);
}

#[test]
fn camera_follows_centered_player() {
    let state = wide_state(15, 1);
    let (cam_x, _cam_y) = state.camera();
    // Player center 248 px lies between the bounds: the camera follows.
    assert_eq!(cam_x, 248);
}

#[test]
fn camera_mid_translation_follows_center() {
    let (room, player, entities) = Room::from_file(WIDE_LEVEL).unwrap();
    let mut state = GameState { room, player: Player::new(15, 1), entities };
    state.step(&puzzlecore::entity::Direction::East);
    // Just after the step begins the interpolated center still sits at the
    // former cell's center.
    let (cam_x, _cam_y) = state.camera();
    assert_eq!(cam_x, 248);
    let empty: Vec<puzzlecore::entity::Direction> = Vec::new();
    state.update(4, &empty);
    let (cam_x, _cam_y) = state.camera();
    assert_eq!(cam_x, 252);
}

#[test]
fn camera_on_room_smaller_than_viewport() {
    // 80 px wide: the upper bound (-20) falls below the lower bound (100),
    // and the median-of-three then just follows the player's center.
    let (room, player, entities) = Room::from_file(b"#####\n#a.b#\n#####").unwrap();
    let state = GameState { room, player, entities };
    let (cam_x, cam_y) = state.camera();
    assert_eq!(cam_x, 24);
    assert_eq!(cam_y, 24);
}
