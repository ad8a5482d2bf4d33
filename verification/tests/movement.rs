use puzzlecore::entity::Direction;
use puzzlecore::game::GameState;
use puzzlecore::room::Room;

fn load(level: &[u8]) -> GameState {
    let (room, player, entities) = Room::from_file(level).unwrap();
    GameState { room, player, entities }
}

fn entity_pos(state: &GameState, i: usize) -> (i32, i32) {
    (state.entities[i].x(), state.entities[i].y())
}

#[test]
fn walk_into_free_cell() {
    let mut state = load(b"#####\n#a..#\n#####");
    state.step(&Direction::East);
    assert_eq!((state.player.x, state.player.y), (2, 1));
    assert_eq!(state.player.facing, Direction::East);
    assert!(!state.player.can_walk());
}

#[test]
fn walk_into_wall_only_turns() {
    let mut state = load(b"#####\n#a..#\n#####");
    state.step(&Direction::North);
    assert_eq!((state.player.x, state.player.y), (1, 1));
    assert_eq!(state.player.facing, Direction::North);
    assert!(state.player.can_walk());
}

#[test]
fn walk_off_grid_rejected() {
    // No wall on the west side: the missing tile itself blocks the move.
    let mut state = load(b"a....\n.....");
    state.step(&Direction::West);
    assert_eq!((state.player.x, state.player.y), (0, 0));
    state.step(&Direction::North);
    assert_eq!((state.player.x, state.player.y), (0, 0));
}

#[test]
fn push_block_into_free_cell() {
    let mut state = load(b"######\n#ab..#\n######");
    state.step(&Direction::East);
    // The block moved one cell east; the player took its former cell.
    assert_eq!(entity_pos(&state, 0), (3, 1));
    assert_eq!((state.player.x, state.player.y), (2, 1));
    assert!(!state.player.can_walk());
}

#[test]
fn push_block_into_wall_blocked() {
    let mut state = load(b"#####\n#ab#\n#####");
    state.step(&Direction::East);
    assert_eq!(entity_pos(&state, 0), (2, 1));
    assert_eq!((state.player.x, state.player.y), (1, 1));
    assert_eq!(state.player.facing, Direction::East);
    assert!(state.player.can_walk());
}

#[test]
fn push_block_onto_occupied_cell_overlaps() {
    // The far cell's tile is passable but already holds a lightbulb:
    // occupancy is not checked, so the push goes through and the two
    // entities come to share the cell.
    let mut state = load(b"######\n#abR.#\n######");
    state.step(&Direction::East);
    assert_eq!((state.player.x, state.player.y), (2, 1));
    assert_eq!(entity_pos(&state, 0), (3, 1));
    assert_eq!(entity_pos(&state, 1), (3, 1));
}

#[test]
fn busy_player_cannot_move_again() {
    let mut state = load(b"#####\n#a..#\n#####");
    state.step(&Direction::East);
    assert_eq!((state.player.x, state.player.y), (2, 1));
    // Mid-translation: a second input turns the facing but moves nothing.
    state.step(&Direction::West);
    assert_eq!((state.player.x, state.player.y), (2, 1));
    assert_eq!(state.player.facing, Direction::West);
}

#[test]
fn update_advances_translation_to_completion() {
    let mut state = load(b"#####\n#a..#\n#####");
    let held: Vec<Direction> = vec![Direction::East];
    state.update(0, &held);
    assert!(!state.player.can_walk());
    let empty: Vec<Direction> = Vec::new();
    state.update(10, &empty);
    assert!(!state.player.can_walk());
    state.update(6, &empty);
    assert!(state.player.can_walk());
    assert_eq!((state.player.x, state.player.y), (2, 1));
}

#[test]
fn update_resolves_first_applicable_input() {
    let mut state = load(b"#####\n#a..#\n#####");
    let held: Vec<Direction> = vec![Direction::East, Direction::West];
    state.update(0, &held);
    // The eastward move made the player busy, so the second input only
    // turned the facing against the pre-step rule for movement.
    assert_eq!((state.player.x, state.player.y), (2, 1));
    assert_eq!(state.player.facing, Direction::West);
}

#[test]
fn update_blocked_then_applicable_input() {
    let mut state = load(b"#####\n#a..#\n#####");
    let held: Vec<Direction> = vec![Direction::North, Direction::East];
    state.update(0, &held);
    // The northward move hits the wall and only turns the facing; the
    // eastward input, judged against the unmoved state, then walks.
    assert_eq!((state.player.x, state.player.y), (2, 1));
    assert_eq!(state.player.facing, Direction::East);
}

#[test]
fn builtin_level_push_against_wall() {
    // In the built-in room the block sits against the east wall: walking
    // east reaches it, and the push attempt then moves nothing.
    let (room, player, entities) = Room::new().unwrap();
    let mut state = GameState { room, player, entities };
    state.step(&Direction::East);
    assert_eq!((state.player.x, state.player.y), (2, 1));
    let empty: Vec<Direction> = Vec::new();
    state.update(16, &empty);
    assert!(state.player.can_walk());
    state.step(&Direction::East);
    assert_eq!((state.player.x, state.player.y), (2, 1));
    assert_eq!(entity_pos(&state, 0), (3, 1));
}

#[test]
fn entity_update_completes_push_translation() {
    let mut state = load(b"######\n#ab..#\n######");
    state.step(&Direction::East);
    let empty: Vec<Direction> = Vec::new();
    state.update(16, &empty);
    assert_eq!(entity_pos(&state, 0), (3, 1));
    assert!(state.player.can_walk());
}

#[test]
fn entity_at_finds_first_occupant() {
    let state = load(b"######\n#abR.#\n######");
    assert_eq!(state.entity_at(2, 1), Some(0));
    assert_eq!(state.entity_at(3, 1), Some(1));
    assert_eq!(state.entity_at(4, 1), None);
    assert_eq!(state.entity_at(1, 1), None);
}

#[test]
fn direction_from_offsets() {
    assert_eq!(Direction::North.from(3, 3), (3, 2));
    assert_eq!(Direction::South.from(3, 3), (3, 4));
    assert_eq!(Direction::East.from(3, 3), (4, 3));
    assert_eq!(Direction::West.from(3, 3), (2, 3));
}
