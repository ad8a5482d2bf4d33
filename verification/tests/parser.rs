use puzzlecore::entity::{Color, Entity};
use puzzlecore::room::{LevelFormatError, Room, Tile};

#[test]
fn parse_example_level() {
    // A 5x3 walled room: player at (1, 1), gray block at (3, 1).
    let level = b"#####\n#a.b#\n#####";
    let result = Room::from_file(level);
    assert!(result.is_ok());
    let (room, player, entities) = result.unwrap();
    assert_eq!(room.width, 5);
    assert_eq!(room.height, 3);
    assert_eq!(room.tiles.len(), 15);
    assert_eq!(player.x, 1);
    assert_eq!(player.y, 1);
    assert!(player.can_walk());
    assert_eq!(entities.len(), 1);
    match &entities[0] {
        Entity::Block(b) => {
            assert_eq!(b.x, 3);
            assert_eq!(b.y, 1);
            assert_eq!(b.color, Color::Gray);
        },
        _ => panic!("expected a block"),
    }
}

#[test]
fn parse_builtin_level() {
    let result = Room::new();
    assert!(result.is_ok());
    let (room, player, entities) = result.unwrap();
    assert_eq!(room.width, 5);
    assert_eq!(room.height, 3);
    assert_eq!((player.x, player.y), (1, 1));
    assert_eq!(entities.len(), 1);
}

#[test]
fn parse_single_start_matches_marker() {
    let level = b"....\n.z#.\n..a.";
    let (room, player, _entities) = Room::from_file(level).unwrap();
    assert_eq!(room.width, 4);
    assert_eq!((player.x, player.y), (2, 2));
}

#[test]
fn parse_no_start_fails() {
    let level = b"#####\n#..b#\n#####";
    assert_eq!(Room::from_file(level), Err(LevelFormatError::StartPosition));
}

#[test]
fn parse_two_starts_fails() {
    let level = b"#####\n#a.a#\n#####";
    assert_eq!(Room::from_file(level), Err(LevelFormatError::StartPosition));
}

#[test]
fn parse_without_newline_fails() {
    assert_eq!(Room::from_file(b"#a#"), Err(LevelFormatError::Width));
}

#[test]
fn parse_leading_newline_fails() {
    assert_eq!(Room::from_file(b"\n#a#\n"), Err(LevelFormatError::Width));
}

#[test]
fn parse_empty_fails() {
    assert_eq!(Room::from_file(b""), Err(LevelFormatError::Width));
}

#[test]
fn parse_all_entity_kinds() {
    let level = b"brwRGB\na.....";
    let (_room, _player, entities) = Room::from_file(level).unwrap();
    assert_eq!(entities.len(), 6);
    let expected = [
        (true, Color::Gray),
        (true, Color::Red),
        (true, Color::White),
        (false, Color::Red),
        (false, Color::Green),
        (false, Color::Blue),
    ];
    for (i, (is_block, color)) in expected.iter().enumerate() {
        match &entities[i] {
            Entity::Block(b) => {
                assert!(*is_block);
                assert_eq!(b.color, *color);
                assert_eq!((b.x, b.y), (i as i32, 0));
            },
            Entity::Lightbulb(l) => {
                assert!(!*is_block);
                assert_eq!(l.color, *color);
                assert_eq!((l.x, l.y), (i as i32, 0));
            },
        }
    }
}

#[test]
fn tile_from_chr_table() {
    assert_eq!(Tile::from_chr('#'), Tile::Wall);
    assert_eq!(Tile::from_chr('z'), Tile::Exit);
    assert_eq!(Tile::from_chr('.'), Tile::Floor);
    assert_eq!(Tile::from_chr(' '), Tile::Floor);
    assert_eq!(Tile::from_chr('a'), Tile::Floor);
    assert_eq!(Tile::from_chr('b'), Tile::Floor);
}

#[test]
fn tile_passability() {
    assert!(!Tile::Wall.is_passable());
    assert!(Tile::Floor.is_passable());
    assert!(Tile::Exit.is_passable());
}

#[test]
fn tile_sprite_sources_distinct() {
    assert_eq!(Tile::Wall.sprite_src(), (32, 0));
    assert_eq!(Tile::Floor.sprite_src(), (32, 16));
    assert_eq!(Tile::Exit.sprite_src(), (16, 0));
}

#[test]
fn tile_at_bounds() {
    let (room, _player, _entities) = Room::from_file(b"#####\n#a.b#\n#####").unwrap();
    assert_eq!(room.tile_at(-1, 0), None);
    assert_eq!(room.tile_at(0, -1), None);
    assert_eq!(room.tile_at(0, 3), None);
    assert_eq!(room.tile_at(0, 0), Some(Tile::Wall));
    assert_eq!(room.tile_at(2, 1), Some(Tile::Floor));
    assert_eq!(room.tile_at(4, 2), Some(Tile::Wall));
}

#[test]
fn pixel_extent() {
    let (room, _player, _entities) = Room::from_file(b"#####\n#a.b#\n#####").unwrap();
    assert_eq!(room.pixel_width(), 80);
    assert_eq!(room.pixel_height(), 48);
}
