//! Tiles, the tile grid, and the level parser.

use vstd::prelude::*;
use vstd::arithmetic::mul::{lemma_mul_inequality, lemma_mul_is_commutative, lemma_mul_upper_bound};
use crate::entity::{Block, Color, Entity, Lightbulb, Player};

verus! {

/// Side length of one grid cell, in pixels.
pub const TILE_SIZE: i64 = 16;

/// A single grid cell classification governing passability.
#[derive(Clone, Copy, PartialEq, Eq, Structural, Debug)]
pub enum Tile {
    Floor,
    Wall,
    Exit,
}

impl Tile {
    /// The tile a level character stands for: `#` is a wall, `z` an exit,
    /// anything else (including the markers that place entities) floor.
    pub open spec fn spec_from_chr(chr: char) -> Tile {
        if chr == '#' {
            Tile::Wall
        } else if chr == 'z' {
            Tile::Exit
        } else {
            Tile::Floor
        }
    }

    pub fn from_chr(chr: char) -> (t: Tile)
        ensures
            t == Tile::spec_from_chr(chr),
    {
        match chr {
            '#' => Tile::Wall,
            'z' => Tile::Exit,
            _ => Tile::Floor,
        }
    }

    pub open spec fn spec_is_passable(self) -> bool {
        match self {
            Tile::Wall => false,
            Tile::Floor => true,
            Tile::Exit => true,
        }
    }

    /// Whether the player or an entity may enter a cell holding this tile.
    pub fn is_passable(&self) -> (r: bool)
        ensures
            r == self.spec_is_passable(),
    {
        match self {
            Tile::Wall => false,
            Tile::Floor => true,
            Tile::Exit => true,
        }
    }

    pub open spec fn spec_sprite_src(self) -> (int, int) {
        match self {
            Tile::Wall => (32, 0),
            Tile::Floor => (32, 16),
            Tile::Exit => (16, 0),
        }
    }

    /// Top-left corner of this tile's fixed source rectangle in the
    /// 16-pixel-cell sprite atlas; each kind maps to a distinct offset.
    pub fn sprite_src(&self) -> (r: (i64, i64))
        ensures
            (r.0 as int, r.1 as int) == self.spec_sprite_src(),
    {
        match self {
            Tile::Wall => (32, 0),
            Tile::Floor => (32, 16),
            Tile::Exit => (16, 0),
        }
    }
}

/// Why a level description was rejected at load time.
#[derive(Clone, Copy, PartialEq, Eq, Structural, Debug)]
pub enum LevelFormatError {
    /// The description has no row terminator, or its first row is empty.
    Width,
    /// The description holds zero or more than one player start marker.
    StartPosition,
}

/// The byte that terminates a row of the level description.
pub open spec fn is_row_end(b: u8) -> bool {
    b == 10
}

/// `w` is the offset of the first row terminator in `bytes`.
pub open spec fn first_newline_at(bytes: Seq<u8>, w: int) -> bool {
    &&& 0 <= w < bytes.len()
    &&& is_row_end(bytes[w])
    &&& forall|j: int| 0 <= j < w ==> !is_row_end(bytes[j])
}

/// A usable grid width can be derived from `bytes`: some row terminator
/// exists and the first row is not empty.
pub open spec fn width_ok(bytes: Seq<u8>) -> bool {
    &&& exists|j: int| 0 <= j < bytes.len() && is_row_end(bytes[j])
    &&& !is_row_end(bytes[0])
}

/// How many player start markers (the byte `a`) the description holds.
pub open spec fn start_count(bytes: Seq<u8>) -> nat
    decreases bytes.len(),
{
    if bytes.len() == 0 {
        0
    } else {
        (if bytes[0] == 97 { 1nat } else { 0nat }) + start_count(bytes.drop_first())
    }
}

/// The grid cell of the first player start marker, scanning from a cursor
/// at cell `(x, y)`; a row terminator resets the column and advances the row.
pub open spec fn start_cell(bytes: Seq<u8>, x: int, y: int) -> Option<(int, int)>
    decreases bytes.len(),
{
    if bytes.len() == 0 {
        None
    } else if is_row_end(bytes[0]) {
        start_cell(bytes.drop_first(), 0, y + 1)
    } else if bytes[0] == 97 {
        Some((x, y))
    } else {
        start_cell(bytes.drop_first(), x + 1, y)
    }
}

/// The row-major tile sequence of the description: every byte but the row
/// terminators, read through the character table.
pub open spec fn tiles_of(bytes: Seq<u8>) -> Seq<Tile>
    decreases bytes.len(),
{
    if bytes.len() == 0 {
        Seq::empty()
    } else if is_row_end(bytes[0]) {
        tiles_of(bytes.drop_first())
    } else {
        seq![Tile::spec_from_chr(bytes[0] as char)] + tiles_of(bytes.drop_first())
    }
}

/// The entity (if any) that a level byte places at cell `(x, y)`: the
/// bytes are `b`, `r` and `w` for gray, red and white blocks, and `R`, `G`
/// and `B` for red, green and blue lightbulbs.
pub open spec fn entity_for(b: u8, x: int, y: int) -> Option<Entity> {
    if b == 98 {
        Some(Entity::Block(Block::spec_new(x, y, Color::Gray)))
    } else if b == 114 {
        Some(Entity::Block(Block::spec_new(x, y, Color::Red)))
    } else if b == 119 {
        Some(Entity::Block(Block::spec_new(x, y, Color::White)))
    } else if b == 82 {
        Some(Entity::Lightbulb(Lightbulb::spec_new(x, y, Color::Red)))
    } else if b == 71 {
        Some(Entity::Lightbulb(Lightbulb::spec_new(x, y, Color::Green)))
    } else if b == 66 {
        Some(Entity::Lightbulb(Lightbulb::spec_new(x, y, Color::Blue)))
    } else {
        None
    }
}

/// The entities the description places, in reading order, scanning from a
/// cursor at cell `(x, y)`.
pub open spec fn entities_of(bytes: Seq<u8>, x: int, y: int) -> Seq<Entity>
    decreases bytes.len(),
{
    if bytes.len() == 0 {
        Seq::empty()
    } else if is_row_end(bytes[0]) {
        entities_of(bytes.drop_first(), 0, y + 1)
    } else {
        match entity_for(bytes[0], x, y) {
            Some(e) => seq![e] + entities_of(bytes.drop_first(), x + 1, y),
            None => entities_of(bytes.drop_first(), x + 1, y),
        }
    }
}

/// Everything the level parser promises. On success the grid's width is the
/// offset of the first row terminator, its tiles are the description's bytes
/// read through the character table, its height is the derived row count,
/// the player stands idle on the unique start marker's cell, and the passive
/// entities appear in reading order. Parsing fails exactly on descriptions
/// without a usable width or without exactly one start marker.
pub open spec fn parse_post(bytes: Seq<u8>, r: Result<Level, LevelFormatError>) -> bool {
    &&& (r is Err <==> !(width_ok(bytes) && start_count(bytes) == 1))
    &&& (r == Err::<Level, LevelFormatError>(LevelFormatError::Width) <==> !width_ok(bytes))
    &&& (r == Err::<Level, LevelFormatError>(LevelFormatError::StartPosition) <==> width_ok(
        bytes,
    ) && start_count(bytes) != 1)
    &&& (r matches Ok((room, player, entities)) ==> {
        &&& first_newline_at(bytes, room.width as int)
        &&& room.tiles@ == tiles_of(bytes)
        &&& room.height as int == tiles_of(bytes).len() as int / room.width as int
        &&& room.wf()
        &&& start_cell(bytes, 0, 0) == Some((player.x as int, player.y as int))
        &&& player == Player::spec_new(player.x as int, player.y as int)
        &&& entities@ == entities_of(bytes, 0, 0)
    })
}

/// A stretch of bytes free of row terminators contributes one tile each, so
/// the tile sequence is at least that long.
proof fn lemma_tiles_of_min_len(bytes: Seq<u8>, w: int)
    requires
        0 <= w <= bytes.len(),
        forall|j: int| 0 <= j < w ==> !is_row_end(bytes[j]),
    ensures
        tiles_of(bytes).len() >= w,
    decreases w,
{
    if w > 0 {
        assert(forall|j: int| 0 <= j < w - 1 ==> !is_row_end(bytes.drop_first()[j]));
        lemma_tiles_of_min_len(bytes.drop_first(), w - 1);
    }
}

/// The built-in level description: `#####`, `#a.b#`, `#####` — a walled
/// 5-by-3 room with the player at cell `(1, 1)` and a gray block at `(3, 1)`.
pub open spec fn default_level() -> Seq<u8> {
    seq![35u8, 35, 35, 35, 35, 10, 35, 97, 46, 98, 35, 10, 35, 35, 35, 35, 35]
}

fn default_level_bytes() -> (v: Vec<u8>)
    ensures
        v@ == default_level(),
{
    let v: Vec<u8> = vec![35u8, 35, 35, 35, 35, 10, 35, 97, 46, 98, 35, 10, 35, 35, 35, 35, 35];
    proof {
        assert(v@ =~= default_level());
    }
    v
}

/// An immutable, queryable rectangular grid of passability-tagged tiles,
/// stored row-major: the tile of cell `(x, y)` sits at index `y * width + x`.
#[derive(Debug, PartialEq, Eq)]
pub struct Room {
    pub width: usize,
    pub height: usize,
    pub tiles: Vec<Tile>,
}

/// Everything the level parser returns: the grid, the player, and the
/// passive entities.
pub type Level = (Room, Player, Vec<Entity>);

impl Room {
    /// Well-formedness as established by the parser: a positive width no
    /// larger than the tile count, a tile count that fits grid coordinates,
    /// and the derived height.
    pub open spec fn wf(self) -> bool {
        &&& 1 <= self.width
        &&& self.width <= self.tiles@.len()
        &&& self.tiles@.len() <= i32::MAX as int
        &&& self.height as int == self.tiles@.len() as int / self.width as int
    }

    /// The tile of cell `(x, y)`: absent for negative coordinates and for
    /// indices beyond the tile sequence.
    pub open spec fn spec_tile_at(self, x: int, y: int) -> Option<Tile> {
        if 0 <= x && 0 <= y && y * (self.width as int) + x < self.tiles@.len() {
            Some(self.tiles@[y * (self.width as int) + x])
        } else {
            None
        }
    }

    /// Cell `(x, y)` has a tile and that tile is passable.
    pub open spec fn passable_at(self, x: int, y: int) -> bool {
        match self.spec_tile_at(x, y) {
            Some(t) => t.spec_is_passable(),
            None => false,
        }
    }

    pub fn tile_at(&self, x: i32, y: i32) -> (r: Option<Tile>)
        ensures
            r == self.spec_tile_at(x as int, y as int),
            x < 0 || y < 0 ==> r is None,
            0 <= x && 0 <= y && y * (self.width as int) + x >= self.tiles@.len() ==> r is None,
    {
        if x < 0 || y < 0 {
            return None;
        }
        proof {
            lemma_mul_upper_bound(y as int, i32::MAX as int, self.width as int, u64::MAX as int);
        }
        let idx: u128 = (y as u128) * (self.width as u128) + (x as u128);
        if idx < self.tiles.len() as u128 {
            Some(self.tiles[idx as usize])
        } else {
            None
        }
    }

    /// In a well-formed room, any cell that has a tile lies at coordinates
    /// that leave headroom for a one-cell step in either direction.
    pub proof fn lemma_tile_bounds(self, x: int, y: int)
        requires
            self.wf(),
            self.spec_tile_at(x, y) is Some,
        ensures
            0 <= x < i32::MAX as int,
            0 <= y < i32::MAX as int,
    {
        lemma_mul_inequality(1, self.width as int, y);
        lemma_mul_is_commutative(y, self.width as int);
    }

    pub open spec fn spec_pixel_width(self) -> int {
        self.width * 16
    }

    pub open spec fn spec_pixel_height(self) -> int {
        self.height * 16
    }

    /// Grid width scaled by the cell size.
    pub fn pixel_width(&self) -> (r: i64)
        requires
            self.width <= i32::MAX as usize,
        ensures
            r as int == self.spec_pixel_width(),
    {
        self.width as i64 * TILE_SIZE
    }

    /// Grid height scaled by the cell size.
    pub fn pixel_height(&self) -> (r: i64)
        requires
            self.height <= i32::MAX as usize,
        ensures
            r as int == self.spec_pixel_height(),
    {
        self.height as i64 * TILE_SIZE
    }

    /// Load the built-in level: a 5-by-3 walled room holding the player and
    /// one gray block.
    pub fn new() -> (r: Result<Level, LevelFormatError>)
        ensures
            parse_post(default_level(), r),
            r is Ok,
    {
        proof {
            reveal_with_fuel(start_count, 20);
            assert(start_count(default_level()) == 1);
            assert(default_level()[5] == 10);
            assert(width_ok(default_level()));
        }
        let level = default_level_bytes();
        Room::from_file(level.as_slice())
    }

    /// Parse a level description: newline-separated rows of one-character
    /// cell codes. The first newline's offset fixes the grid width; rows
    /// beyond the first are not checked against it, so a ragged description
    /// silently yields a grid with trailing cells (a deliberate looseness
    /// of the format).
    pub fn from_file(bytes: &[u8]) -> (r: Result<Level, LevelFormatError>)
        requires
            bytes@.len() <= i32::MAX as int,
        ensures
            parse_post(bytes@, r),
    {
        let n = bytes.len();

        let mut w: usize = 0;
        while w < n && bytes[w] != 10
            invariant
                w <= n,
                n == bytes@.len(),
                forall|j: int| 0 <= j < w ==> !is_row_end(bytes@[j]),
            decreases n - w,
        {
            w = w + 1;
        }
        if w == n || w == 0 {
            return Err(LevelFormatError::Width);
        }
        assert(first_newline_at(bytes@, w as int));
        assert(width_ok(bytes@));

        proof {
            assert(bytes@.skip(0) =~= bytes@);
        }
        let mut tiles: Vec<Tile> = Vec::new();
        let mut i: usize = 0;
        while i < n
            invariant
                i <= n,
                n == bytes@.len(),
                tiles@.len() <= i,
                tiles_of(bytes@) == tiles@ + tiles_of(bytes@.skip(i as int)),
            decreases n - i,
        {
            let b = bytes[i];
            proof {
                let s = bytes@.skip(i as int);
                assert(s[0] == bytes@[i as int]);
                assert(s.drop_first() =~= bytes@.skip(i as int + 1));
            }
            if b != 10 {
                let ghost prev = tiles@;
                tiles.push(Tile::from_chr(b as char));
                proof {
                    let rest = tiles_of(bytes@.skip(i as int + 1));
                    assert(tiles@ + rest =~= prev + tiles_of(bytes@.skip(i as int)));
                }
            }
            i = i + 1;
        }
        proof {
            assert(bytes@.skip(n as int) =~= Seq::<u8>::empty());
            assert(tiles_of(bytes@) =~= tiles@);
        }
        let height = tiles.len() / w;
        proof {
            lemma_tiles_of_min_len(bytes@, w as int);
        }

        let mut x: i32 = 0;
        let mut y: i32 = 0;
        let mut player: Option<Player> = None;
        let mut entities: Vec<Entity> = Vec::new();
        let mut i: usize = 0;
        proof {
            assert(bytes@.skip(0) =~= bytes@);
        }
        while i < n
            invariant
                i <= n,
                n == bytes@.len(),
                n <= i32::MAX as int,
                width_ok(bytes@),
                0 <= x <= i,
                0 <= y <= i,
                start_count(bytes@) == (if player is Some {
                    1nat
                } else {
                    0nat
                }) + start_count(bytes@.skip(i as int)),
                start_cell(bytes@, 0, 0) == (match player {
                    Some(p) => Some((p.x as int, p.y as int)),
                    None => start_cell(bytes@.skip(i as int), x as int, y as int),
                }),
                player matches Some(p) ==> p == Player::spec_new(p.x as int, p.y as int),
                entities_of(bytes@, 0, 0) == entities@ + entities_of(
                    bytes@.skip(i as int),
                    x as int,
                    y as int,
                ),
            decreases n - i,
        {
            let b = bytes[i];
            proof {
                let s = bytes@.skip(i as int);
                assert(s[0] == bytes@[i as int]);
                assert(s.drop_first() =~= bytes@.skip(i as int + 1));
            }
            if b == 10 {
                x = 0;
                y = y + 1;
            } else {
                let ghost prev = entities@;
                if b == 97 {
                    if player.is_some() {
                        proof {
                            let s = bytes@.skip(i as int);
                            assert(start_count(s) >= 1);
                        }
                        return Err(LevelFormatError::StartPosition);
                    }
                    player = Some(Player::new(x, y));
                } else if b == 98 {
                    entities.push(Entity::Block(Block::new(x, y, Color::Gray)));
                } else if b == 114 {
                    entities.push(Entity::Block(Block::new(x, y, Color::Red)));
                } else if b == 119 {
                    entities.push(Entity::Block(Block::new(x, y, Color::White)));
                } else if b == 82 {
                    entities.push(Entity::Lightbulb(Lightbulb::new(x, y, Color::Red)));
                } else if b == 71 {
                    entities.push(Entity::Lightbulb(Lightbulb::new(x, y, Color::Green)));
                } else if b == 66 {
                    entities.push(Entity::Lightbulb(Lightbulb::new(x, y, Color::Blue)));
                }
                proof {
                    let rest = entities_of(bytes@.skip(i as int + 1), x as int + 1, y as int);
                    assert(entities@ + rest =~= prev + entities_of(
                        bytes@.skip(i as int),
                        x as int,
                        y as int,
                    ));
                }
                x = x + 1;
            }
            i = i + 1;
        }
        proof {
            assert(bytes@.skip(n as int) =~= Seq::<u8>::empty());
        }
        let room = Room { width: w, height, tiles };
        match player {
            None => Err(LevelFormatError::StartPosition),
            Some(p) => Ok((room, p, entities)),
        }
    }
}

} // verus!
