//! The player and the passive entities (blocks and lightbulbs).

use vstd::prelude::*;

verus! {

/// Palette tag attached to blocks and lightbulbs at creation; never mutated.
#[derive(Clone, Copy, PartialEq, Eq, Structural, Debug)]
pub enum Color {
    Gray,
    Red,
    White,
    Green,
    Blue,
}

/// One of the four cardinal movement directions.
#[derive(Clone, Copy, PartialEq, Eq, Structural, Debug)]
pub enum Direction {
    North,
    East,
    South,
    West,
}

impl Direction {
    /// Horizontal displacement of a one-cell step in this direction.
    pub open spec fn dx(self) -> int {
        match self {
            Direction::East => 1,
            Direction::West => -1,
            Direction::North => 0,
            Direction::South => 0,
        }
    }

    /// Vertical displacement of a one-cell step in this direction.
    pub open spec fn dy(self) -> int {
        match self {
            Direction::North => -1,
            Direction::South => 1,
            Direction::East => 0,
            Direction::West => 0,
        }
    }

    /// The cell reached by one step in this direction from `(x, y)`.
    pub open spec fn spec_from(self, x: int, y: int) -> (int, int) {
        (x + self.dx(), y + self.dy())
    }

    pub fn from(&self, x: i32, y: i32) -> (r: (i32, i32))
        requires
            i32::MIN < x < i32::MAX,
            i32::MIN < y < i32::MAX,
        ensures
            (r.0 as int, r.1 as int) == self.spec_from(x as int, y as int),
    {
        match self {
            Direction::North => (x, y - 1),
            Direction::West => (x - 1, y),
            Direction::South => (x, y + 1),
            Direction::East => (x + 1, y),
        }
    }

    /// `dx` as a runtime pixel delta.
    pub fn step_x(&self) -> (r: i64)
        ensures
            r as int == self.dx(),
    {
        match self {
            Direction::East => 1,
            Direction::West => -1,
            Direction::North => 0,
            Direction::South => 0,
        }
    }

    /// `dy` as a runtime pixel delta.
    pub fn step_y(&self) -> (r: i64)
        ensures
            r as int == self.dy(),
    {
        match self {
            Direction::North => -1,
            Direction::South => 1,
            Direction::East => 0,
            Direction::West => 0,
        }
    }
}

/// A one-cell translation takes this many pixels of travel to complete.
pub const STEP_PIXELS: u8 = 16;

/// The player: a distinguished entity with a facing and a one-cell
/// translation state machine. While `offset > 0` the player is mid-step:
/// `(x, y)` already names the target cell, `step_dir` the direction being
/// travelled, and `offset` the pixels of travel still to cover.
#[derive(Clone, Copy, PartialEq, Eq, Structural, Debug)]
pub struct Player {
    pub x: i32,
    pub y: i32,
    pub facing: Direction,
    pub step_dir: Direction,
    pub offset: u8,
}

impl Player {
    /// A freshly spawned player: idle at `(x, y)`, facing south.
    pub open spec fn spec_new(x: int, y: int) -> Player {
        Player {
            x: x as i32,
            y: y as i32,
            facing: Direction::South,
            step_dir: Direction::South,
            offset: 0,
        }
    }

    pub fn new(x: i32, y: i32) -> (p: Player)
        ensures
            p == Player::spec_new(x as int, y as int),
    {
        Player { x, y, facing: Direction::South, step_dir: Direction::South, offset: 0 }
    }

    /// Idle: no translation in progress, so a new step may begin.
    pub open spec fn spec_can_walk(self) -> bool {
        self.offset == 0
    }

    pub fn can_walk(&self) -> (r: bool)
        ensures
            r == self.spec_can_walk(),
    {
        self.offset == 0
    }

    /// Set the facing without moving.
    pub fn face(&mut self, direction: &Direction)
        ensures
            *final(self) == (Player { facing: *direction, ..*old(self) }),
    {
        self.facing = *direction;
    }

    /// The state after beginning a one-cell step in direction `d`.
    pub open spec fn spec_walk(self, d: Direction) -> Player {
        Player {
            x: (self.x + d.dx()) as i32,
            y: (self.y + d.dy()) as i32,
            facing: d,
            step_dir: d,
            offset: STEP_PIXELS,
        }
    }

    /// Begin a one-cell translation in `direction`; only legal when idle.
    pub fn walk(&mut self, direction: &Direction)
        requires
            old(self).spec_can_walk(),
            i32::MIN < old(self).x < i32::MAX,
            i32::MIN < old(self).y < i32::MAX,
        ensures
            *final(self) == old(self).spec_walk(*direction),
    {
        let (nx, ny) = direction.from(self.x, self.y);
        self.x = nx;
        self.y = ny;
        self.facing = *direction;
        self.step_dir = *direction;
        self.offset = STEP_PIXELS;
    }

    /// The state after `elapsed` pixels of travel: the remaining offset
    /// shrinks, saturating at zero (idle).
    pub open spec fn spec_update(self, elapsed: int) -> Player {
        Player {
            offset: if elapsed >= self.offset { 0u8 } else { (self.offset - elapsed) as u8 },
            ..self
        }
    }

    /// Advance any in-progress translation by `elapsed` pixels of travel.
    pub fn update(&mut self, elapsed: u32)
        ensures
            *final(self) == old(self).spec_update(elapsed as int),
    {
        if elapsed >= self.offset as u32 {
            self.offset = 0;
        } else {
            self.offset = self.offset - elapsed as u8;
        }
    }

    /// Pixel-space center of the player sprite. Mid-step it interpolates
    /// from the former cell's center toward the target cell's center.
    pub open spec fn spec_center(self) -> (int, int) {
        (
            self.x * 16 + 8 - self.step_dir.dx() * self.offset,
            self.y * 16 + 8 - self.step_dir.dy() * self.offset,
        )
    }

    pub fn center(&self) -> (r: (i64, i64))
        ensures
            (r.0 as int, r.1 as int) == self.spec_center(),
    {
        let sx = self.step_dir.step_x();
        let sy = self.step_dir.step_y();
        let off = self.offset as i64;
        assert(-1 <= sx <= 1 && -1 <= sy <= 1 && 0 <= off <= 255);
        let cx = self.x as i64 * 16 + 8 - sx * off;
        let cy = self.y as i64 * 16 + 8 - sy * off;
        (cx, cy)
    }
}

/// A purely passive, pushable block.
#[derive(Clone, Copy, PartialEq, Eq, Structural, Debug)]
pub struct Block {
    pub x: i32,
    pub y: i32,
    pub color: Color,
    pub step_dir: Direction,
    pub offset: u8,
}

impl Block {
    pub open spec fn spec_new(x: int, y: int, color: Color) -> Block {
        Block {
            x: x as i32,
            y: y as i32,
            color,
            step_dir: Direction::South,
            offset: 0,
        }
    }

    pub fn new(x: i32, y: i32, color: Color) -> (b: Block)
        ensures
            b == Block::spec_new(x as int, y as int, color),
    {
        Block { x, y, color, step_dir: Direction::South, offset: 0 }
    }
}

/// A passive lightbulb: not pushable in the current mechanics, but it
/// occupies a grid cell and so is collision-relevant.
#[derive(Clone, Copy, PartialEq, Eq, Structural, Debug)]
pub struct Lightbulb {
    pub x: i32,
    pub y: i32,
    pub color: Color,
    pub step_dir: Direction,
    pub offset: u8,
}

impl Lightbulb {
    pub open spec fn spec_new(x: int, y: int, color: Color) -> Lightbulb {
        Lightbulb {
            x: x as i32,
            y: y as i32,
            color,
            step_dir: Direction::South,
            offset: 0,
        }
    }

    pub fn new(x: i32, y: i32, color: Color) -> (b: Lightbulb)
        ensures
            b == Lightbulb::spec_new(x as int, y as int, color),
    {
        Lightbulb { x, y, color, step_dir: Direction::South, offset: 0 }
    }
}

/// A movable or collidable object occupying a grid cell, distinct from the
/// player. Its `(x, y)` follows the same translation convention as the
/// player's: mid-step it already names the target cell.
#[derive(Clone, Copy, PartialEq, Eq, Structural, Debug)]
pub enum Entity {
    Block(Block),
    Lightbulb(Lightbulb),
}

impl Entity {
    pub open spec fn spec_x(self) -> int {
        match self {
            Entity::Block(b) => b.x as int,
            Entity::Lightbulb(l) => l.x as int,
        }
    }

    pub open spec fn spec_y(self) -> int {
        match self {
            Entity::Block(b) => b.y as int,
            Entity::Lightbulb(l) => l.y as int,
        }
    }

    /// Current grid column; mid-step this is already the target cell's.
    pub fn x(&self) -> (r: i32)
        ensures
            r as int == self.spec_x(),
    {
        match self {
            Entity::Block(b) => b.x,
            Entity::Lightbulb(l) => l.x,
        }
    }

    /// Current grid row; mid-step this is already the target cell's.
    pub fn y(&self) -> (r: i32)
        ensures
            r as int == self.spec_y(),
    {
        match self {
            Entity::Block(b) => b.y,
            Entity::Lightbulb(l) => l.y,
        }
    }

    /// The state after being pushed one cell in direction `d`.
    pub open spec fn spec_push(self, d: Direction) -> Entity {
        match self {
            Entity::Block(b) => Entity::Block(
                Block {
                    x: (b.x + d.dx()) as i32,
                    y: (b.y + d.dy()) as i32,
                    step_dir: d,
                    offset: STEP_PIXELS,
                    ..b
                },
            ),
            Entity::Lightbulb(l) => Entity::Lightbulb(
                Lightbulb {
                    x: (l.x + d.dx()) as i32,
                    y: (l.y + d.dy()) as i32,
                    step_dir: d,
                    offset: STEP_PIXELS,
                    ..l
                },
            ),
        }
    }

    /// Begin a one-cell translation in `direction`, as caused by the player
    /// walking into this entity's cell.
    pub fn push(&mut self, direction: &Direction)
        requires
            i32::MIN < old(self).spec_x() < i32::MAX,
            i32::MIN < old(self).spec_y() < i32::MAX,
        ensures
            *final(self) == old(self).spec_push(*direction),
    {
        match self {
            Entity::Block(b) => {
                let (nx, ny) = direction.from(b.x, b.y);
                b.x = nx;
                b.y = ny;
                b.step_dir = *direction;
                b.offset = STEP_PIXELS;
            },
            Entity::Lightbulb(l) => {
                let (nx, ny) = direction.from(l.x, l.y);
                l.x = nx;
                l.y = ny;
                l.step_dir = *direction;
                l.offset = STEP_PIXELS;
            },
        }
    }

    /// The state after `elapsed` pixels of travel, as for the player.
    pub open spec fn spec_update(self, elapsed: int) -> Entity {
        match self {
            Entity::Block(b) => Entity::Block(
                Block {
                    offset: if elapsed >= b.offset { 0u8 } else { (b.offset - elapsed) as u8 },
                    ..b
                },
            ),
            Entity::Lightbulb(l) => Entity::Lightbulb(
                Lightbulb {
                    offset: if elapsed >= l.offset { 0u8 } else { (l.offset - elapsed) as u8 },
                    ..l
                },
            ),
        }
    }

    /// Advance any in-progress translation by `elapsed` pixels of travel.
    pub fn update(&mut self, elapsed: u32)
        ensures
            *final(self) == old(self).spec_update(elapsed as int),
    {
        match self {
            Entity::Block(b) => {
                if elapsed >= b.offset as u32 {
                    b.offset = 0;
                } else {
                    b.offset = b.offset - elapsed as u8;
                }
            },
            Entity::Lightbulb(l) => {
                if elapsed >= l.offset as u32 {
                    l.offset = 0;
                } else {
                    l.offset = l.offset - elapsed as u8;
                }
            },
        }
    }
}

} // verus!
