//! The per-step movement resolver and the camera controller.

use vstd::prelude::*;
use crate::entity::{Direction, Entity, Player};
use crate::room::{Room, Tile};

verus! {

/// Logical viewport width, in pixels.
pub const DISPLAY_WIDTH: i64 = 200;

/// Logical viewport height, in pixels.
pub const DISPLAY_HEIGHT: i64 = 200;

/// Half the viewport width.
pub const DISPLAY_WIDTH_HALF: i64 = 100;

/// Half the viewport height.
pub const DISPLAY_HEIGHT_HALF: i64 = 100;

/// Middle value of three: the clamp used by the camera controller.
pub open spec fn med3(a: int, b: int, c: int) -> int {
    if a <= b {
        if b <= c {
            b
        } else if a <= c {
            c
        } else {
            a
        }
    } else {
        if a <= c {
            a
        } else if b <= c {
            c
        } else {
            b
        }
    }
}

fn median3(a: i64, b: i64, c: i64) -> (r: i64)
    ensures
        r as int == med3(a as int, b as int, c as int),
{
    if a <= b {
        if b <= c {
            b
        } else if a <= c {
            c
        } else {
            a
        }
    } else {
        if a <= c {
            a
        } else if b <= c {
            c
        } else {
            b
        }
    }
}

/// When the low bound is at most the high bound, the median-of-three clamp
/// behaves exactly as `clamp(p, low, high)`: it pins `p` to the nearer bound
/// and leaves it alone in between.
pub proof fn lemma_camera_clamp(low: int, p: int, high: int)
    requires
        low <= high,
    ensures
        p <= low ==> med3(low, p, high) == low,
        high <= p ==> med3(low, p, high) == high,
        low <= p <= high ==> med3(low, p, high) == p,
{
}

/// Index of the first entity occupying cell `(x, y)`, if any.
pub open spec fn first_entity_at(es: Seq<Entity>, x: int, y: int) -> Option<int>
    decreases es.len(),
{
    if es.len() == 0 {
        None
    } else if es[0].spec_x() == x && es[0].spec_y() == y {
        Some(0)
    } else {
        match first_entity_at(es.drop_first(), x, y) {
            Some(i) => Some(i + 1),
            None => None,
        }
    }
}

/// What `first_entity_at` returns is a valid index of an occupant of
/// `(x, y)` preceded by no other, and `None` means the cell is free.
pub proof fn lemma_first_entity_at_props(es: Seq<Entity>, x: int, y: int)
    ensures
        first_entity_at(es, x, y) matches Some(i) ==> 0 <= i < es.len() && es[i].spec_x() == x
            && es[i].spec_y() == y && (forall|k: int|
            0 <= k < i ==> !(es[k].spec_x() == x && es[k].spec_y() == y)),
        first_entity_at(es, x, y) is None ==> forall|k: int|
            0 <= k < es.len() ==> !(es[k].spec_x() == x && es[k].spec_y() == y),
    decreases es.len(),
{
    if es.len() > 0 && !(es[0].spec_x() == x && es[0].spec_y() == y) {
        let tail = es.drop_first();
        lemma_first_entity_at_props(tail, x, y);
        assert(forall|k: int| 0 <= k < tail.len() ==> tail[k] == es[k + 1]);
        match first_entity_at(tail, x, y) {
            Some(i0) => {
                assert(first_entity_at(es, x, y) == Some(i0 + 1));
                assert(es[i0 + 1] == tail[i0]);
                assert forall|k: int| 0 <= k < i0 + 1 implies !(es[k].spec_x() == x
                    && es[k].spec_y() == y) by {
                    if k > 0 {
                        assert(es[k] == tail[k - 1]);
                    }
                }
            },
            None => {
                assert forall|k: int| 0 <= k < es.len() implies !(es[k].spec_x() == x
                    && es[k].spec_y() == y) by {
                    if k > 0 {
                        assert(es[k] == tail[k - 1]);
                    }
                }
            },
        }
    }
}

/// Conversely, an occupant of `(x, y)` preceded by no other is what
/// `first_entity_at` returns.
pub proof fn lemma_first_entity_at_witness(es: Seq<Entity>, x: int, y: int, i: int)
    requires
        0 <= i < es.len(),
        es[i].spec_x() == x && es[i].spec_y() == y,
        forall|k: int| 0 <= k < i ==> !(es[k].spec_x() == x && es[k].spec_y() == y),
    ensures
        first_entity_at(es, x, y) == Some(i),
    decreases es.len(),
{
    if !(es[0].spec_x() == x && es[0].spec_y() == y) {
        assert(forall|k: int|
            0 <= k < i - 1 ==> !(es.drop_first()[k].spec_x() == x && es.drop_first()[k].spec_y()
                == y));
        lemma_first_entity_at_witness(es.drop_first(), x, y, i - 1);
    }
}

/// One held directional input, resolved against the pre-step state: the
/// facing always turns to the input; the player then walks into the target
/// cell if idle and the cell is passable, pushing a single occupying entity
/// onward when the cell beyond it is passable in turn. Occupancy of that
/// far cell is deliberately not checked (see the push lemmas below).
pub open spec fn resolve_one(room: Room, p: Player, es: Seq<Entity>, d: Direction) -> (
    Player,
    Seq<Entity>,
) {
    let faced = Player { facing: d, ..p };
    let nx = p.x + d.dx();
    let ny = p.y + d.dy();
    if p.spec_can_walk() && room.passable_at(nx, ny) {
        match first_entity_at(es, nx, ny) {
            None => (faced.spec_walk(d), es),
            Some(i) => {
                if room.passable_at(nx + d.dx(), ny + d.dy()) {
                    (faced.spec_walk(d), es.update(i, es[i].spec_push(d)))
                } else {
                    (faced, es)
                }
            },
        }
    } else {
        (faced, es)
    }
}

/// A whole input snapshot, resolved one direction at a time in order.
pub open spec fn resolve_all(room: Room, p: Player, es: Seq<Entity>, dirs: Seq<Direction>) -> (
    Player,
    Seq<Entity>,
)
    decreases dirs.len(),
{
    if dirs.len() == 0 {
        (p, es)
    } else {
        let (p1, es1) = resolve_one(room, p, es, dirs[0]);
        resolve_all(room, p1, es1, dirs.drop_first())
    }
}

/// Every entity's translation advanced by `elapsed` pixels of travel.
pub open spec fn advance_entities(es: Seq<Entity>, elapsed: int) -> Seq<Entity> {
    es.map_values(|e: Entity| e.spec_update(elapsed))
}

/// Pushing a block: when the player is idle beside an entity and the cell
/// beyond it is passable and unoccupied, resolving that direction moves the
/// entity one cell onward and the player into the entity's former cell;
/// every other entity stays put.
pub proof fn lemma_push_moves_block(room: Room, p: Player, es: Seq<Entity>, d: Direction, i: int)
    requires
        room.wf(),
        p.spec_can_walk(),
        room.passable_at(p.x + d.dx(), p.y + d.dy()),
        first_entity_at(es, p.x + d.dx(), p.y + d.dy()) == Some(i),
        room.passable_at(p.x + 2 * d.dx(), p.y + 2 * d.dy()),
        first_entity_at(es, p.x + 2 * d.dx(), p.y + 2 * d.dy()) is None,
    ensures
        0 <= i < es.len(),
        es[i].spec_x() == p.x + d.dx() && es[i].spec_y() == p.y + d.dy(),
        resolve_one(room, p, es, d).0.x as int == p.x + d.dx(),
        resolve_one(room, p, es, d).0.y as int == p.y + d.dy(),
        resolve_one(room, p, es, d).1[i].spec_x() == p.x + 2 * d.dx(),
        resolve_one(room, p, es, d).1[i].spec_y() == p.y + 2 * d.dy(),
        forall|k: int| 0 <= k < es.len() && k != i ==> resolve_one(room, p, es, d).1[k] == es[k],
{
    let nx = p.x + d.dx();
    let ny = p.y + d.dy();
    lemma_first_entity_at_props(es, nx, ny);
    room.lemma_tile_bounds(nx, ny);
    room.lemma_tile_bounds(nx + d.dx(), ny + d.dy());
}

/// Pushing a block into a wall: when the cell beyond the entity holds a
/// wall, resolving that direction turns the player's facing but moves
/// neither the player nor any entity.
pub proof fn lemma_push_into_wall(room: Room, p: Player, es: Seq<Entity>, d: Direction, i: int)
    requires
        p.spec_can_walk(),
        room.passable_at(p.x + d.dx(), p.y + d.dy()),
        first_entity_at(es, p.x + d.dx(), p.y + d.dy()) == Some(i),
        room.spec_tile_at(p.x + 2 * d.dx(), p.y + 2 * d.dy()) == Some(Tile::Wall),
    ensures
        resolve_one(room, p, es, d).0 == (Player { facing: d, ..p }),
        resolve_one(room, p, es, d).1 == es,
{
}

/// Pushing a block into a second entity: occupancy of the far cell is not
/// checked, so when that cell is passable the push still goes through and
/// the pushed entity comes to share the cell with its occupant, which does
/// not move. This documents the mechanics as designed.
pub proof fn lemma_push_onto_occupied(
    room: Room,
    p: Player,
    es: Seq<Entity>,
    d: Direction,
    i: int,
    j: int,
)
    requires
        room.wf(),
        p.spec_can_walk(),
        room.passable_at(p.x + d.dx(), p.y + d.dy()),
        first_entity_at(es, p.x + d.dx(), p.y + d.dy()) == Some(i),
        room.passable_at(p.x + 2 * d.dx(), p.y + 2 * d.dy()),
        0 <= j < es.len() && j != i,
        es[j].spec_x() == p.x + 2 * d.dx() && es[j].spec_y() == p.y + 2 * d.dy(),
    ensures
        0 <= i < es.len(),
        resolve_one(room, p, es, d).0.x as int == p.x + d.dx(),
        resolve_one(room, p, es, d).0.y as int == p.y + d.dy(),
        resolve_one(room, p, es, d).1[j] == es[j],
        resolve_one(room, p, es, d).1[i].spec_x() == resolve_one(room, p, es, d).1[j].spec_x(),
        resolve_one(room, p, es, d).1[i].spec_y() == resolve_one(room, p, es, d).1[j].spec_y(),
{
    let nx = p.x + d.dx();
    let ny = p.y + d.dy();
    lemma_first_entity_at_props(es, nx, ny);
    room.lemma_tile_bounds(nx, ny);
    room.lemma_tile_bounds(nx + d.dx(), ny + d.dy());
}

/// The facing turns to the held input even when the move itself is
/// rejected.
pub proof fn lemma_facing_always_turns(room: Room, p: Player, es: Seq<Entity>, d: Direction)
    ensures
        resolve_one(room, p, es, d).0.facing == d,
{
}

/// A busy player only turns: while a translation is in progress an input
/// changes the facing and nothing else, so a begun step cannot be
/// re-triggered or redirected mid-slide.
pub proof fn lemma_busy_player_only_turns(room: Room, p: Player, es: Seq<Entity>, d: Direction)
    requires
        !p.spec_can_walk(),
    ensures
        resolve_one(room, p, es, d) == ((Player { facing: d, ..p }), es),
{
}

/// A resolved move leaves the player busy, so of one input snapshot at most
/// the first applicable direction produces a move.
pub proof fn lemma_move_leaves_player_busy(room: Room, p: Player, es: Seq<Entity>, d: Direction)
    ensures
        resolve_one(room, p, es, d).0.x != p.x || resolve_one(room, p, es, d).0.y != p.y
            ==> !resolve_one(room, p, es, d).0.spec_can_walk(),
{
}

/// One simulation session: the immutable grid, the player, and the passive
/// entities, stepped by `update` and observed by the camera controller.
pub struct GameState {
    pub room: Room,
    pub player: Player,
    pub entities: Vec<Entity>,
}

impl GameState {
    /// Index of the first entity occupying cell `(x, y)`, if any.
    pub fn entity_at(&self, x: i32, y: i32) -> (r: Option<usize>)
        ensures
            match r {
                Some(i) => i < self.entities@.len() && first_entity_at(
                    self.entities@,
                    x as int,
                    y as int,
                ) == Some(i as int),
                None => first_entity_at(self.entities@, x as int, y as int) is None,
            },
    {
        let mut j: usize = 0;
        while j < self.entities.len()
            invariant
                j <= self.entities@.len(),
                forall|k: int|
                    0 <= k < j ==> !(self.entities@[k].spec_x() == x as int
                        && self.entities@[k].spec_y() == y as int),
            decreases self.entities@.len() - j,
        {
            let e = &self.entities[j];
            if e.x() == x && e.y() == y {
                proof {
                    lemma_first_entity_at_witness(self.entities@, x as int, y as int, j as int);
                }
                return Some(j);
            }
            j = j + 1;
        }
        proof {
            lemma_first_entity_at_props(self.entities@, x as int, y as int);
        }
        None
    }

    /// Resolve a single held directional input against the current state.
    pub fn step(&mut self, direction: &Direction)
        requires
            old(self).room.wf(),
            i32::MIN < old(self).player.x < i32::MAX,
            i32::MIN < old(self).player.y < i32::MAX,
        ensures
            final(self).room == old(self).room,
            (final(self).player, final(self).entities@) == resolve_one(
                old(self).room,
                old(self).player,
                old(self).entities@,
                *direction,
            ),
    {
        self.player.face(direction);
        let (nx, ny) = direction.from(self.player.x, self.player.y);
        let tile = self.room.tile_at(nx, ny);
        let passable = match tile {
            Some(t) => t.is_passable(),
            None => false,
        };
        if self.player.can_walk() && passable {
            proof {
                self.room.lemma_tile_bounds(nx as int, ny as int);
                lemma_first_entity_at_props(self.entities@, nx as int, ny as int);
            }
            match self.entity_at(nx, ny) {
                Some(entity_id) => {
                    let (nnx, nny) = direction.from(nx, ny);
                    let next_tile = self.room.tile_at(nnx, nny);
                    let next_passable = match next_tile {
                        Some(t) => t.is_passable(),
                        None => false,
                    };
                    if next_passable {
                        self.entities[entity_id].push(direction);
                        self.player.walk(direction);
                    }
                },
                None => {
                    self.player.walk(direction);
                },
            }
        }
    }

    /// One simulation step: advance all in-progress translations by
    /// `elapsed` pixels of travel, then resolve the held directional inputs
    /// in order. A begun step leaves the player busy, so at most one input
    /// produces a move.
    pub fn update(&mut self, elapsed: u32, held: &Vec<Direction>)
        requires
            old(self).room.wf(),
            i32::MIN < old(self).player.x < i32::MAX,
            i32::MIN < old(self).player.y < i32::MAX,
        ensures
            final(self).room == old(self).room,
            (final(self).player, final(self).entities@) == resolve_all(
                old(self).room,
                old(self).player.spec_update(elapsed as int),
                advance_entities(old(self).entities@, elapsed as int),
                held@,
            ),
    {
        self.player.update(elapsed);

        let ghost es0 = self.entities@;
        let mut j: usize = 0;
        while j < self.entities.len()
            invariant
                j <= self.entities@.len(),
                self.entities@.len() == es0.len(),
                self.room == old(self).room,
                old(self).room.wf(),
                self.player == old(self).player.spec_update(elapsed as int),
                i32::MIN < old(self).player.x < i32::MAX,
                i32::MIN < old(self).player.y < i32::MAX,
                forall|k: int| 0 <= k < j ==> self.entities@[k] == es0[k].spec_update(elapsed as int),
                forall|k: int| j <= k < es0.len() ==> self.entities@[k] == es0[k],
            decreases self.entities@.len() - j,
        {
            self.entities[j].update(elapsed);
            j = j + 1;
        }
        proof {
            assert(self.entities@ =~= advance_entities(es0, elapsed as int));
        }

        let ghost room0 = self.room;
        let ghost p1 = self.player;
        let ghost es1 = self.entities@;
        let mut k: usize = 0;
        proof {
            assert(held@.skip(0) =~= held@);
        }
        while k < held.len()
            invariant
                k <= held@.len(),
                self.room == room0,
                room0.wf(),
                i32::MIN < self.player.x < i32::MAX,
                i32::MIN < self.player.y < i32::MAX,
                resolve_all(room0, p1, es1, held@) == resolve_all(
                    room0,
                    self.player,
                    self.entities@,
                    held@.skip(k as int),
                ),
            decreases held@.len() - k,
        {
            let d = held[k];
            proof {
                let s = held@.skip(k as int);
                assert(s[0] == held@[k as int]);
                assert(s.drop_first() =~= held@.skip(k as int + 1));
            }
            let ghost pp = self.player;
            self.step(&d);
            proof {
                let nx = pp.x + d.dx();
                let ny = pp.y + d.dy();
                if room0.passable_at(nx, ny) {
                    room0.lemma_tile_bounds(nx, ny);
                }
            }
            k = k + 1;
        }
        proof {
            assert(held@.skip(held@.len() as int) =~= Seq::<Direction>::empty());
        }
    }

    /// Viewport origin in pixel space: the player's center, clamped so the
    /// view never scrolls past the grid's pixel extent.
    pub fn camera(&self) -> (r: (i64, i64))
        requires
            self.room.wf(),
        ensures
            r.0 as int == med3(
                DISPLAY_WIDTH_HALF as int,
                self.player.spec_center().0,
                self.room.spec_pixel_width() - DISPLAY_WIDTH_HALF,
            ),
            r.1 as int == med3(
                DISPLAY_HEIGHT_HALF as int,
                self.player.spec_center().1,
                self.room.spec_pixel_height() - DISPLAY_HEIGHT_HALF,
            ),
    {
        let (x, y) = self.player.center();
        proof {
            assert(self.room.tiles@.len() as int / self.room.width as int <= self.room.tiles@.len())
                by (nonlinear_arith)
                requires
                    self.room.width >= 1,
                    self.room.tiles@.len() >= 0,
            ;
        }
        let cam_x = median3(DISPLAY_WIDTH_HALF, x, self.room.pixel_width() - DISPLAY_WIDTH_HALF);
        let cam_y = median3(DISPLAY_HEIGHT_HALF, y, self.room.pixel_height() - DISPLAY_HEIGHT_HALF);
        (cam_x, cam_y)
    }
}

} // verus!
