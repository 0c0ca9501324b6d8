use vstd::prelude::*;
use crate::geom::Vec2i;
use crate::level::{Level, LevelModel};
use crate::tile::Tile;

verus! {

/// Logical units per grid cell.
pub const CELL_SIZE: i64 = 64;

/// Half a cell: the displacement at which a dragged tile commits to the
/// next cell.
pub const HALF_CELL: i64 = 32;

/// Sub-steps resolved per pointer-move event: one reported movement can
/// span several cells and each potential crossing is validated on its own.
pub const DRAG_SUB_STEPS: usize = 15;

/// Bound on pointer coordinates in logical units. The playfield is a few
/// hundred units wide; this generous machine limit keeps every intermediate
/// of the drag arithmetic far from `i64` overflow.
pub const COORD_LIMIT: i64 = 1_000_000;

pub open spec fn coord_ok(v: Vec2i) -> bool {
    -COORD_LIMIT <= v.x <= COORD_LIMIT && -COORD_LIMIT <= v.y <= COORD_LIMIT
}

/// A movable tile in flight: the tile value, its current logical cell, and
/// the anchor between the press point and the cell origin.
#[derive(Clone, Copy, Debug, PartialEq, Eq, Structural)]
pub struct TileMove {
    pub tile: Tile,
    pub map_x: u32,
    pub map_y: u32,
    pub grab_cursor_pos: Vec2i,
    pub last_cursor_pos: Vec2i,
}

/// One flag per axis direction, as the drag resolver reports them.
#[derive(Clone, Copy, Debug, PartialEq, Eq, Structural)]
pub struct DragFlags {
    pub pos_x: bool,
    pub neg_x: bool,
    pub pos_y: bool,
    pub neg_y: bool,
}

impl DragFlags {
    pub fn none() -> (f: DragFlags)
        ensures
            f == spec_no_flags(),
    {
        DragFlags { pos_x: false, neg_x: false, pos_y: false, neg_y: false }
    }
}

pub open spec fn spec_no_flags() -> DragFlags {
    DragFlags { pos_x: false, neg_x: false, pos_y: false, neg_y: false }
}

/// What one pointer-move event reports back: the continuous sub-cell
/// offset for rendering the dragged sprite, which axis directions were
/// blocked and which committed a cell, and whether the piece both slid and
/// struck an obstacle within this event (the audible bump).
#[derive(Clone, Copy, Debug, PartialEq, Eq, Structural)]
pub struct DragMoveOutcome {
    pub offset: Vec2i,
    pub hit: DragFlags,
    pub moved: DragFlags,
    pub collision: bool,
}

/// The drag resolver's state between sub-steps.
pub ghost struct DragState {
    pub map_x: int,
    pub map_y: int,
    pub grab_x: int,
    pub grab_y: int,
    pub last_x: int,
    pub last_y: int,
    pub hit: DragFlags,
    pub moved: DragFlags,
}

/// Advancing one cell to the right is blocked: at the grid edge, the
/// destination front cell is occupied, or its back cell has no track.
pub open spec fn spec_blocked_pos_x(m: LevelModel, x: int, y: int) -> bool {
    ||| x == m.width - 1
    ||| m.front_tile_at(x + 1, y) != Tile::EmptyPiece
    ||| m.back_tile_at(x + 1, y) == Tile::EmptyPiece
}

pub open spec fn spec_blocked_neg_x(m: LevelModel, x: int, y: int) -> bool {
    ||| x == 0
    ||| m.front_tile_at(x - 1, y) != Tile::EmptyPiece
    ||| m.back_tile_at(x - 1, y) == Tile::EmptyPiece
}

pub open spec fn spec_blocked_pos_y(m: LevelModel, x: int, y: int) -> bool {
    ||| y == m.height - 1
    ||| m.front_tile_at(x, y + 1) != Tile::EmptyPiece
    ||| m.back_tile_at(x, y + 1) == Tile::EmptyPiece
}

pub open spec fn spec_blocked_neg_y(m: LevelModel, x: int, y: int) -> bool {
    ||| y == 0
    ||| m.front_tile_at(x, y - 1) != Tile::EmptyPiece
    ||| m.back_tile_at(x, y - 1) == Tile::EmptyPiece
}

/// One drag sub-step against cursor position (`np_x`,`np_y`): per axis, the
/// delta from the anchor is zeroed (and the hit flag raised) when advancing
/// would leave the grid, land on an occupied front cell or leave the track;
/// a delta past half a cell commits the cell, shifts the anchor a full cell
/// in that direction and subtracts the cell from the delta, keeping the
/// sub-cell offset continuous.
pub open spec fn spec_drag_substep(m: LevelModel, np_x: int, np_y: int, s: DragState) -> DragState {
    let dx0 = np_x - s.grab_x;
    let dy0 = np_y - s.grab_y;
    let bpx = dx0 > 0 && spec_blocked_pos_x(m, s.map_x, s.map_y);
    let bnx = dx0 < 0 && spec_blocked_neg_x(m, s.map_x, s.map_y);
    let bpy = dy0 > 0 && spec_blocked_pos_y(m, s.map_x, s.map_y);
    let bny = dy0 < 0 && spec_blocked_neg_y(m, s.map_x, s.map_y);
    let dx1 = if bpx || bnx {
        0
    } else {
        dx0
    };
    let dy1 = if bpy || bny {
        0
    } else {
        dy0
    };
    let hit2 = DragFlags {
        pos_x: s.hit.pos_x || bpx,
        neg_x: s.hit.neg_x || bnx,
        pos_y: s.hit.pos_y || bpy,
        neg_y: s.hit.neg_y || bny,
    };
    let map_x2 = if dx1 > HALF_CELL {
        s.map_x + 1
    } else if dx1 < -HALF_CELL {
        s.map_x - 1
    } else {
        s.map_x
    };
    let grab_x2 = if dx1 > HALF_CELL {
        s.grab_x + CELL_SIZE
    } else if dx1 < -HALF_CELL {
        s.grab_x - CELL_SIZE
    } else {
        s.grab_x
    };
    let dx2 = if dx1 > HALF_CELL {
        dx1 - CELL_SIZE
    } else if dx1 < -HALF_CELL {
        dx1 + CELL_SIZE
    } else {
        dx1
    };
    let map_y2 = if dy1 > HALF_CELL {
        s.map_y + 1
    } else if dy1 < -HALF_CELL {
        s.map_y - 1
    } else {
        s.map_y
    };
    let grab_y2 = if dy1 > HALF_CELL {
        s.grab_y + CELL_SIZE
    } else if dy1 < -HALF_CELL {
        s.grab_y - CELL_SIZE
    } else {
        s.grab_y
    };
    let dy2 = if dy1 > HALF_CELL {
        dy1 - CELL_SIZE
    } else if dy1 < -HALF_CELL {
        dy1 + CELL_SIZE
    } else {
        dy1
    };
    let moved2 = DragFlags {
        pos_x: s.moved.pos_x || dx1 > HALF_CELL,
        neg_x: s.moved.neg_x || dx1 < -HALF_CELL,
        pos_y: s.moved.pos_y || dy1 > HALF_CELL,
        neg_y: s.moved.neg_y || dy1 < -HALF_CELL,
    };
    DragState {
        map_x: map_x2,
        map_y: map_y2,
        grab_x: grab_x2,
        grab_y: grab_y2,
        last_x: grab_x2 + dx2,
        last_y: grab_y2 + dy2,
        hit: hit2,
        moved: moved2,
    }
}

/// `n` drag sub-steps in a row against one cursor position.
pub open spec fn spec_drag_substeps(
    m: LevelModel,
    np_x: int,
    np_y: int,
    s: DragState,
    n: nat,
) -> DragState
    decreases n,
{
    if n == 0 {
        s
    } else {
        spec_drag_substeps(m, np_x, np_y, spec_drag_substep(m, np_x, np_y, s), (n - 1) as nat)
    }
}

/// A sub-step fixed point absorbs any number of further sub-steps.
pub proof fn lemma_drag_substeps_fixpoint(
    m: LevelModel,
    np_x: int,
    np_y: int,
    s: DragState,
    n: nat,
)
    requires
        spec_drag_substep(m, np_x, np_y, s) == s,
    ensures
        spec_drag_substeps(m, np_x, np_y, s, n) == s,
    decreases n,
{
    if n > 0 {
        lemma_drag_substeps_fixpoint(m, np_x, np_y, s, (n - 1) as nat);
    }
}

/// The resolver state a move event starts from.
pub open spec fn spec_drag_init(tm: TileMove) -> DragState {
    DragState {
        map_x: tm.map_x as int,
        map_y: tm.map_y as int,
        grab_x: tm.grab_cursor_pos.x as int,
        grab_y: tm.grab_cursor_pos.y as int,
        last_x: tm.last_cursor_pos.x as int,
        last_y: tm.last_cursor_pos.y as int,
        hit: spec_no_flags(),
        moved: spec_no_flags(),
    }
}

/// Bounds every reachable resolver state keeps: the cell stays on the
/// grid, the anchor within a cell of the pointer bound, the stored cursor
/// within the widest intermediate value.
pub open spec fn spec_drag_state_ok(m: LevelModel, s: DragState) -> bool {
    &&& 0 <= s.map_x < m.width
    &&& 0 <= s.map_y < m.height
    &&& -(COORD_LIMIT + CELL_SIZE) <= s.grab_x <= COORD_LIMIT + CELL_SIZE
    &&& -(COORD_LIMIT + CELL_SIZE) <= s.grab_y <= COORD_LIMIT + CELL_SIZE
    &&& -(4 * COORD_LIMIT) <= s.last_x <= 4 * COORD_LIMIT
    &&& -(4 * COORD_LIMIT) <= s.last_y <= 4 * COORD_LIMIT
}

/// One sub-step keeps the resolver state within bounds.
pub proof fn lemma_drag_substep_ok(m: LevelModel, np_x: int, np_y: int, s: DragState)
    requires
        m.wf(),
        spec_drag_state_ok(m, s),
        -COORD_LIMIT <= np_x <= COORD_LIMIT,
        -COORD_LIMIT <= np_y <= COORD_LIMIT,
    ensures
        spec_drag_state_ok(m, spec_drag_substep(m, np_x, np_y, s)),
{
}

/// Any number of sub-steps keeps the resolver state within bounds.
pub proof fn lemma_drag_substeps_ok(m: LevelModel, np_x: int, np_y: int, s: DragState, n: nat)
    requires
        m.wf(),
        spec_drag_state_ok(m, s),
        -COORD_LIMIT <= np_x <= COORD_LIMIT,
        -COORD_LIMIT <= np_y <= COORD_LIMIT,
    ensures
        spec_drag_state_ok(m, spec_drag_substeps(m, np_x, np_y, s, n)),
    decreases n,
{
    if n > 0 {
        lemma_drag_substep_ok(m, np_x, np_y, s);
        lemma_drag_substeps_ok(m, np_x, np_y, spec_drag_substep(m, np_x, np_y, s), (n - 1) as nat);
    }
}

/// The state `tile_move` holds between events, when a drag is active.
pub open spec fn spec_tm_ok(m: LevelModel, tm: TileMove) -> bool {
    spec_drag_state_ok(m, spec_drag_init(tm))
}

/// The resolver state the exec variables stand for.
pub open spec fn spec_mk_drag_state(
    map_x: u32,
    map_y: u32,
    grab: Vec2i,
    last: Vec2i,
    hit: DragFlags,
    moved: DragFlags,
) -> DragState {
    DragState {
        map_x: map_x as int,
        map_y: map_y as int,
        grab_x: grab.x as int,
        grab_y: grab.y as int,
        last_x: last.x as int,
        last_y: last.y as int,
        hit,
        moved,
    }
}

fn blocked_pos_x(level: &Level, x: u32, y: u32) -> (b: bool)
    requires
        level@.wf(),
        (x as int) < level@.width,
        (y as int) < level@.height,
    ensures
        b == spec_blocked_pos_x(level@, x as int, y as int),
{
    x == level.width() - 1 || level.front_tile(x + 1, y) != Tile::EmptyPiece || level.back_tile(
        x + 1,
        y,
    ) == Tile::EmptyPiece
}

fn blocked_neg_x(level: &Level, x: u32, y: u32) -> (b: bool)
    requires
        level@.wf(),
        (x as int) < level@.width,
        (y as int) < level@.height,
    ensures
        b == spec_blocked_neg_x(level@, x as int, y as int),
{
    x == 0 || level.front_tile(x - 1, y) != Tile::EmptyPiece || level.back_tile(x - 1, y)
        == Tile::EmptyPiece
}

fn blocked_pos_y(level: &Level, x: u32, y: u32) -> (b: bool)
    requires
        level@.wf(),
        (x as int) < level@.width,
        (y as int) < level@.height,
    ensures
        b == spec_blocked_pos_y(level@, x as int, y as int),
{
    y == level.height() - 1 || level.front_tile(x, y + 1) != Tile::EmptyPiece || level.back_tile(
        x,
        y + 1,
    ) == Tile::EmptyPiece
}

fn blocked_neg_y(level: &Level, x: u32, y: u32) -> (b: bool)
    requires
        level@.wf(),
        (x as int) < level@.width,
        (y as int) < level@.height,
    ensures
        b == spec_blocked_neg_y(level@, x as int, y as int),
{
    y == 0 || level.front_tile(x, y - 1) != Tile::EmptyPiece || level.back_tile(x, y - 1)
        == Tile::EmptyPiece
}

/// One drag sub-step, mirroring `spec_drag_substep`.
#[verifier::rlimit(30)]
fn drag_substep(
    level: &Level,
    new_pos: Vec2i,
    map_x: &mut u32,
    map_y: &mut u32,
    grab: &mut Vec2i,
    last: &mut Vec2i,
    hit: &mut DragFlags,
    moved: &mut DragFlags,
)
    requires
        level@.wf(),
        coord_ok(new_pos),
        spec_drag_state_ok(
            level@,
            spec_mk_drag_state(
                *old(map_x),
                *old(map_y),
                *old(grab),
                *old(last),
                *old(hit),
                *old(moved),
            ),
        ),
    ensures
        spec_mk_drag_state(
            *final(map_x),
            *final(map_y),
            *final(grab),
            *final(last),
            *final(hit),
            *final(moved),
        ) == spec_drag_substep(
            level@,
            new_pos.x as int,
            new_pos.y as int,
            spec_mk_drag_state(
                *old(map_x),
                *old(map_y),
                *old(grab),
                *old(last),
                *old(hit),
                *old(moved),
            ),
        ),
{
    let ghost cur = spec_mk_drag_state(*map_x, *map_y, *grab, *last, *hit, *moved);
    let ghost m = level@;
    let dx0 = new_pos.x - grab.x;
    let dy0 = new_pos.y - grab.y;
    let bpx = dx0 > 0 && blocked_pos_x(level, *map_x, *map_y);
    let bnx = dx0 < 0 && blocked_neg_x(level, *map_x, *map_y);
    let bpy = dy0 > 0 && blocked_pos_y(level, *map_x, *map_y);
    let bny = dy0 < 0 && blocked_neg_y(level, *map_x, *map_y);
    let dx1 = if bpx || bnx {
        0
    } else {
        dx0
    };
    let dy1 = if bpy || bny {
        0
    } else {
        dy0
    };
    *hit = DragFlags {
        pos_x: hit.pos_x || bpx,
        neg_x: hit.neg_x || bnx,
        pos_y: hit.pos_y || bpy,
        neg_y: hit.neg_y || bny,
    };
    let cpx = dx1 > HALF_CELL;
    let cnx = dx1 < -HALF_CELL;
    let cpy = dy1 > HALF_CELL;
    let cny = dy1 < -HALF_CELL;
    *moved = DragFlags {
        pos_x: moved.pos_x || cpx,
        neg_x: moved.neg_x || cnx,
        pos_y: moved.pos_y || cpy,
        neg_y: moved.neg_y || cny,
    };
    let dx2 = if cpx {
        dx1 - CELL_SIZE
    } else if cnx {
        dx1 + CELL_SIZE
    } else {
        dx1
    };
    let dy2 = if cpy {
        dy1 - CELL_SIZE
    } else if cny {
        dy1 + CELL_SIZE
    } else {
        dy1
    };
    if cpx {
        *map_x = *map_x + 1;
        grab.x = grab.x + CELL_SIZE;
    } else if cnx {
        *map_x = *map_x - 1;
        grab.x = grab.x - CELL_SIZE;
    }
    if cpy {
        *map_y = *map_y + 1;
        grab.y = grab.y + CELL_SIZE;
    } else if cny {
        *map_y = *map_y - 1;
        grab.y = grab.y - CELL_SIZE;
    }
    *last = Vec2i { x: grab.x + dx2, y: grab.y + dy2 };
    proof {
        let s2 = spec_drag_substep(m, new_pos.x as int, new_pos.y as int, cur);
        assert(s2.map_x == *map_x as int && s2.map_y == *map_y as int);
        assert(s2.grab_x == grab.x as int && s2.grab_y == grab.y as int);
        assert(s2.last_x == last.x as int && s2.last_y == last.y as int);
        assert(s2.hit == *hit);
        assert(s2.moved == *moved);
    }
}

/// Pointer-driven movement of a grabbed movable tile. `Idle` between
/// drags; `Grabbed` (a `Some` in `tile_move`) while a piece is in flight,
/// during which the piece is physically absent from the front layer.
pub struct TileDragController {
    pub tile_move: Option<TileMove>,
}

impl TileDragController {
    pub open spec fn wf(self, m: LevelModel) -> bool {
        match self.tile_move {
            Some(tm) => spec_tm_ok(m, tm),
            None => true,
        }
    }

    pub fn new() -> (c: TileDragController)
        ensures
            c.tile_move == Option::<TileMove>::None,
    {
        TileDragController { tile_move: None }
    }

    pub fn is_grabbed(&self) -> (b: bool)
        ensures
            b == (self.tile_move is Some),
    {
        self.tile_move.is_some()
    }

    /// A press on cell (`map_x`,`map_y`): when the front tile there is
    /// movable it is lifted off the layer (replaced by empty) and the drag
    /// enters `Grabbed` with the press point as anchor; any other press
    /// changes nothing.
    pub fn press(&mut self, level: &mut Level, map_x: u32, map_y: u32, pos: Vec2i) -> (grabbed:
        bool)
        requires
            old(level)@.wf(),
            (map_x as int) < old(level)@.width,
            (map_y as int) < old(level)@.height,
            coord_ok(pos),
        ensures
            final(level)@.wf(),
            grabbed == crate::tile::spec_is_movable(
                old(level)@.front_tile_at(map_x as int, map_y as int),
            ),
            grabbed ==> {
                &&& final(level)@ == (LevelModel {
                    front: old(level)@.front.update(
                        old(level)@.offset_of(map_x as int, map_y as int),
                        crate::tile::spec_tile_code(Tile::EmptyPiece),
                    ),
                    ..old(level)@
                })
                &&& final(self).tile_move == Some(
                    TileMove {
                        tile: old(level)@.front_tile_at(map_x as int, map_y as int),
                        map_x,
                        map_y,
                        grab_cursor_pos: pos,
                        last_cursor_pos: pos,
                    },
                )
                &&& final(self).wf(final(level)@)
            },
            !grabbed ==> final(level)@ == old(level)@ && *final(self) == *old(self),
    {
        let tile = level.front_tile(map_x, map_y);
        if tile.is_movable() {
            level.set_front_tile(map_x, map_y, Tile::EmptyPiece);
            self.tile_move = Some(
                TileMove { tile, map_x, map_y, grab_cursor_pos: pos, last_cursor_pos: pos },
            );
            true
        } else {
            false
        }
    }

    /// Resolves one pointer-move event while a drag is active: up to
    /// `DRAG_SUB_STEPS` sub-steps against the new cursor position, then a
    /// final occupancy re-check — if the target front cell is occupied
    /// after all (a race against the simulator's temporary placement), the
    /// logical cell reverts to the one held before this event. Returns the
    /// sub-cell visual offset, the per-direction hit and moved flags, and
    /// the collision event (an axis direction both moved and hit within
    /// this same event). While `Idle` the call changes nothing.
    pub fn mouse_move(&mut self, level: &Level, new_pos: Vec2i) -> (r: DragMoveOutcome)
        requires
            level@.wf(),
            old(self).wf(level@),
            coord_ok(new_pos),
        ensures
            final(self).wf(level@),
            match old(self).tile_move {
                None => *final(self) == *old(self) && r == (DragMoveOutcome {
                    offset: (Vec2i { x: 0, y: 0 }),
                    hit: spec_no_flags(),
                    moved: spec_no_flags(),
                    collision: false,
                }),
                Some(tm) => ({
                    let sf = spec_drag_substeps(
                        level@,
                        new_pos.x as int,
                        new_pos.y as int,
                        spec_drag_init(tm),
                        DRAG_SUB_STEPS as nat,
                    );
                    let reverted = level@.front_tile_at(sf.map_x, sf.map_y)
                        != Tile::EmptyPiece;
                    let fx = if reverted {
                        tm.map_x as int
                    } else {
                        sf.map_x
                    };
                    let fy = if reverted {
                        tm.map_y as int
                    } else {
                        sf.map_y
                    };
                    &&& final(self).tile_move == Some(
                        TileMove {
                            tile: tm.tile,
                            map_x: fx as u32,
                            map_y: fy as u32,
                            grab_cursor_pos: (Vec2i { x: sf.grab_x as i64, y: sf.grab_y as i64 }),
                            last_cursor_pos: (Vec2i { x: sf.last_x as i64, y: sf.last_y as i64 }),
                        },
                    )
                    &&& r.offset.x == sf.last_x - sf.grab_x
                    &&& r.offset.y == sf.last_y - sf.grab_y
                    &&& r.hit == sf.hit
                    &&& r.moved == sf.moved
                    &&& r.collision == ((sf.moved.pos_x && sf.hit.pos_x) || (sf.moved.neg_x
                        && sf.hit.neg_x) || (sf.moved.pos_y && sf.hit.pos_y) || (sf.moved.neg_y
                        && sf.hit.neg_y))
                }),
            },
    {
        if self.tile_move.is_none() {
            return DragMoveOutcome {
                offset: Vec2i::new(0, 0),
                hit: DragFlags::none(),
                moved: DragFlags::none(),
                collision: false,
            };
        }
        let tm = self.tile_move.unwrap();
        let ghost m = level@;
        let ghost s0 = spec_drag_init(tm);
        let ghost sfinal = spec_drag_substeps(m, new_pos.x as int, new_pos.y as int, s0,
            DRAG_SUB_STEPS as nat);
        let old_map_x = tm.map_x;
        let old_map_y = tm.map_y;
        let mut map_x = tm.map_x;
        let mut map_y = tm.map_y;
        let mut grab = tm.grab_cursor_pos;
        let mut last = tm.last_cursor_pos;
        let mut hit = DragFlags::none();
        let mut moved = DragFlags::none();
        let mut t: usize = 0;
        while t < DRAG_SUB_STEPS
            invariant
                level@ == m,
                m.wf(),
                coord_ok(new_pos),
                t <= DRAG_SUB_STEPS,
                spec_drag_state_ok(m, spec_mk_drag_state(map_x, map_y, grab, last, hit, moved)),
                spec_drag_substeps(
                    m,
                    new_pos.x as int,
                    new_pos.y as int,
                    spec_mk_drag_state(map_x, map_y, grab, last, hit, moved),
                    (DRAG_SUB_STEPS - t) as nat,
                ) == sfinal,
            decreases DRAG_SUB_STEPS - t,
        {
            let ghost cur = spec_mk_drag_state(map_x, map_y, grab, last, hit, moved);
            proof {
                lemma_drag_substep_ok(m, new_pos.x as int, new_pos.y as int, cur);
            }
            drag_substep(
                level,
                new_pos,
                &mut map_x,
                &mut map_y,
                &mut grab,
                &mut last,
                &mut hit,
                &mut moved,
            );
            t = t + 1;
        }
        // A race against the simulator's temporary placement: if the
        // target cell is occupied after all, fall back to the previous
        // cell.
        if level.front_tile(map_x, map_y) != Tile::EmptyPiece {
            map_x = old_map_x;
            map_y = old_map_y;
        }
        self.tile_move = Some(
            TileMove {
                tile: tm.tile,
                map_x,
                map_y,
                grab_cursor_pos: grab,
                last_cursor_pos: last,
            },
        );
        let collision = (moved.pos_x && hit.pos_x) || (moved.neg_x && hit.neg_x) || (moved.pos_y
            && hit.pos_y) || (moved.neg_y && hit.neg_y);
        DragMoveOutcome {
            offset: Vec2i { x: last.x - grab.x, y: last.y - grab.y },
            hit,
            moved,
            collision,
        }
    }

    /// A release while `Grabbed` writes the tile back into the front layer
    /// at its current logical cell and returns to `Idle`; a release while
    /// `Idle` is a no-op.
    pub fn release(&mut self, level: &mut Level)
        requires
            old(level)@.wf(),
            old(self).wf(old(level)@),
        ensures
            final(level)@.wf(),
            final(self).tile_move == Option::<TileMove>::None,
            match old(self).tile_move {
                Some(tm) => final(level)@ == (LevelModel {
                    front: old(level)@.front.update(
                        old(level)@.offset_of(tm.map_x as int, tm.map_y as int),
                        crate::tile::spec_tile_code(tm.tile),
                    ),
                    ..old(level)@
                }),
                None => final(level)@ == old(level)@,
            },
    {
        if self.tile_move.is_some() {
            let tm = self.tile_move.unwrap();
            level.set_front_tile(tm.map_x, tm.map_y, tm.tile);
            self.tile_move = None;
        }
    }
}

/// Law: dragging a grabbed tile by exactly one cell width along +x, with
/// the destination cell inside the grid, unoccupied on the front layer and
/// tracked on the back layer, commits the logical cell one step right,
/// leaves the sub-cell offset at exactly zero, and raises no hit or moved
/// flag besides the +x move — so no collision bump is reported.
pub proof fn lemma_drag_commit_right(m: LevelModel, tm: TileMove, np_x: int, np_y: int)
    requires
        m.wf(),
        spec_tm_ok(m, tm),
        np_x == tm.grab_cursor_pos.x + CELL_SIZE,
        np_y == tm.grab_cursor_pos.y,
        -COORD_LIMIT <= np_x <= COORD_LIMIT,
        (tm.map_x as int) + 1 < m.width,
        m.front_tile_at(tm.map_x as int + 1, tm.map_y as int) == Tile::EmptyPiece,
        m.back_tile_at(tm.map_x as int + 1, tm.map_y as int) != Tile::EmptyPiece,
    ensures
        ({
            let sf = spec_drag_substeps(m, np_x, np_y, spec_drag_init(tm), DRAG_SUB_STEPS as nat);
            &&& sf.map_x == tm.map_x + 1
            &&& sf.map_y == tm.map_y
            &&& sf.last_x == sf.grab_x
            &&& sf.last_y == sf.grab_y
            &&& sf.hit == spec_no_flags()
            &&& sf.moved == (DragFlags { pos_x: true, neg_x: false, pos_y: false, neg_y: false })
        }),
{
    let s0 = spec_drag_init(tm);
    let s1 = spec_drag_substep(m, np_x, np_y, s0);
    assert(s1 == (DragState {
        map_x: s0.map_x + 1,
        map_y: s0.map_y,
        grab_x: s0.grab_x + CELL_SIZE,
        grab_y: s0.grab_y,
        last_x: s0.grab_x + CELL_SIZE,
        last_y: s0.grab_y,
        hit: spec_no_flags(),
        moved: (DragFlags { pos_x: true, neg_x: false, pos_y: false, neg_y: false }),
    }));
    assert(spec_drag_substep(m, np_x, np_y, s1) == s1);
    lemma_drag_substeps_fixpoint(m, np_x, np_y, s1, (DRAG_SUB_STEPS - 1) as nat);
}

/// Law: the same one-cell drag along +x where the destination's back-layer
/// cell is empty (no track) leaves the logical cell where it was, resets
/// the sub-cell offset to zero, raises the +x hit flag, and moves nothing
/// — so no collision bump is reported either.
pub proof fn lemma_drag_blocked_right(m: LevelModel, tm: TileMove, np_x: int, np_y: int)
    requires
        m.wf(),
        spec_tm_ok(m, tm),
        np_x == tm.grab_cursor_pos.x + CELL_SIZE,
        np_y == tm.grab_cursor_pos.y,
        -COORD_LIMIT <= np_x <= COORD_LIMIT,
        (tm.map_x as int) + 1 < m.width,
        m.back_tile_at(tm.map_x as int + 1, tm.map_y as int) == Tile::EmptyPiece,
    ensures
        ({
            let sf = spec_drag_substeps(m, np_x, np_y, spec_drag_init(tm), DRAG_SUB_STEPS as nat);
            &&& sf.map_x == tm.map_x
            &&& sf.map_y == tm.map_y
            &&& sf.last_x == sf.grab_x
            &&& sf.last_y == sf.grab_y
            &&& sf.hit == (DragFlags { pos_x: true, neg_x: false, pos_y: false, neg_y: false })
            &&& sf.moved == spec_no_flags()
        }),
{
    let s0 = spec_drag_init(tm);
    let s1 = spec_drag_substep(m, np_x, np_y, s0);
    assert(s1 == (DragState {
        map_x: s0.map_x,
        map_y: s0.map_y,
        grab_x: s0.grab_x,
        grab_y: s0.grab_y,
        last_x: s0.grab_x,
        last_y: s0.grab_y,
        hit: (DragFlags { pos_x: true, neg_x: false, pos_y: false, neg_y: false }),
        moved: spec_no_flags(),
    }));
    assert(spec_drag_substep(m, np_x, np_y, s1) == s1);
    lemma_drag_substeps_fixpoint(m, np_x, np_y, s1, (DRAG_SUB_STEPS - 1) as nat);
}

} // verus!
