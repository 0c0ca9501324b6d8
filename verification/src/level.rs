use vstd::prelude::*;
use vstd::arithmetic::div_mod::lemma_fundamental_div_mod_converse;
use vstd::set::axiom_set_insert_len;
use crate::beam::{
    lemma_last_transition_match_in_range, lemma_lit_gems_bounded, lemma_positions_upto_in_grid,
    spec_beam_ctx, spec_beam_init, spec_beam_run, spec_beam_step, spec_draw,
    spec_last_transition_match, spec_lit_gems, spec_move, spec_pause, spec_positions,
    spec_positions_upto, BeamState, BEAM_PAUSE_MS,
};
use crate::tile::{
    beam_direction_to_vec, decode_tile, lemma_code_tile_round_trip, lemma_tile_code_round_trip,
    spec_code_valid, spec_is_a_gem, spec_is_movable, spec_is_ray_source, spec_source_direction,
    spec_tile_code, tile_of_code, BeamDirection, Tile,
};

verus! {

/// Per-cell visual effect state, owned by the grid alongside the tile
/// layers and carried between frames until replaced.
#[derive(Clone, Copy, Debug, PartialEq, Eq, Structural)]
pub enum TileEffect {
    /// No transform.
    NoEffect,
    /// The tile is not drawn at all.
    Hide,
    /// A decaying spring nudge started at `time_ms` (milliseconds since the
    /// page was entered), displacing by up to (`dx`,`dy`) logical units
    /// along the render axes.
    Punch { time_ms: u64, dx: i64, dy: i64 },
    /// A grow-and-fade-in started at `time_ms`, from `start_scale_pct`
    /// percent of the tile size, over `duration_ms`.
    SizedFadeIn { time_ms: u64, start_scale_pct: u32, duration_ms: u32 },
}

/// A cell where the beam's visible advance pauses (a mirror turn or a
/// teleport exit), stamped with the time the beam first entered it.
#[derive(Clone, Copy, Debug, PartialEq, Eq, Structural)]
pub struct RayTransition {
    pub x: u32,
    pub y: u32,
    pub time_entered_ms: u64,
}

/// Why a level buffer was rejected.
#[derive(Clone, Copy, Debug, PartialEq, Eq, Structural)]
pub enum LevelLoadError {
    /// The buffer ends before the header or the three layers do.
    Truncated,
    /// The header names a zero width or height.
    BadDimensions,
    /// A layer byte is not a code of any tile.
    InvalidTile,
}

/// The mathematical content of a level: its dimensions, the three byte
/// layers, the ray overlay, the effect layer and the carried pause records.
pub ghost struct LevelModel {
    pub width: int,
    pub height: int,
    pub front: Seq<u8>,
    pub back: Seq<u8>,
    pub solution: Seq<u8>,
    pub ray: Seq<u8>,
    pub effects: Seq<TileEffect>,
    pub transitions: Seq<RayTransition>,
}

/// A loaded level: fixed dimensions, three parallel byte layers in row-major
/// order (`back` structure, `front` gameplay, `solution` reference), a
/// transient `ray` overlay recomputed from scratch by every simulation call,
/// a per-cell effect layer, and the pause records carried from the previous
/// simulation call.
pub struct Level {
    width: u32,
    height: u32,
    front: Vec<u8>,
    effect: Vec<TileEffect>,
    back: Vec<u8>,
    solution: Vec<u8>,
    ray: Vec<u8>,
    ray_transitions: Vec<RayTransition>,
}

impl View for Level {
    type V = LevelModel;

    closed spec fn view(&self) -> LevelModel {
        LevelModel {
            width: self.width as int,
            height: self.height as int,
            front: self.front@,
            back: self.back@,
            solution: self.solution@,
            ray: self.ray@,
            effects: self.effect@,
            transitions: self.ray_transitions@,
        }
    }
}

impl LevelModel {
    pub open spec fn cell_count(self) -> int {
        self.width * self.height
    }

    /// Well-formedness: dimensions fit the one-byte header fields and are
    /// nonzero, every layer covers the grid exactly, and every stored byte
    /// is a code of some tile.
    pub open spec fn wf(self) -> bool {
        &&& 1 <= self.width <= 255
        &&& 1 <= self.height <= 255
        &&& self.front.len() == self.cell_count()
        &&& self.back.len() == self.cell_count()
        &&& self.solution.len() == self.cell_count()
        &&& self.ray.len() == self.cell_count()
        &&& self.effects.len() == self.cell_count()
        &&& forall|i: int| 0 <= i < self.cell_count() ==> spec_code_valid(#[trigger] self.front[i])
        &&& forall|i: int| 0 <= i < self.cell_count() ==> spec_code_valid(#[trigger] self.back[i])
        &&& forall|i: int|
            0 <= i < self.cell_count() ==> spec_code_valid(#[trigger] self.solution[i])
        &&& forall|i: int| 0 <= i < self.cell_count() ==> spec_code_valid(#[trigger] self.ray[i])
    }

    /// The flat row-major index of cell (`x`,`y`).
    pub open spec fn offset_of(self, x: int, y: int) -> int {
        y * self.width + x
    }

    pub open spec fn front_tile_at(self, x: int, y: int) -> Tile {
        tile_of_code(self.front[self.offset_of(x, y)])
    }

    pub open spec fn back_tile_at(self, x: int, y: int) -> Tile {
        tile_of_code(self.back[self.offset_of(x, y)])
    }

    pub open spec fn ray_tile_at(self, x: int, y: int) -> Tile {
        tile_of_code(self.ray[self.offset_of(x, y)])
    }
}

/// A cell's flat index lies inside the grid.
pub proof fn lemma_offset_in_grid(w: int, h: int, x: int, y: int)
    requires
        1 <= w <= 255,
        1 <= h <= 255,
        0 <= x < w,
        0 <= y < h,
    ensures
        0 <= y * w + x,
        y * w + x < h * w,
        y * w + x < w * h,
        h * w == w * h,
        h * w <= 65025,
{
    assert(h * w == w * h) by (nonlinear_arith);
    assert(0 <= y * w + x) by (nonlinear_arith)
        requires
            0 <= x,
            0 <= y,
            0 <= w,
    ;
    assert(y * w + x < (y + 1) * w) by (nonlinear_arith)
        requires
            0 <= x < w,
            0 <= y,
    ;
    assert((y + 1) * w <= h * w) by (nonlinear_arith)
        requires
            y + 1 <= h,
            0 <= w,
    ;
    assert(h * w <= 65025) by (nonlinear_arith)
        requires
            0 <= h <= 255,
            0 <= w <= 255,
    ;
}

/// What a level buffer must look like to load: the four header bytes are
/// present, the dimensions are nonzero, the three layers are complete, and
/// every layer byte is a code of some tile.
pub open spec fn spec_level_data_ok(data: Seq<u8>) -> bool {
    &&& data.len() >= 4
    &&& data[1] >= 1
    &&& data[2] >= 1
    &&& data.len() >= 4 + 3 * (data[1] as int) * (data[2] as int)
    &&& forall|i: int|
        4 <= i < 4 + 3 * (data[1] as int) * (data[2] as int) ==> spec_code_valid(
            #[trigger] data[i],
        )
}

/// Copies `data[start .. start + len]` into a fresh vector.
fn copy_range(data: &Vec<u8>, start: usize, len: usize) -> (out: Vec<u8>)
    requires
        start + len <= data@.len(),
    ensures
        out@ == data@.subrange(start as int, start as int + len as int),
{
    let total = data.len();
    let mut out: Vec<u8> = Vec::new();
    let mut i: usize = 0;
    while i < len
        invariant
            i <= len,
            start + len <= total,
            total == data@.len(),
            out@ == data@.subrange(start as int, start as int + i as int),
        decreases len - i,
    {
        out.push(data[start + i]);
        proof {
            assert(data@.subrange(start as int, start as int + i as int + 1) =~= data@.subrange(
                start as int,
                start as int + i as int,
            ).push(data@[start as int + i as int]));
        }
        i = i + 1;
    }
    out
}

impl Level {
    pub fn width(&self) -> (w: u32)
        ensures
            w as int == self@.width,
    {
        self.width
    }

    pub fn height(&self) -> (h: u32)
        ensures
            h as int == self@.height,
    {
        self.height
    }

    /// Builds a level from the bytes of a level file: one reserved byte, the
    /// width, the height, a has-solution flag, then the back, front and
    /// solution layers in row-major order. Rejects a buffer that is too
    /// short, names a zero dimension, or stores a byte that is no tile code
    /// — a level must load whole or not at all. The ray overlay starts
    /// empty, every cell effect starts at `NoEffect`, and no pause records
    /// are carried in.
    pub fn load_level(data: &Vec<u8>) -> (r: Result<Level, LevelLoadError>)
        ensures
            r is Ok <==> spec_level_data_ok(data@),
            r matches Ok(lvl) ==> {
                let w = data@[1] as int;
                let h = data@[2] as int;
                let n = w * h;
                &&& lvl@.wf()
                &&& lvl@.width == w
                &&& lvl@.height == h
                &&& lvl@.back == data@.subrange(4, 4 + n)
                &&& lvl@.front == data@.subrange(4 + n, 4 + 2 * n)
                &&& lvl@.solution == data@.subrange(4 + 2 * n, 4 + 3 * n)
                &&& lvl@.ray == Seq::<u8>::new(n as nat, |i: int| 0u8)
                &&& lvl@.effects == Seq::<TileEffect>::new(n as nat, |i: int| TileEffect::NoEffect)
                &&& lvl@.transitions == Seq::<RayTransition>::empty()
            },
            r matches Err(e) ==> match e {
                LevelLoadError::Truncated => data@.len() < 4 || (data@[1] >= 1 && data@[2] >= 1
                    && data@.len() < 4 + 3 * (data@[1] as int) * (data@[2] as int)),
                LevelLoadError::BadDimensions => data@.len() >= 4 && (data@[1] == 0 || data@[2]
                    == 0),
                LevelLoadError::InvalidTile => data@.len() >= 4 && data@[1] >= 1 && data@[2] >= 1
                    && data@.len() >= 4 + 3 * (data@[1] as int) * (data@[2] as int)
                    && !spec_level_data_ok(data@),
            },
    {
        if data.len() < 4 {
            return Err(LevelLoadError::Truncated);
        }
        let width = data[1];
        let height = data[2];
        if width == 0 || height == 0 {
            return Err(LevelLoadError::BadDimensions);
        }
        proof {
            assert((width as int) * (height as int) <= 65025) by (nonlinear_arith)
                requires
                    width <= 255,
                    height <= 255,
            ;
        }
        let layer_size: usize = (width as usize) * (height as usize);
        let ghost w = data@[1] as int;
        let ghost h = data@[2] as int;
        proof {
            assert(layer_size == w * h);
            assert(3 * layer_size == 3 * w * h) by (nonlinear_arith)
                requires
                    layer_size == w * h,
            ;
        }
        if data.len() - 4 < 3 * layer_size {
            return Err(LevelLoadError::Truncated);
        }
        // Every layer byte must be a known tile code.
        let mut i: usize = 0;
        while i < 3 * layer_size
            invariant
                i <= 3 * layer_size,
                layer_size == data@[1] * data@[2],
                3 * layer_size == 3 * (data@[1] as int) * (data@[2] as int),
                layer_size <= 65025,
                data@.len() >= 4 + 3 * layer_size,
                forall|j: int| 4 <= j < 4 + i ==> spec_code_valid(#[trigger] data@[j]),
            decreases 3 * layer_size - i,
        {
            if Tile::from_code(data[4 + i]).is_none() {
                proof {
                    assert(!spec_code_valid(data@[4 + i as int]));
                    assert(!spec_level_data_ok(data@));
                }
                return Err(LevelLoadError::InvalidTile);
            }
            i = i + 1;
        }
        let back = copy_range(data, 4, layer_size);
        let front = copy_range(data, 4 + layer_size, layer_size);
        let solution = copy_range(data, 4 + 2 * layer_size, layer_size);
        let ray: Vec<u8> = vec![0u8; layer_size];
        let effect: Vec<TileEffect> = vec![TileEffect::NoEffect; layer_size];
        let lvl = Level {
            width: width as u32,
            height: height as u32,
            front,
            effect,
            back,
            solution,
            ray,
            ray_transitions: Vec::new(),
        };
        proof {
            let n = (data@[1] as int) * (data@[2] as int);
            assert(lvl@.ray =~= Seq::<u8>::new(n as nat, |i: int| 0u8));
            assert(lvl@.effects =~= Seq::<TileEffect>::new(
                n as nat,
                |i: int| TileEffect::NoEffect,
            ));
            assert(lvl@.transitions =~= Seq::<RayTransition>::empty());
        }
        Ok(lvl)
    }

    /// The flat index of (`x`,`y`), for indexing the layer vectors.
    fn offset(&self, x: u32, y: u32) -> (o: usize)
        requires
            self@.wf(),
            (x as int) < self@.width,
            (y as int) < self@.height,
        ensures
            o == self@.offset_of(x as int, y as int),
            o < self@.cell_count(),
    {
        proof {
            lemma_offset_in_grid(self@.width, self@.height, x as int, y as int);
        }
        (y * self.width + x) as usize
    }

    pub fn back_tile_idx(&self, x: u32, y: u32) -> (c: u8)
        requires
            self@.wf(),
            (x as int) < self@.width,
            (y as int) < self@.height,
        ensures
            c == self@.back[self@.offset_of(x as int, y as int)],
    {
        self.back[self.offset(x, y)]
    }

    pub fn front_tile_idx(&self, x: u32, y: u32) -> (c: u8)
        requires
            self@.wf(),
            (x as int) < self@.width,
            (y as int) < self@.height,
        ensures
            c == self@.front[self@.offset_of(x as int, y as int)],
    {
        self.front[self.offset(x, y)]
    }

    pub fn ray_tile_idx(&self, x: u32, y: u32) -> (c: u8)
        requires
            self@.wf(),
            (x as int) < self@.width,
            (y as int) < self@.height,
        ensures
            c == self@.ray[self@.offset_of(x as int, y as int)],
    {
        self.ray[self.offset(x, y)]
    }

    pub fn front_tile(&self, x: u32, y: u32) -> (t: Tile)
        requires
            self@.wf(),
            (x as int) < self@.width,
            (y as int) < self@.height,
        ensures
            t == self@.front_tile_at(x as int, y as int),
    {
        decode_tile(self.front[self.offset(x, y)])
    }

    pub fn back_tile(&self, x: u32, y: u32) -> (t: Tile)
        requires
            self@.wf(),
            (x as int) < self@.width,
            (y as int) < self@.height,
        ensures
            t == self@.back_tile_at(x as int, y as int),
    {
        decode_tile(self.back[self.offset(x, y)])
    }

    pub fn ray_tile(&self, x: u32, y: u32) -> (t: Tile)
        requires
            self@.wf(),
            (x as int) < self@.width,
            (y as int) < self@.height,
        ensures
            t == self@.ray_tile_at(x as int, y as int),
    {
        decode_tile(self.ray[self.offset(x, y)])
    }

    pub fn effect(&self, x: u32, y: u32) -> (e: TileEffect)
        requires
            self@.wf(),
            (x as int) < self@.width,
            (y as int) < self@.height,
        ensures
            e == self@.effects[self@.offset_of(x as int, y as int)],
    {
        self.effect[self.offset(x, y)]
    }

    pub fn set_effect(&mut self, x: u32, y: u32, tile_effect: TileEffect)
        requires
            old(self)@.wf(),
            (x as int) < old(self)@.width,
            (y as int) < old(self)@.height,
        ensures
            final(self)@.wf(),
            final(self)@ == (LevelModel {
                effects: old(self)@.effects.update(
                    old(self)@.offset_of(x as int, y as int),
                    tile_effect,
                ),
                ..old(self)@
            }),
    {
        let o = self.offset(x, y);
        self.effect[o] = tile_effect;
    }

    pub fn set_front_tile(&mut self, x: u32, y: u32, tile: Tile)
        requires
            old(self)@.wf(),
            (x as int) < old(self)@.width,
            (y as int) < old(self)@.height,
        ensures
            final(self)@.wf(),
            final(self)@ == (LevelModel {
                front: old(self)@.front.update(
                    old(self)@.offset_of(x as int, y as int),
                    spec_tile_code(tile),
                ),
                ..old(self)@
            }),
    {
        let o = self.offset(x, y);
        self.front[o] = tile.code();
        proof {
            lemma_tile_code_round_trip(tile);
        }
    }

    pub fn set_ray_tile(&mut self, x: u32, y: u32, tile: Tile)
        requires
            old(self)@.wf(),
            (x as int) < old(self)@.width,
            (y as int) < old(self)@.height,
        ensures
            final(self)@.wf(),
            final(self)@ == (LevelModel {
                ray: old(self)@.ray.update(
                    old(self)@.offset_of(x as int, y as int),
                    spec_tile_code(tile),
                ),
                ..old(self)@
            }),
    {
        let o = self.offset(x, y);
        self.ray[o] = tile.code();
        proof {
            lemma_tile_code_round_trip(tile);
        }
    }
}

/// Law: loading a level buffer reproduces it byte for byte — at every cell
/// of a loaded level, encoding what the front and back accessors decode
/// gives back exactly the byte the buffer held for that layer.
pub proof fn lemma_load_round_trip(data: Seq<u8>, m: LevelModel, x: int, y: int)
    requires
        spec_level_data_ok(data),
        m.width == data[1] as int,
        m.height == data[2] as int,
        m.back == data.subrange(4, 4 + m.width * m.height),
        m.front == data.subrange(4 + m.width * m.height, 4 + 2 * (m.width * m.height)),
        0 <= x < m.width,
        0 <= y < m.height,
    ensures
        spec_tile_code(m.front_tile_at(x, y)) == data[4 + m.width * m.height + m.offset_of(x, y)],
        spec_tile_code(m.back_tile_at(x, y)) == data[4 + m.offset_of(x, y)],
{
    let n = m.width * m.height;
    lemma_offset_in_grid(m.width, m.height, x, y);
    let o = m.offset_of(x, y);
    assert(3 * (data[1] as int) * (data[2] as int) == 3 * n) by (nonlinear_arith)
        requires
            n == (data[1] as int) * (data[2] as int),
    ;
    assert(m.front[o] == data[4 + n + o]);
    assert(m.back[o] == data[4 + o]);
    lemma_code_tile_round_trip(data[4 + n + o]);
    lemma_code_tile_round_trip(data[4 + o]);
}

/// Gems among the first `n` cells of a front layer.
pub open spec fn spec_gem_count_prefix(front: Seq<u8>, n: int) -> int
    decreases n,
{
    if n <= 0 {
        0
    } else {
        spec_gem_count_prefix(front, n - 1) + if spec_is_a_gem(tile_of_code(front[n - 1])) {
            1int
        } else {
            0int
        }
    }
}

/// The number of gem tiles in a front layer.
pub open spec fn spec_count_gems(front: Seq<u8>) -> int {
    spec_gem_count_prefix(front, front.len() as int)
}

/// A prefix holds between zero and `n` gems.
pub proof fn lemma_gem_count_prefix_bounds(front: Seq<u8>, n: int)
    ensures
        0 <= spec_gem_count_prefix(front, n),
        spec_gem_count_prefix(front, n) <= if n >= 0 { n } else { 0 },
    decreases n,
{
    if n > 0 {
        lemma_gem_count_prefix_bounds(front, n - 1);
    }
}

impl Level {
    /// Counts the gem tiles on the front layer, scanning row-major.
    pub fn count_jewels(&self) -> (gems: u32)
        requires
            self@.wf(),
        ensures
            gems == spec_count_gems(self@.front),
    {
        let mut gems: u32 = 0;
        let mut y: u32 = 0;
        while y < self.height
            invariant
                self@.wf(),
                y <= self@.height,
                gems == spec_gem_count_prefix(self@.front, y * self@.width),
                gems <= y * self@.width,
                y * self@.width <= self@.cell_count(),
            decreases self@.height - y,
        {
            let mut x: u32 = 0;
            proof {
                lemma_offset_in_grid(self@.width, self@.height, 0, y as int);
            }
            while x < self.width
                invariant
                    self@.wf(),
                    (y as int) < self@.height,
                    x <= self@.width,
                    gems == spec_gem_count_prefix(self@.front, y * self@.width + x),
                    gems <= y * self@.width + x,
                    y * self@.width + x <= self@.cell_count(),
                decreases self@.width - x,
            {
                proof {
                    lemma_offset_in_grid(self@.width, self@.height, x as int, y as int);
                }
                if self.front_tile(x, y).is_a_gem() {
                    gems = gems + 1;
                }
                x = x + 1;
            }
            y = y + 1;
            proof {
                assert(y * self@.width == (y - 1) * self@.width + self@.width) by (nonlinear_arith);
            }
        }
        proof {
            assert(self@.height * self@.width == self@.cell_count()) by (nonlinear_arith);
        }
        gems
    }

    /// Applies `tile_effect` to every cell whose front tile is movable,
    /// leaving every other cell's effect alone.
    pub fn tile_movable_effect(&mut self, tile_effect: TileEffect)
        requires
            old(self)@.wf(),
        ensures
            final(self)@.wf(),
            final(self)@.effects.len() == old(self)@.effects.len(),
            forall|i: int|
                0 <= i < old(self)@.cell_count() ==> #[trigger] final(self)@.effects[i] == (
                if spec_is_movable(tile_of_code(old(self)@.front[i])) {
                    tile_effect
                } else {
                    old(self)@.effects[i]
                }),
            final(self)@ == (LevelModel { effects: final(self)@.effects, ..old(self)@ }),
    {
        let ghost orig = self@;
        let mut y: u32 = 0;
        while y < self.height
            invariant
                self@.wf(),
                y <= self@.height,
                self@ == (LevelModel { effects: self@.effects, ..orig }),
                self@.effects.len() == orig.effects.len(),
                y * orig.width <= orig.cell_count(),
                forall|i: int|
                    0 <= i < y * orig.width ==> #[trigger] self@.effects[i] == (
                    if spec_is_movable(tile_of_code(orig.front[i])) {
                        tile_effect
                    } else {
                        orig.effects[i]
                    }),
                forall|i: int|
                    y * orig.width <= i < orig.cell_count() ==> #[trigger] self@.effects[i]
                        == orig.effects[i],
            decreases self@.height - y,
        {
            let mut x: u32 = 0;
            proof {
                lemma_offset_in_grid(self@.width, self@.height, 0, y as int);
            }
            while x < self.width
                invariant
                    self@.wf(),
                    (y as int) < self@.height,
                    x <= self@.width,
                    self@ == (LevelModel { effects: self@.effects, ..orig }),
                    self@.effects.len() == orig.effects.len(),
                    y * orig.width + x <= orig.cell_count(),
                    forall|i: int|
                        0 <= i < y * orig.width + x ==> #[trigger] self@.effects[i] == (
                        if spec_is_movable(tile_of_code(orig.front[i])) {
                            tile_effect
                        } else {
                            orig.effects[i]
                        }),
                    forall|i: int|
                        y * orig.width + x <= i < orig.cell_count() ==> #[trigger] self@.effects[i]
                            == orig.effects[i],
                decreases self@.width - x,
            {
                proof {
                    lemma_offset_in_grid(self@.width, self@.height, x as int, y as int);
                }
                if self.front_tile(x, y).is_movable() {
                    self.set_effect(x, y, tile_effect);
                }
                x = x + 1;
            }
            y = y + 1;
            proof {
                assert(y * orig.width == (y - 1) * orig.width + orig.width) by (nonlinear_arith);
            }
        }
        proof {
            assert(self@.height * self@.width == self@.cell_count()) by (nonlinear_arith);
        }
    }
}

/// The first index at or after `i` whose front byte is a ray source, or -1.
pub open spec fn spec_find_source_from(front: Seq<u8>, i: int) -> int
    decreases front.len() - i,
{
    if i < 0 || i >= front.len() {
        -1
    } else if spec_is_ray_source(tile_of_code(front[i])) {
        i
    } else {
        spec_find_source_from(front, i + 1)
    }
}

/// Scanning may skip over a stretch with no source.
pub proof fn lemma_find_source_skip(front: Seq<u8>, k: int, i: int)
    requires
        0 <= k <= i <= front.len(),
        forall|j: int| k <= j < i ==> !spec_is_ray_source(tile_of_code(#[trigger] front[j])),
    ensures
        spec_find_source_from(front, k) == spec_find_source_from(front, i),
    decreases i - k,
{
    if k < i {
        lemma_find_source_skip(front, k + 1, i);
    }
}

impl LevelModel {
    /// The beam's start: the first ray-source tile in row-major scan order
    /// with its emission direction, or the degenerate fallback (0,0) facing
    /// `Up` when the level has no source.
    pub open spec fn spec_find_start(self) -> (int, int, BeamDirection) {
        let i = spec_find_source_from(self.front, 0);
        if i >= 0 {
            (
                i % self.width,
                i / self.width,
                spec_source_direction(tile_of_code(self.front[i])),
            )
        } else {
            (0, 0, BeamDirection::Up)
        }
    }
}

impl Level {
    /// Finds the beam source by scanning the front layer row-major.
    pub(crate) fn find_start(&self) -> (r: (u32, u32, BeamDirection))
        requires
            self@.wf(),
        ensures
            (r.0 as int, r.1 as int, r.2) == self@.spec_find_start(),
            (r.0 as int) < self@.width,
            (r.1 as int) < self@.height,
    {
        let mut y: u32 = 0;
        while y < self.height
            invariant
                self@.wf(),
                y <= self@.height,
                y * self@.width <= self@.cell_count(),
                forall|j: int|
                    0 <= j < y * self@.width ==> !spec_is_ray_source(
                        tile_of_code(#[trigger] self@.front[j]),
                    ),
            decreases self@.height - y,
        {
            let mut x: u32 = 0;
            proof {
                lemma_offset_in_grid(self@.width, self@.height, 0, y as int);
            }
            while x < self.width
                invariant
                    self@.wf(),
                    (y as int) < self@.height,
                    x <= self@.width,
                    y * self@.width + x <= self@.cell_count(),
                    forall|j: int|
                        0 <= j < y * self@.width + x ==> !spec_is_ray_source(
                            tile_of_code(#[trigger] self@.front[j]),
                        ),
                decreases self@.width - x,
            {
                proof {
                    lemma_offset_in_grid(self@.width, self@.height, x as int, y as int);
                }
                let tile = self.front_tile(x, y);
                if tile.is_ray_source() {
                    proof {
                        let n = y * self@.width + x;
                        lemma_find_source_skip(self@.front, 0, n);
                        lemma_fundamental_div_mod_converse(n, self@.width, y as int, x as int);
                    }
                    let direction = tile.source_direction();
                    return (x, y, direction);
                }
                x = x + 1;
            }
            y = y + 1;
            proof {
                assert(y * self@.width == (y - 1) * self@.width + self@.width) by (nonlinear_arith);
            }
        }
        proof {
            assert(self@.height * self@.width == self@.cell_count()) by (nonlinear_arith);
            lemma_find_source_skip(self@.front, 0, self@.cell_count());
        }
        (0, 0, BeamDirection::Up)
    }
}

/// The teleport cells of each symbol, in row-major scan order.
pub(crate) struct Teleports {
    pub t1: Vec<(u32, u32)>,
    pub t2: Vec<(u32, u32)>,
}

impl Level {
    /// Scans the front layer for teleport tiles, grouping them by symbol.
    pub(crate) fn find_teleports(&self) -> (tp: Teleports)
        requires
            self@.wf(),
        ensures
            tp.t1@ == spec_positions(self@.front, self@.width, Tile::RayTeleport1),
            tp.t2@ == spec_positions(self@.front, self@.width, Tile::RayTeleport2),
    {
        let mut t1: Vec<(u32, u32)> = Vec::new();
        let mut t2: Vec<(u32, u32)> = Vec::new();
        let mut y: u32 = 0;
        while y < self.height
            invariant
                self@.wf(),
                y <= self@.height,
                y * self@.width <= self@.cell_count(),
                t1@ == spec_positions_upto(
                    self@.front,
                    self@.width,
                    Tile::RayTeleport1,
                    y * self@.width,
                ),
                t2@ == spec_positions_upto(
                    self@.front,
                    self@.width,
                    Tile::RayTeleport2,
                    y * self@.width,
                ),
            decreases self@.height - y,
        {
            let mut x: u32 = 0;
            proof {
                lemma_offset_in_grid(self@.width, self@.height, 0, y as int);
            }
            while x < self.width
                invariant
                    self@.wf(),
                    (y as int) < self@.height,
                    x <= self@.width,
                    y * self@.width + x <= self@.cell_count(),
                    t1@ == spec_positions_upto(
                        self@.front,
                        self@.width,
                        Tile::RayTeleport1,
                        y * self@.width + x,
                    ),
                    t2@ == spec_positions_upto(
                        self@.front,
                        self@.width,
                        Tile::RayTeleport2,
                        y * self@.width + x,
                    ),
                decreases self@.width - x,
            {
                proof {
                    lemma_offset_in_grid(self@.width, self@.height, x as int, y as int);
                    lemma_fundamental_div_mod_converse(
                        y * self@.width + x,
                        self@.width,
                        y as int,
                        x as int,
                    );
                }
                let tile = self.front_tile(x, y);
                if tile.is_teleport() {
                    if tile == Tile::RayTeleport1 {
                        t1.push((x, y));
                    } else {
                        t2.push((x, y));
                    }
                }
                x = x + 1;
            }
            y = y + 1;
            proof {
                assert(y * self@.width == (y - 1) * self@.width + self@.width) by (nonlinear_arith);
            }
        }
        proof {
            assert(self@.height * self@.width == self@.cell_count()) by (nonlinear_arith);
        }
        Teleports { t1, t2 }
    }

    /// Advances the beam one cell in `direction`, wrapping at the grid
    /// edges.
    pub(crate) fn move_ray(&self, x: &mut u32, y: &mut u32, direction: &BeamDirection)
        requires
            self@.wf(),
            (*old(x) as int) < self@.width,
            (*old(y) as int) < self@.height,
        ensures
            ({
                let (nx, ny) = spec_move(
                    self@.width,
                    self@.height,
                    *old(x) as int,
                    *old(y) as int,
                    *direction,
                );
                *final(x) as int == nx && *final(y) as int == ny
            }),
            (*final(x) as int) < self@.width,
            (*final(y) as int) < self@.height,
    {
        match direction {
            BeamDirection::Up => {
                if *y == 0 {
                    *y = self.height;
                }
                *y = *y - 1;
            },
            BeamDirection::Down => {
                *y = *y + 1;
                if *y == self.height {
                    *y = 0;
                }
            },
            BeamDirection::Left => {
                if *x == 0 {
                    *x = self.width;
                }
                *x = *x - 1;
            },
            BeamDirection::Right => {
                *x = *x + 1;
                if *x == self.width {
                    *x = 0;
                }
            },
        }
    }

    /// Whether the ray overlay is empty at (`x`,`y`).
    fn ray_is_empty(&self, x: u32, y: u32) -> (b: bool)
        requires
            self@.wf(),
            (x as int) < self@.width,
            (y as int) < self@.height,
        ensures
            b == (self@.ray[self@.offset_of(x as int, y as int)] == 0),
    {
        let t = self.ray_tile(x, y);
        proof {
            lemma_offset_in_grid(self@.width, self@.height, x as int, y as int);
            lemma_code_tile_round_trip(self@.ray[self@.offset_of(x as int, y as int)]);
        }
        t == Tile::EmptyPiece
    }

    /// Draws one ray segment at (`x`,`y`): a cross where one was already
    /// drawn this call, else a segment along the travel axis.
    fn draw_ray(&mut self, x: u32, y: u32, direction: BeamDirection)
        requires
            old(self)@.wf(),
            (x as int) < old(self)@.width,
            (y as int) < old(self)@.height,
        ensures
            final(self)@.wf(),
            final(self)@ == (LevelModel {
                ray: spec_draw(
                    old(self)@.ray,
                    old(self)@.offset_of(x as int, y as int),
                    direction,
                ),
                ..old(self)@
            }),
    {
        if !self.ray_is_empty(x, y) {
            self.set_ray_tile(x, y, Tile::RayCross);
        } else {
            match direction {
                BeamDirection::Up | BeamDirection::Down => {
                    self.set_ray_tile(x, y, Tile::RayVertical)
                },
                BeamDirection::Left | BeamDirection::Right => {
                    self.set_ray_tile(x, y, Tile::RayHorizontal)
                },
            }
        }
    }
}

impl Level {
    /// One beam-simulation call: clears the ray overlay, casts the beam
    /// from the source (or the degenerate origin fallback) for at most
    /// `max_length` cells, and returns how many gems the beam crossed this
    /// call. The resulting overlay, cell effects and retained pause records
    /// are exactly those of the beam interpreter `spec_beam_run` started
    /// from this level's state; nothing else of the level changes. The
    /// count is per-call, never cumulative, and never exceeds the number of
    /// gems on the front layer.
    pub fn update_ray(&mut self, max_length: usize, time_ms: u64) -> (jewel_count: u32)
        requires
            old(self)@.wf(),
        ensures
            final(self)@.wf(),
            ({
                let fin = spec_beam_run(
                    spec_beam_ctx(old(self)@, time_ms),
                    spec_beam_init(old(self)@),
                    max_length as nat,
                );
                &&& final(self)@ == (LevelModel {
                    ray: fin.ray,
                    effects: fin.effects,
                    transitions: fin.new_trans,
                    ..old(self)@
                })
                &&& jewel_count == fin.jewels
            }),
            jewel_count <= spec_count_gems(old(self)@.front),
            max_length == 0 ==> jewel_count == 0 && final(self)@.ray == Seq::new(
                old(self)@.cell_count() as nat,
                |i: int| 0u8,
            ) && final(self)@.transitions == Seq::<RayTransition>::empty(),
    {
        let ghost orig = self@;
        let ghost ctx = spec_beam_ctx(orig, time_ms);
        let cells = self.ray.len();
        let last_ray = copy_range(&self.ray, 0, cells);
        proof {
            assert(last_ray@ =~= orig.ray);
        }
        // A full recompute: the overlay is never partially stale.
        let mut idx: usize = 0;
        while idx < cells
            invariant
                idx <= cells,
                cells == orig.cell_count(),
                self@ == (LevelModel { ray: self@.ray, ..orig }),
                self@.ray.len() == cells,
                forall|i: int| 0 <= i < idx ==> self@.ray[i] == 0,
                forall|i: int| idx <= i < cells ==> self@.ray[i] == orig.ray[i],
            decreases cells - idx,
        {
            self.ray[idx] = 0;
            idx = idx + 1;
        }
        proof {
            assert(self@.ray =~= Seq::new(orig.cell_count() as nat, |i: int| 0u8));
            assert(self@.wf());
        }
        let start = self.find_start();
        let mut beam_x = start.0;
        let mut beam_y = start.1;
        let mut direction = start.2;
        let mut jewel_count: u32 = 0;
        let teleports = self.find_teleports();
        let mut new_transitions: Vec<RayTransition> = Vec::new();
        // Step out of the source cell: the source itself acts as a blocker.
        self.move_ray(&mut beam_x, &mut beam_y, &direction);
        let ghost init = spec_beam_init(orig);
        let ghost total = spec_beam_run(ctx, init, max_length as nat);
        proof {
            assert(orig.spec_find_start() == self@.spec_find_start());
            let cur0 = BeamState {
                x: beam_x as int,
                y: beam_y as int,
                dir: direction,
                ray: self@.ray,
                effects: self@.effects,
                jewels: 0,
                new_trans: Seq::empty(),
                stopped: false,
            };
            assert(cur0 == init);
        }
        let mut count: usize = 0;
        while count < max_length
            invariant_except_break
                orig.wf(),
                self@.wf(),
                self@ == (LevelModel { ray: self@.ray, effects: self@.effects, ..orig }),
                count <= max_length,
                (beam_x as int) < orig.width,
                (beam_y as int) < orig.height,
                teleports.t1@ == spec_positions(orig.front, orig.width, Tile::RayTeleport1),
                teleports.t2@ == spec_positions(orig.front, orig.width, Tile::RayTeleport2),
                last_ray@ == orig.ray,
                cells == orig.cell_count(),
                ctx == spec_beam_ctx(orig, time_ms),
                total == spec_beam_run(ctx, init, max_length as nat),
                spec_beam_run(
                    ctx,
                    BeamState {
                        x: beam_x as int,
                        y: beam_y as int,
                        dir: direction,
                        ray: self@.ray,
                        effects: self@.effects,
                        jewels: jewel_count as int,
                        new_trans: new_transitions@,
                        stopped: false,
                    },
                    (max_length - count) as nat,
                ) == total,
                jewel_count as int <= spec_lit_gems(orig.front, self@.ray).len(),
            ensures
                self@.wf(),
                self@ == (LevelModel { ray: self@.ray, effects: self@.effects, ..orig }),
                total.ray == self@.ray,
                total.effects == self@.effects,
                total.jewels == jewel_count as int,
                total.new_trans == new_transitions@,
                jewel_count as int <= spec_lit_gems(orig.front, self@.ray).len(),
            decreases max_length - count,
        {
            let ghost cur = BeamState {
                x: beam_x as int,
                y: beam_y as int,
                dir: direction,
                ray: self@.ray,
                effects: self@.effects,
                jewels: jewel_count as int,
                new_trans: new_transitions@,
                stopped: false,
            };
            let ghost fuel = (max_length - count) as nat;
            let ghost snext = spec_beam_step(ctx, cur);
            proof {
                assert(spec_beam_run(ctx, cur, fuel) == spec_beam_run(
                    ctx,
                    snext,
                    (fuel - 1) as nat,
                ));
                lemma_offset_in_grid(orig.width, orig.height, beam_x as int, beam_y as int);
            }
            let ghost o = orig.offset_of(beam_x as int, beam_y as int);
            let tile = self.front_tile(beam_x, beam_y);
            if tile.is_ray_blocker(direction) {
                proof {
                    assert(snext == (BeamState { stopped: true, ..cur }));
                    assert(spec_beam_run(ctx, snext, (fuel - 1) as nat) == snext);
                }
                break;
            } else if tile.is_a_gem() {
                // A gem counts once per call: only when no segment has been
                // drawn on it yet this call.
                let counted = self.ray_is_empty(beam_x, beam_y);
                if counted {
                    proof {
                        lemma_offset_in_grid(orig.width, orig.height, 0, 0);
                        lemma_lit_gems_bounded(orig.front, self@.ray);
                        lemma_gem_count_prefix_bounds(orig.front, orig.front.len() as int);
                    }
                    jewel_count = jewel_count + 1;
                    let off = self.offset(beam_x, beam_y);
                    if last_ray[off] == 0 {
                        // Freshly reached compared to the previous frame:
                        // nudge the gem along the travel direction.
                        let v = beam_direction_to_vec(&direction);
                        self.set_effect(
                            beam_x,
                            beam_y,
                            TileEffect::Punch { time_ms, dx: v.x * 40, dy: v.y * 40 },
                        );
                    }
                }
                let ghost ray_before = self@.ray;
                let ghost lit_before = spec_lit_gems(orig.front, ray_before);
                self.draw_ray(beam_x, beam_y, direction);
                self.move_ray(&mut beam_x, &mut beam_y, &direction);
                proof {
                    let lit_after = spec_lit_gems(orig.front, self@.ray);
                    assert(self@.ray[o] != 0);
                    if counted {
                        assert(!lit_before.contains(o));
                        assert(lit_after =~= lit_before.insert(o));
                        lemma_lit_gems_bounded(orig.front, ray_before);
                        axiom_set_insert_len(lit_before, o);
                    } else {
                        assert(lit_after =~= lit_before);
                    }
                    let cur2 = BeamState {
                        x: beam_x as int,
                        y: beam_y as int,
                        dir: direction,
                        ray: self@.ray,
                        effects: self@.effects,
                        jewels: jewel_count as int,
                        new_trans: new_transitions@,
                        stopped: false,
                    };
                    assert(cur2 == snext);
                }
            } else if tile.is_ray_source() {
                // A source reached mid-path (not the emission point) stops
                // the beam without drawing.
                proof {
                    assert(snext == (BeamState { stopped: true, ..cur }));
                    assert(spec_beam_run(ctx, snext, (fuel - 1) as nat) == snext);
                }
                break;
            } else if tile.is_mirror() {
                match tile.mirror_reflect(direction) {
                    None => {
                        proof {
                            assert(snext == (BeamState { stopped: true, ..cur }));
                            assert(spec_beam_run(ctx, snext, (fuel - 1) as nat) == snext);
                        }
                        break;
                    },
                    Some(d2) => {
                        direction = d2;
                        let stop = pause_at(
                            &self.ray_transitions,
                            &mut new_transitions,
                            beam_x,
                            beam_y,
                            time_ms,
                        );
                        if stop {
                            proof {
                                assert(snext == (BeamState {
                                    dir: d2,
                                    new_trans: new_transitions@,
                                    stopped: true,
                                    ..cur
                                }));
                                assert(spec_beam_run(ctx, snext, (fuel - 1) as nat) == snext);
                            }
                            break;
                        }
                        self.move_ray(&mut beam_x, &mut beam_y, &direction);
                        proof {
                            let cur2 = BeamState {
                                x: beam_x as int,
                                y: beam_y as int,
                                dir: direction,
                                ray: self@.ray,
                                effects: self@.effects,
                                jewels: jewel_count as int,
                                new_trans: new_transitions@,
                                stopped: false,
                            };
                            assert(cur2 == snext);
                        }
                    },
                }
            } else if tile.is_teleport() {
                let usable = if tile == Tile::RayTeleport1 {
                    teleports.t1.len() == 2
                } else {
                    teleports.t2.len() == 2
                };
                if usable {
                    proof {
                        lemma_positions_upto_in_grid(
                            orig.front,
                            orig.width,
                            orig.height,
                            tile,
                            orig.front.len() as int,
                        );
                    }
                    let (p0, p1) = if tile == Tile::RayTeleport1 {
                        (teleports.t1[0], teleports.t1[1])
                    } else {
                        (teleports.t2[0], teleports.t2[1])
                    };
                    // Jump to the paired cell, keeping the direction.
                    if beam_x == p0.0 && beam_y == p0.1 {
                        beam_x = p1.0;
                        beam_y = p1.1;
                    } else {
                        beam_x = p0.0;
                        beam_y = p0.1;
                    }
                    let stop = pause_at(
                        &self.ray_transitions,
                        &mut new_transitions,
                        beam_x,
                        beam_y,
                        time_ms,
                    );
                    if stop {
                        proof {
                            assert(snext == (BeamState {
                                x: beam_x as int,
                                y: beam_y as int,
                                new_trans: new_transitions@,
                                stopped: true,
                                ..cur
                            }));
                            assert(spec_beam_run(ctx, snext, (fuel - 1) as nat) == snext);
                        }
                        break;
                    }
                    self.move_ray(&mut beam_x, &mut beam_y, &direction);
                    proof {
                        let cur2 = BeamState {
                            x: beam_x as int,
                            y: beam_y as int,
                            dir: direction,
                            ray: self@.ray,
                            effects: self@.effects,
                            jewels: jewel_count as int,
                            new_trans: new_transitions@,
                            stopped: false,
                        };
                        assert(cur2 == snext);
                    }
                } else {
                    // A symbol without exactly two occurrences has no pair;
                    // the cell behaves as plain floor.
                    let ghost lit_before = spec_lit_gems(orig.front, self@.ray);
                    self.draw_ray(beam_x, beam_y, direction);
                    self.move_ray(&mut beam_x, &mut beam_y, &direction);
                    proof {
                        assert(spec_lit_gems(orig.front, self@.ray) =~= lit_before);
                        let cur2 = BeamState {
                            x: beam_x as int,
                            y: beam_y as int,
                            dir: direction,
                            ray: self@.ray,
                            effects: self@.effects,
                            jewels: jewel_count as int,
                            new_trans: new_transitions@,
                            stopped: false,
                        };
                        assert(cur2 == snext);
                    }
                }
            } else {
                // Empty or decorative: the beam passes straight through.
                let ghost lit_before = spec_lit_gems(orig.front, self@.ray);
                self.draw_ray(beam_x, beam_y, direction);
                self.move_ray(&mut beam_x, &mut beam_y, &direction);
                proof {
                    assert(spec_lit_gems(orig.front, self@.ray) =~= lit_before);
                    let cur2 = BeamState {
                        x: beam_x as int,
                        y: beam_y as int,
                        dir: direction,
                        ray: self@.ray,
                        effects: self@.effects,
                        jewels: jewel_count as int,
                        new_trans: new_transitions@,
                        stopped: false,
                    };
                    assert(cur2 == snext);
                }
            }
            count = count + 1;
        }
        // Only the pause records touched this call are retained.
        self.ray_transitions = new_transitions;
        proof {
            lemma_lit_gems_bounded(orig.front, self@.ray);
            if max_length == 0 {
                assert(total == init);
            }
        }
        jewel_count
    }
}

/// The last pause record at (`x`,`y`) in `trans`, scanning forward so a
/// later record shadows an earlier one.
fn find_last_transition(trans: &Vec<RayTransition>, x: u32, y: u32) -> (r: Option<usize>)
    ensures
        match r {
            Some(j) => j == spec_last_transition_match(trans@, x as int, y as int),
            None => spec_last_transition_match(trans@, x as int, y as int) == -1,
        },
{
    let mut result: Option<usize> = None;
    let mut k: usize = 0;
    let n = trans.len();
    while k < n
        invariant
            k <= n,
            n == trans@.len(),
            match result {
                Some(j) => j == spec_last_transition_match(
                    trans@.take(k as int),
                    x as int,
                    y as int,
                ),
                None => spec_last_transition_match(trans@.take(k as int), x as int, y as int)
                    == -1,
            },
        decreases n - k,
    {
        proof {
            assert(trans@.take(k as int + 1).drop_last() =~= trans@.take(k as int));
            assert(trans@.take(k as int + 1).last() == trans@[k as int]);
        }
        let tr = trans[k];
        if tr.x == x && tr.y == y {
            result = Some(k);
        }
        k = k + 1;
    }
    proof {
        assert(trans@.take(trans@.len() as int) =~= trans@);
    }
    result
}

/// Resolves a pause point at (`x`,`y`): creates or carries over its record
/// in `new_trans` and says whether the beam stops here this call.
fn pause_at(
    old_trans: &Vec<RayTransition>,
    new_trans: &mut Vec<RayTransition>,
    x: u32,
    y: u32,
    time_ms: u64,
) -> (stop: bool)
    ensures
        ({
            let (nt2, st) = spec_pause(old_trans@, old(new_trans)@, x as int, y as int, time_ms);
            final(new_trans)@ == nt2 && stop == st
        }),
{
    proof {
        lemma_last_transition_match_in_range(old_trans@, x as int, y as int);
    }
    match find_last_transition(old_trans, x, y) {
        None => {
            new_trans.push(RayTransition { x, y, time_entered_ms: time_ms });
            true
        },
        Some(j) => {
            let tr = old_trans[j];
            new_trans.push(tr);
            !(time_ms >= tr.time_entered_ms && time_ms - tr.time_entered_ms >= BEAM_PAUSE_MS)
        },
    }
}

} // verus!
