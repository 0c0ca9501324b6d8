use vstd::prelude::*;
use vstd::arithmetic::div_mod::{lemma_fundamental_div_mod, lemma_mod_bound};
use vstd::set::axiom_set_insert_len;
use vstd::set_lib::lemma_len_subset;
use crate::level::{
    spec_count_gems, spec_gem_count_prefix, LevelModel, RayTransition, TileEffect,
};
use crate::tile::{
    spec_beam_direction_to_vec, spec_is_a_gem, spec_is_mirror, spec_is_ray_blocker,
    spec_is_ray_source, spec_is_teleport, spec_mirror_reflect, spec_tile_code, tile_of_code,
    BeamDirection, Tile,
};

verus! {

/// The beam pauses for this many milliseconds at each turn or teleport exit
/// before it advances further on a later call.
pub const BEAM_PAUSE_MS: u64 = 75;

/// What one simulation call reads but never changes: the grid dimensions,
/// the front layer, the previous call's ray overlay, the pause records
/// carried from the previous call, and the current time.
pub ghost struct BeamCtx {
    pub width: int,
    pub height: int,
    pub front: Seq<u8>,
    pub last_ray: Seq<u8>,
    pub old_trans: Seq<RayTransition>,
    pub time_ms: u64,
}

/// The beam's evolving state during one simulation call.
pub ghost struct BeamState {
    pub x: int,
    pub y: int,
    pub dir: BeamDirection,
    pub ray: Seq<u8>,
    pub effects: Seq<TileEffect>,
    pub jewels: int,
    pub new_trans: Seq<RayTransition>,
    pub stopped: bool,
}

/// One toroidal step: a beam leaving an edge reappears on the opposite edge.
/// The wrap is only a position update; blocking is decided by tiles alone.
pub open spec fn spec_move(w: int, h: int, x: int, y: int, d: BeamDirection) -> (int, int) {
    match d {
        BeamDirection::Up => (x, if y == 0 { h - 1 } else { y - 1 }),
        BeamDirection::Down => (x, if y == h - 1 { 0 } else { y + 1 }),
        BeamDirection::Left => (if x == 0 { w - 1 } else { x - 1 }, y),
        BeamDirection::Right => (if x == w - 1 { 0 } else { x + 1 }, y),
    }
}

/// The cells holding tile `t` among the first `n` cells of a front layer,
/// in row-major scan order.
pub open spec fn spec_positions_upto(front: Seq<u8>, w: int, t: Tile, n: int) -> Seq<(u32, u32)>
    decreases n,
{
    if n <= 0 {
        Seq::empty()
    } else {
        let p = spec_positions_upto(front, w, t, n - 1);
        if tile_of_code(front[n - 1]) == t {
            p.push((((n - 1) % w) as u32, ((n - 1) / w) as u32))
        } else {
            p
        }
    }
}

/// The cells holding tile `t`, in row-major scan order.
pub open spec fn spec_positions(front: Seq<u8>, w: int, t: Tile) -> Seq<(u32, u32)> {
    spec_positions_upto(front, w, t, front.len() as int)
}

/// Every scanned position lies inside a `w` by `h` grid.
pub proof fn lemma_positions_upto_in_grid(front: Seq<u8>, w: int, h: int, t: Tile, n: int)
    requires
        1 <= w,
        1 <= h,
        n <= w * h,
        front.len() <= w * h,
    ensures
        forall|k: int|
            0 <= k < spec_positions_upto(front, w, t, n).len() ==> {
                let p = #[trigger] spec_positions_upto(front, w, t, n)[k];
                (p.0 as int) < w && (p.1 as int) < h
            },
    decreases n,
{
    if n > 0 {
        lemma_positions_upto_in_grid(front, w, h, t, n - 1);
        let prev = spec_positions_upto(front, w, t, n - 1);
        let cur = spec_positions_upto(front, w, t, n);
        if tile_of_code(front[n - 1]) == t {
            lemma_mod_bound(n - 1, w);
            lemma_fundamental_div_mod(n - 1, w);
            assert(0 <= ((n - 1) / w) < h) by (nonlinear_arith)
                requires
                    0 <= n - 1 < w * h,
                    1 <= w,
                    1 <= h,
                    n - 1 == w * ((n - 1) / w) + ((n - 1) % w),
                    0 <= (n - 1) % w < w,
            ;
            let e = ((((n - 1) % w) as u32), (((n - 1) / w) as u32));
            assert(cur == prev.push(e));
            assert((e.0 as int) < w && (e.1 as int) < h);
            assert forall|k: int| 0 <= k < cur.len() implies {
                let p = #[trigger] cur[k];
                (p.0 as int) < w && (p.1 as int) < h
            } by {
                if k < prev.len() {
                    assert(cur[k] == prev[k]);
                } else {
                    assert(cur[k] == e);
                }
            }
        } else {
            assert(cur == prev);
        }
    }
}

/// The index of the last pause record at cell (`x`,`y`), or -1 when none
/// exists. A later record shadows an earlier one at the same cell, as the
/// forward scan of the record list keeps only the last match.
pub open spec fn spec_last_transition_match(trans: Seq<RayTransition>, x: int, y: int) -> int
    decreases trans.len(),
{
    if trans.len() == 0 {
        -1
    } else if trans.last().x == x && trans.last().y == y {
        trans.len() - 1
    } else {
        spec_last_transition_match(trans.drop_last(), x, y)
    }
}

pub proof fn lemma_last_transition_match_in_range(trans: Seq<RayTransition>, x: int, y: int)
    ensures
        -1 <= spec_last_transition_match(trans, x, y) < trans.len(),
        spec_last_transition_match(trans, x, y) >= 0 ==> {
            let tr = trans[spec_last_transition_match(trans, x, y)];
            tr.x == x && tr.y == y
        },
    decreases trans.len(),
{
    if trans.len() > 0 && !(trans.last().x == x && trans.last().y == y) {
        lemma_last_transition_match_in_range(trans.drop_last(), x, y);
    }
}

/// A pause point (a turn or a teleport exit) at cell (`x`,`y`): when the
/// previous call left no record here, a fresh record is created and the beam
/// stops for this call; when a record exists but is younger than
/// `BEAM_PAUSE_MS`, it is kept and the beam still stops; otherwise the
/// record is kept and the beam advances. Returns the new record list and
/// whether the beam stops.
pub open spec fn spec_pause(
    old_trans: Seq<RayTransition>,
    new_trans: Seq<RayTransition>,
    x: int,
    y: int,
    time_ms: u64,
) -> (Seq<RayTransition>, bool) {
    let j = spec_last_transition_match(old_trans, x, y);
    if j < 0 {
        (
            new_trans.push(
                RayTransition { x: x as u32, y: y as u32, time_entered_ms: time_ms },
            ),
            true,
        )
    } else {
        let tr = old_trans[j];
        (
            new_trans.push(tr),
            !(time_ms >= tr.time_entered_ms && time_ms - tr.time_entered_ms >= BEAM_PAUSE_MS),
        )
    }
}

/// Drawing one ray segment at flat index `o`: a vertical or horizontal
/// segment by travel axis, or a cross where a segment was already drawn
/// this call.
pub open spec fn spec_draw(ray: Seq<u8>, o: int, d: BeamDirection) -> Seq<u8> {
    if ray[o] != 0 {
        ray.update(o, spec_tile_code(Tile::RayCross))
    } else if d == BeamDirection::Up || d == BeamDirection::Down {
        ray.update(o, spec_tile_code(Tile::RayVertical))
    } else {
        ray.update(o, spec_tile_code(Tile::RayHorizontal))
    }
}

/// The punch effect a freshly crossed gem receives: a nudge of 40 logical
/// units along the beam's travel direction, stamped with the current time.
pub open spec fn spec_gem_punch(d: BeamDirection, time_ms: u64) -> TileEffect {
    let v = spec_beam_direction_to_vec(d);
    TileEffect::Punch { time_ms, dx: (v.x * 40) as i64, dy: (v.y * 40) as i64 }
}

/// One iteration of the beam loop, from an unstopped state whose position
/// is on the grid. In order: a tile blocking the travel axis stops the
/// beam; a gem is counted if no segment was drawn on it this call (and
/// punched if the previous call's overlay was empty there too), then drawn
/// over and passed; a ray source stops the beam without drawing; a corner
/// mirror redirects per its fixed table (or stops the beam on a dead-end
/// arrival) and pauses; a teleport whose symbol occurs exactly twice jumps
/// the beam to the partner cell and pauses there, drawing on neither cell;
/// any other tile — including a teleport without a usable pair — is drawn
/// over and passed.
pub open spec fn spec_beam_step(ctx: BeamCtx, s: BeamState) -> BeamState {
    let o = s.y * ctx.width + s.x;
    let t = tile_of_code(ctx.front[o]);
    if spec_is_ray_blocker(t, s.dir) {
        BeamState { stopped: true, ..s }
    } else if spec_is_a_gem(t) {
        let counted = s.ray[o] == 0;
        let jewels2 = if counted {
            s.jewels + 1
        } else {
            s.jewels
        };
        let effects2 = if counted && ctx.last_ray[o] == 0 {
            s.effects.update(o, spec_gem_punch(s.dir, ctx.time_ms))
        } else {
            s.effects
        };
        let ray2 = spec_draw(s.ray, o, s.dir);
        let (x2, y2) = spec_move(ctx.width, ctx.height, s.x, s.y, s.dir);
        BeamState { x: x2, y: y2, ray: ray2, effects: effects2, jewels: jewels2, ..s }
    } else if spec_is_ray_source(t) {
        BeamState { stopped: true, ..s }
    } else if spec_is_mirror(t) {
        match spec_mirror_reflect(t, s.dir) {
            None => BeamState { stopped: true, ..s },
            Some(d2) => {
                let (nt2, stop) = spec_pause(ctx.old_trans, s.new_trans, s.x, s.y, ctx.time_ms);
                if stop {
                    BeamState { dir: d2, new_trans: nt2, stopped: true, ..s }
                } else {
                    let (x2, y2) = spec_move(ctx.width, ctx.height, s.x, s.y, d2);
                    BeamState { x: x2, y: y2, dir: d2, new_trans: nt2, ..s }
                }
            },
        }
    } else if spec_is_teleport(t) && spec_positions(ctx.front, ctx.width, t).len() == 2 {
        let pair = spec_positions(ctx.front, ctx.width, t);
        let target = if s.x == pair[0].0 as int && s.y == pair[0].1 as int {
            pair[1]
        } else {
            pair[0]
        };
        let tx = target.0 as int;
        let ty = target.1 as int;
        let (nt2, stop) = spec_pause(ctx.old_trans, s.new_trans, tx, ty, ctx.time_ms);
        if stop {
            BeamState { x: tx, y: ty, new_trans: nt2, stopped: true, ..s }
        } else {
            let (x2, y2) = spec_move(ctx.width, ctx.height, tx, ty, s.dir);
            BeamState { x: x2, y: y2, new_trans: nt2, ..s }
        }
    } else {
        let ray2 = spec_draw(s.ray, o, s.dir);
        let (x2, y2) = spec_move(ctx.width, ctx.height, s.x, s.y, s.dir);
        BeamState { x: x2, y: y2, ray: ray2, ..s }
    }
}

/// Up to `fuel` beam iterations; a stopped state absorbs the remainder.
pub open spec fn spec_beam_run(ctx: BeamCtx, s: BeamState, fuel: nat) -> BeamState
    decreases fuel,
{
    if fuel == 0 || s.stopped {
        s
    } else {
        spec_beam_run(ctx, spec_beam_step(ctx, s), (fuel - 1) as nat)
    }
}

/// The read-only context one simulation call works in.
pub open spec fn spec_beam_ctx(m: LevelModel, time_ms: u64) -> BeamCtx {
    BeamCtx {
        width: m.width,
        height: m.height,
        front: m.front,
        last_ray: m.ray,
        old_trans: m.transitions,
        time_ms,
    }
}

/// The state a simulation call starts from: the overlay cleared, no gems
/// counted, no records retained, and the beam one cell past the source (the
/// source cell itself behaves as a blocker).
pub open spec fn spec_beam_init(m: LevelModel) -> BeamState {
    let (sx, sy, d) = m.spec_find_start();
    let (x0, y0) = spec_move(m.width, m.height, sx, sy, d);
    BeamState {
        x: x0,
        y: y0,
        dir: d,
        ray: Seq::new(m.cell_count() as nat, |i: int| 0u8),
        effects: m.effects,
        jewels: 0,
        new_trans: Seq::empty(),
        stopped: false,
    }
}

/// The gem cells a ray overlay has drawn over.
pub open spec fn spec_lit_gems(front: Seq<u8>, ray: Seq<u8>) -> Set<int> {
    Set::new(
        |i: int| 0 <= i < front.len() && spec_is_a_gem(tile_of_code(front[i])) && ray[i] != 0,
    )
}

/// All gem cells of a front layer.
pub open spec fn spec_gem_cells(front: Seq<u8>) -> Set<int> {
    Set::new(|i: int| 0 <= i < front.len() && spec_is_a_gem(tile_of_code(front[i])))
}

/// The gem cells among the first `n` cells.
pub open spec fn spec_gem_cells_upto(front: Seq<u8>, n: int) -> Set<int> {
    Set::new(|i: int| 0 <= i < n && i < front.len() && spec_is_a_gem(tile_of_code(front[i])))
}

proof fn lemma_gem_cells_upto_card(front: Seq<u8>, n: int)
    requires
        0 <= n <= front.len(),
    ensures
        spec_gem_cells_upto(front, n).finite(),
        spec_gem_cells_upto(front, n).len() == spec_gem_count_prefix(front, n),
    decreases n,
{
    if n == 0 {
        assert(spec_gem_cells_upto(front, 0) =~= Set::empty());
    } else {
        lemma_gem_cells_upto_card(front, n - 1);
        if spec_is_a_gem(tile_of_code(front[n - 1])) {
            assert(spec_gem_cells_upto(front, n) =~= spec_gem_cells_upto(front, n - 1).insert(
                n - 1,
            ));
            axiom_set_insert_len(spec_gem_cells_upto(front, n - 1), n - 1);
        } else {
            assert(spec_gem_cells_upto(front, n) =~= spec_gem_cells_upto(front, n - 1));
        }
    }
}

/// A front layer has as many gem cells as `spec_count_gems` counts.
pub proof fn lemma_gem_cells_card(front: Seq<u8>)
    ensures
        spec_gem_cells(front).finite(),
        spec_gem_cells(front).len() == spec_count_gems(front),
{
    lemma_gem_cells_upto_card(front, front.len() as int);
    assert(spec_gem_cells(front) =~= spec_gem_cells_upto(front, front.len() as int));
}

/// Law: a beam entering either cell of a usable teleport pair (a symbol
/// occurring exactly twice) keeps its direction and continues from the
/// partner cell, and no ray segment is drawn on either teleport cell — the
/// step leaves the whole overlay, the gem count and the effects untouched.
/// When the pause at the partner cell holds the beam this call (a fresh or
/// still-young record), the step ends at the partner cell, still facing
/// the same way; otherwise the beam stands one cell past the partner.
pub proof fn lemma_teleport_step(ctx: BeamCtx, s: BeamState)
    requires
        !s.stopped,
        0 <= s.x < ctx.width,
        0 <= s.y < ctx.height,
        ctx.front.len() == ctx.width * ctx.height,
        spec_is_teleport(tile_of_code(ctx.front[s.y * ctx.width + s.x])),
        spec_positions(
            ctx.front,
            ctx.width,
            tile_of_code(ctx.front[s.y * ctx.width + s.x]),
        ).len() == 2,
    ensures
        ({
            let t = tile_of_code(ctx.front[s.y * ctx.width + s.x]);
            let pair = spec_positions(ctx.front, ctx.width, t);
            let target = if s.x == pair[0].0 as int && s.y == pair[0].1 as int {
                pair[1]
            } else {
                pair[0]
            };
            let s2 = spec_beam_step(ctx, s);
            &&& s2.dir == s.dir
            &&& s2.ray == s.ray
            &&& s2.jewels == s.jewels
            &&& s2.effects == s.effects
            &&& (!s2.stopped ==> (s2.x, s2.y) == spec_move(
                ctx.width,
                ctx.height,
                target.0 as int,
                target.1 as int,
                s.dir,
            ))
            &&& (s2.stopped ==> s2.x == target.0 as int && s2.y == target.1 as int)
        }),
{
}

/// Law: a corner mirror redirects a beam arriving from one of the two
/// valid incoming directions of its orientation exactly per the fixed
/// reflection table and pauses on the mirror cell; a beam arriving from
/// any other direction stops dead at the mirror. In every case nothing is
/// drawn on the mirror cell and the gem count is untouched.
pub proof fn lemma_mirror_step(ctx: BeamCtx, s: BeamState)
    requires
        !s.stopped,
        0 <= s.x < ctx.width,
        0 <= s.y < ctx.height,
        ctx.front.len() == ctx.width * ctx.height,
        spec_is_mirror(tile_of_code(ctx.front[s.y * ctx.width + s.x])),
    ensures
        ({
            let t = tile_of_code(ctx.front[s.y * ctx.width + s.x]);
            let s2 = spec_beam_step(ctx, s);
            &&& s2.ray == s.ray
            &&& s2.jewels == s.jewels
            &&& s2.effects == s.effects
            &&& match spec_mirror_reflect(t, s.dir) {
                None => s2.stopped && s2.x == s.x && s2.y == s.y,
                Some(d2) => s2.dir == d2 && (!s2.stopped ==> (s2.x, s2.y) == spec_move(
                    ctx.width,
                    ctx.height,
                    s.x,
                    s.y,
                    d2,
                )) && (s2.stopped ==> s2.x == s.x && s2.y == s.y),
            }
        }),
{
}

/// The cell `k` toroidal steps along `d` from (`sx`,`sy`).
pub open spec fn spec_path_pos(
    w: int,
    h: int,
    sx: int,
    sy: int,
    d: BeamDirection,
    k: nat,
) -> (int, int)
    decreases k,
{
    if k == 0 {
        (sx, sy)
    } else {
        let p = spec_path_pos(w, h, sx, sy, d, (k - 1) as nat);
        spec_move(w, h, p.0, p.1, d)
    }
}

/// Path cells stay on the grid.
pub proof fn lemma_path_pos_in_grid(w: int, h: int, sx: int, sy: int, d: BeamDirection, k: nat)
    requires
        1 <= w,
        1 <= h,
        0 <= sx < w,
        0 <= sy < h,
    ensures
        0 <= spec_path_pos(w, h, sx, sy, d, k).0 < w,
        0 <= spec_path_pos(w, h, sx, sy, d, k).1 < h,
    decreases k,
{
    if k > 0 {
        lemma_path_pos_in_grid(w, h, sx, sy, d, (k - 1) as nat);
    }
}

/// The induction behind the straight-lane law: from an unstopped state
/// standing on lane cell `i`, the run draws its way down the lane, counts
/// the gem once when it is still ahead, creates no pause record, and stops
/// at the blocker.
proof fn lemma_straight_seg(
    ctx: BeamCtx,
    sx: int,
    sy: int,
    d: BeamDirection,
    g: int,
    b: int,
    s: BeamState,
    i: int,
    fuel: nat,
)
    requires
        1 <= ctx.width <= 255,
        1 <= ctx.height <= 255,
        ctx.front.len() == ctx.width * ctx.height,
        0 <= sx < ctx.width,
        0 <= sy < ctx.height,
        1 <= g < b,
        forall|k: int|
            1 <= k < b && k != g ==> {
                let p = #[trigger] spec_path_pos(ctx.width, ctx.height, sx, sy, d, k as nat);
                tile_of_code(ctx.front[p.1 * ctx.width + p.0]) == Tile::EmptyPiece
            },
        ({
            let p = spec_path_pos(ctx.width, ctx.height, sx, sy, d, g as nat);
            spec_is_a_gem(tile_of_code(ctx.front[p.1 * ctx.width + p.0]))
        }),
        ({
            let p = spec_path_pos(ctx.width, ctx.height, sx, sy, d, b as nat);
            spec_is_ray_blocker(tile_of_code(ctx.front[p.1 * ctx.width + p.0]), d)
        }),
        forall|j: int, k: int|
            1 <= j < k <= b ==> #[trigger] spec_path_pos(ctx.width, ctx.height, sx, sy, d, j as nat)
                != #[trigger] spec_path_pos(ctx.width, ctx.height, sx, sy, d, k as nat),
        1 <= i <= b,
        fuel >= b - i + 1,
        !s.stopped,
        s.dir == d,
        (s.x, s.y) == spec_path_pos(ctx.width, ctx.height, sx, sy, d, i as nat),
        s.ray.len() == ctx.width * ctx.height,
        forall|k: int|
            i <= k <= b ==> {
                let p = #[trigger] spec_path_pos(ctx.width, ctx.height, sx, sy, d, k as nat);
                s.ray[p.1 * ctx.width + p.0] == 0
            },
    ensures
        ({
            let fin = spec_beam_run(ctx, s, fuel);
            &&& fin.jewels == s.jewels + if i <= g {
                1int
            } else {
                0int
            }
            &&& fin.new_trans == s.new_trans
            &&& fin.stopped
        }),
    decreases b - i,
{
    let w = ctx.width;
    let h = ctx.height;
    let p = spec_path_pos(w, h, sx, sy, d, i as nat);
    lemma_path_pos_in_grid(w, h, sx, sy, d, i as nat);
    crate::level::lemma_offset_in_grid(w, h, p.0, p.1);
    let o = p.1 * w + p.0;
    let t = tile_of_code(ctx.front[o]);
    let s2 = spec_beam_step(ctx, s);
    if i == b {
        // the blocker: the beam stops here, nothing more happens
        assert(spec_beam_run(ctx, s2, (fuel - 1) as nat) == s2);
    } else {
        // an empty cell or the gem: a segment is drawn, the beam moves on
        assert(!spec_is_ray_blocker(t, d));
        let pn = spec_path_pos(w, h, sx, sy, d, (i + 1) as nat);
        assert((s2.x, s2.y) == pn);
        assert forall|k: int| i + 1 <= k <= b implies {
            let q = #[trigger] spec_path_pos(w, h, sx, sy, d, k as nat);
            s2.ray[q.1 * w + q.0] == 0
        } by {
            let q = spec_path_pos(w, h, sx, sy, d, k as nat);
            lemma_path_pos_in_grid(w, h, sx, sy, d, k as nat);
            crate::level::lemma_offset_in_grid(w, h, q.0, q.1);
            assert(spec_path_pos(w, h, sx, sy, d, i as nat) != q);
            assert(q.1 * w + q.0 != o) by {
                if q.1 * w + q.0 == o {
                    vstd::arithmetic::div_mod::lemma_fundamental_div_mod_converse(o, w, q.1, q.0);
                    vstd::arithmetic::div_mod::lemma_fundamental_div_mod_converse(o, w, p.1, p.0);
                }
            }
        }
        lemma_straight_seg(ctx, sx, sy, d, g, b, s2, i + 1, (fuel - 1) as nat);
    }
}

/// Law: in a level whose beam runs down a single unobstructed straight
/// lane — empty cells from the source past exactly one gem and on to a
/// blocking tile, all lane cells distinct — a simulation call with budget
/// at least the lane length counts exactly one gem and retains no pause
/// record. The hypotheses say nothing about the previous overlay
/// (`ctx.last_ray`) or the previous pause records (`ctx.old_trans`), so
/// the conclusion holds of an immediate second call just the same:
/// gem-crossing counts are per call, never cumulative.
pub proof fn lemma_straight_path_counts_once(
    ctx: BeamCtx,
    sx: int,
    sy: int,
    d: BeamDirection,
    g: int,
    b: int,
    s0: BeamState,
    fuel: nat,
)
    requires
        1 <= ctx.width <= 255,
        1 <= ctx.height <= 255,
        ctx.front.len() == ctx.width * ctx.height,
        0 <= sx < ctx.width,
        0 <= sy < ctx.height,
        1 <= g < b,
        fuel >= b,
        forall|k: int|
            1 <= k < b && k != g ==> {
                let p = #[trigger] spec_path_pos(ctx.width, ctx.height, sx, sy, d, k as nat);
                tile_of_code(ctx.front[p.1 * ctx.width + p.0]) == Tile::EmptyPiece
            },
        ({
            let p = spec_path_pos(ctx.width, ctx.height, sx, sy, d, g as nat);
            spec_is_a_gem(tile_of_code(ctx.front[p.1 * ctx.width + p.0]))
        }),
        ({
            let p = spec_path_pos(ctx.width, ctx.height, sx, sy, d, b as nat);
            spec_is_ray_blocker(tile_of_code(ctx.front[p.1 * ctx.width + p.0]), d)
        }),
        forall|j: int, k: int|
            1 <= j < k <= b ==> #[trigger] spec_path_pos(ctx.width, ctx.height, sx, sy, d, j as nat)
                != #[trigger] spec_path_pos(ctx.width, ctx.height, sx, sy, d, k as nat),
        !s0.stopped,
        s0.dir == d,
        s0.jewels == 0,
        s0.new_trans == Seq::<RayTransition>::empty(),
        (s0.x, s0.y) == spec_path_pos(ctx.width, ctx.height, sx, sy, d, 1),
        s0.ray == Seq::new((ctx.width * ctx.height) as nat, |i: int| 0u8),
    ensures
        spec_beam_run(ctx, s0, fuel).jewels == 1,
        spec_beam_run(ctx, s0, fuel).new_trans == Seq::<RayTransition>::empty(),
        spec_beam_run(ctx, s0, fuel).stopped,
{
    assert forall|k: int| 1 <= k <= b implies {
        let p = #[trigger] spec_path_pos(ctx.width, ctx.height, sx, sy, d, k as nat);
        s0.ray[p.1 * ctx.width + p.0] == 0
    } by {
        let p = spec_path_pos(ctx.width, ctx.height, sx, sy, d, k as nat);
        lemma_path_pos_in_grid(ctx.width, ctx.height, sx, sy, d, k as nat);
        crate::level::lemma_offset_in_grid(ctx.width, ctx.height, p.0, p.1);
    }
    lemma_straight_seg(ctx, sx, sy, d, g, b, s0, 1, fuel);
}

/// Law: on a level whose beam runs down such a straight lane, two
/// simulation calls in a row — the second seeing the overlay, the effects
/// and the pause records the first left behind — each count exactly one
/// gem: crossing counts are per call, never cumulative.
pub proof fn lemma_straight_path_two_calls(
    m: LevelModel,
    time1: u64,
    time2: u64,
    sx: int,
    sy: int,
    d: BeamDirection,
    g: int,
    b: int,
    fuel: nat,
)
    requires
        m.wf(),
        m.spec_find_start() == (sx, sy, d),
        0 <= sx < m.width,
        0 <= sy < m.height,
        1 <= g < b,
        fuel >= b,
        forall|k: int|
            1 <= k < b && k != g ==> {
                let p = #[trigger] spec_path_pos(m.width, m.height, sx, sy, d, k as nat);
                tile_of_code(m.front[p.1 * m.width + p.0]) == Tile::EmptyPiece
            },
        ({
            let p = spec_path_pos(m.width, m.height, sx, sy, d, g as nat);
            spec_is_a_gem(tile_of_code(m.front[p.1 * m.width + p.0]))
        }),
        ({
            let p = spec_path_pos(m.width, m.height, sx, sy, d, b as nat);
            spec_is_ray_blocker(tile_of_code(m.front[p.1 * m.width + p.0]), d)
        }),
        forall|j: int, k: int|
            1 <= j < k <= b ==> #[trigger] spec_path_pos(m.width, m.height, sx, sy, d, j as nat)
                != #[trigger] spec_path_pos(m.width, m.height, sx, sy, d, k as nat),
    ensures
        ({
            let fin1 = spec_beam_run(spec_beam_ctx(m, time1), spec_beam_init(m), fuel);
            let m2 = LevelModel {
                ray: fin1.ray,
                effects: fin1.effects,
                transitions: fin1.new_trans,
                ..m
            };
            let fin2 = spec_beam_run(spec_beam_ctx(m2, time2), spec_beam_init(m2), fuel);
            fin1.jewels == 1 && fin2.jewels == 1
        }),
{
    assert(spec_path_pos(m.width, m.height, sx, sy, d, 0) == (sx, sy));
    assert(spec_path_pos(m.width, m.height, sx, sy, d, 1) == spec_move(
        m.width,
        m.height,
        sx,
        sy,
        d,
    ));
    lemma_straight_path_counts_once(
        spec_beam_ctx(m, time1),
        sx,
        sy,
        d,
        g,
        b,
        spec_beam_init(m),
        fuel,
    );
    let fin1 = spec_beam_run(spec_beam_ctx(m, time1), spec_beam_init(m), fuel);
    let m2 = LevelModel { ray: fin1.ray, effects: fin1.effects, transitions: fin1.new_trans, ..m };
    // the second call reads the same front layer, so it starts the same way
    assert(m2.spec_find_start() == m.spec_find_start());
    assert(spec_beam_init(m2).ray == Seq::new((m2.width * m2.height) as nat, |i: int| 0u8));
    lemma_straight_path_counts_once(
        spec_beam_ctx(m2, time2),
        sx,
        sy,
        d,
        g,
        b,
        spec_beam_init(m2),
        fuel,
    );
}

/// The overlay can light at most every gem cell.
pub proof fn lemma_lit_gems_bounded(front: Seq<u8>, ray: Seq<u8>)
    ensures
        spec_lit_gems(front, ray).finite(),
        spec_lit_gems(front, ray).len() <= spec_count_gems(front),
{
    lemma_gem_cells_card(front);
    assert(spec_lit_gems(front, ray).subset_of(spec_gem_cells(front)));
    lemma_len_subset(spec_lit_gems(front, ray), spec_gem_cells(front));
}

} // verus!
