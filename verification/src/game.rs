use vstd::prelude::*;
use crate::beam::{spec_beam_ctx, spec_beam_init, spec_beam_run, BeamState};
use crate::drag::{
    coord_ok, spec_drag_init, spec_drag_substeps, TileDragController, TileMove, DRAG_SUB_STEPS,
};
use crate::geom::Vec2i;
use crate::level::{
    lemma_offset_in_grid, spec_count_gems, Level, LevelModel, TileEffect,
};
use crate::tile::{
    lemma_code_tile_round_trip, spec_is_movable, spec_tile_code, tile_of_code, Tile,
};
use crate::ui::PageAction;

verus! {

/// Sounds the host plays in reaction to game events.
#[derive(Clone, Copy, Debug, PartialEq, Eq, Structural, Hash)]
pub enum SoundEffect {
    Ping,
    Gem,
    GemSolved,
    Transport,
}

/// What the game page is currently doing; timed phases carry their start,
/// in milliseconds since the page was entered.
#[derive(Clone, Copy, Debug, PartialEq, Eq, Structural)]
pub enum GameState {
    ShowingNewLevel(u64),
    Playing,
    ShowingSolution(u64),
    InGameMenu,
}

/// How long the level-intro overlay holds before play begins.
pub const NEW_LEVEL_INTRO_MS: u64 = 2500;

/// During the solution animation the visible beam grows one cell per this
/// many milliseconds.
pub const SOLUTION_STEP_MS: u64 = 50;

/// The step budget of a normal play frame: effectively "run to completion".
pub const PLAY_MAX_BEAM_STEPS: usize = 500;

/// The level-intro fade-in: pieces start at triple size and settle over a
/// second.
pub const INTRO_FADE_SCALE_PCT: u32 = 300;

pub const INTRO_FADE_MS: u32 = 1000;

/// A time bound no real session approaches (about three years of page
/// time); it keeps the solution-step arithmetic inside every machine size.
pub const TIME_LIMIT_MS: u64 = 100_000_000_000;

/// The grid cell under a cursor position, or `None` outside the grid.
/// Coordinates left of or above the grid clamp to its first cell, as a
/// saturating division would.
pub open spec fn spec_to_level_pos(m: LevelModel, pos: Vec2i) -> Option<(u32, u32)> {
    let mx = if pos.x < 0 {
        0int
    } else {
        pos.x as int / 64
    };
    let my = if pos.y < 0 {
        0int
    } else {
        pos.y as int / 64
    };
    if mx < m.width && my < m.height {
        Some((mx as u32, my as u32))
    } else {
        None
    }
}

/// Converts a logical position into a level map coordinate.
pub fn to_level_pos(level: &Level, pos: &Vec2i) -> (r: Option<(u32, u32)>)
    requires
        level@.wf(),
        coord_ok(*pos),
    ensures
        r == spec_to_level_pos(level@, *pos),
        r matches Some(p) ==> (p.0 as int) < level@.width && (p.1 as int) < level@.height,
{
    let mx: i64 = if pos.x < 0 {
        0
    } else {
        pos.x / 64
    };
    let my: i64 = if pos.y < 0 {
        0
    } else {
        pos.y / 64
    };
    if mx < level.width() as i64 && my < level.height() as i64 {
        Some((mx as u32, my as u32))
    } else {
        None
    }
}

/// The beam interpreter's outcome over model `m`.
pub open spec fn spec_sim_result(m: LevelModel, steps: nat, now_ms: u64) -> BeamState {
    spec_beam_run(spec_beam_ctx(m, now_ms), spec_beam_init(m), steps)
}

/// `m` after one beam pass: the recomputed overlay, the effects the pass
/// set, and the pause records it retained.
pub open spec fn spec_sim_model(m: LevelModel, steps: nat, now_ms: u64) -> LevelModel {
    let fin = spec_sim_result(m, steps, now_ms);
    LevelModel { ray: fin.ray, effects: fin.effects, transitions: fin.new_trans, ..m }
}

/// The hover nudge: when the cursor has just arrived over a movable front
/// tile, that cell gets a small punch effect.
pub open spec fn spec_tickle(
    m: LevelModel,
    last_map_pos: Option<(u32, u32)>,
    cursor: Vec2i,
    now_ms: u64,
) -> LevelModel {
    match spec_to_level_pos(m, cursor) {
        Some(p) => if spec_is_movable(m.front_tile_at(p.0 as int, p.1 as int)) && last_map_pos
            != Some(p) {
            LevelModel {
                effects: m.effects.update(
                    m.offset_of(p.0 as int, p.1 as int),
                    TileEffect::Punch { time_ms: now_ms, dx: 5, dy: 5 },
                ),
                ..m
            }
        } else {
            m
        },
        None => m,
    }
}

/// `m` with every movable front tile's effect replaced by `e`.
pub open spec fn spec_movable_effects(m: LevelModel, e: TileEffect) -> LevelModel {
    LevelModel {
        effects: Seq::new(
            m.effects.len(),
            |i: int|
                if spec_is_movable(tile_of_code(m.front[i])) {
                    e
                } else {
                    m.effects[i]
                },
        ),
        ..m
    }
}

/// What one frame reports back to the host.
#[derive(Clone, Copy, Debug, PartialEq, Eq, Structural)]
pub struct TickOutcome {
    pub jewel_ray_count: u32,
    pub sound: Option<SoundEffect>,
}

/// One level being played: the grid, the page's state machine, the drag
/// controller, and the per-frame carry-overs (last frame's gem count, last
/// frame's hovered cell).
pub struct GameSession {
    pub level_no: u32,
    pub game_state: GameState,
    pub level: Level,
    pub drag: TileDragController,
    pub last_jewel_ray_count: u32,
    pub last_map_pos: Option<(u32, u32)>,
}

impl GameSession {
    /// The session invariant: the grid is well-formed, the drag state fits
    /// it, and while a piece is in flight its cell on the front layer is
    /// vacated.
    pub open spec fn wf(self) -> bool {
        &&& self.level@.wf()
        &&& self.drag.wf(self.level@)
        &&& match self.drag.tile_move {
            Some(tm) => self.level@.front_tile_at(tm.map_x as int, tm.map_y as int)
                == Tile::EmptyPiece,
            None => true,
        }
    }

    pub fn new(level: Level, level_no: u32) -> (s: GameSession)
        requires
            level@.wf(),
        ensures
            s.wf(),
            s.level@ == level@,
            s.level_no == level_no,
            s.game_state == GameState::ShowingNewLevel(0),
            s.drag.tile_move == Option::<TileMove>::None,
            s.last_jewel_ray_count == 0,
            s.last_map_pos == Option::<(u32, u32)>::None,
    {
        GameSession {
            level_no,
            game_state: GameState::ShowingNewLevel(0),
            level,
            drag: TileDragController::new(),
            last_jewel_ray_count: 0,
            last_map_pos: None,
        }
    }

    /// Re-entering the page: the counters reset, the intro starts over on
    /// the freshly loaded level, whose movable pieces start hidden, and any
    /// stale drag is dropped.
    pub fn enter(&mut self, level: Level)
        requires
            level@.wf(),
        ensures
            final(self).wf(),
            final(self).level_no == old(self).level_no,
            final(self).game_state == GameState::ShowingNewLevel(0),
            final(self).last_jewel_ray_count == 0,
            final(self).last_map_pos == old(self).last_map_pos,
            final(self).drag.tile_move == Option::<TileMove>::None,
            final(self).level@ == spec_movable_effects(level@, TileEffect::Hide),
    {
        self.last_jewel_ray_count = 0;
        self.game_state = GameState::ShowingNewLevel(0);
        self.level = level;
        self.drag = TileDragController::new();
        let ghost before = self.level@;
        self.level.tile_movable_effect(TileEffect::Hide);
        proof {
            assert(self.level@.effects =~= spec_movable_effects(before, TileEffect::Hide).effects);
        }
    }

    /// Moving on to the next level once the solution fade has finished:
    /// the host hands in the next level's grid and learns, through the
    /// returned action, that saved progress should rise to the new number.
    pub fn advance_level(&mut self, level: Level, now_ms: u64) -> (action: PageAction)
        requires
            level@.wf(),
            old(self).level_no < u32::MAX,
        ensures
            final(self).wf(),
            final(self).level_no == old(self).level_no + 1,
            action == PageAction::OpenLevel((old(self).level_no + 1) as u32),
            final(self).game_state == GameState::ShowingNewLevel(now_ms),
            final(self).last_jewel_ray_count == old(self).last_jewel_ray_count,
            final(self).last_map_pos == old(self).last_map_pos,
            final(self).drag.tile_move == Option::<TileMove>::None,
            final(self).level@ == spec_movable_effects(level@, TileEffect::Hide),
    {
        self.level_no = self.level_no + 1;
        self.level = level;
        self.drag = TileDragController::new();
        self.game_state = GameState::ShowingNewLevel(now_ms);
        let ghost before = self.level@;
        self.level.tile_movable_effect(TileEffect::Hide);
        proof {
            assert(self.level@.effects =~= spec_movable_effects(before, TileEffect::Hide).effects);
        }
        PageAction::OpenLevel(self.level_no)
    }

    /// A press during play grabs a movable tile under the cursor (lifting
    /// it off the front layer); a release puts the held tile back at its
    /// current logical cell. Outside play, clicks do nothing.
    pub fn mouse_click(&mut self, pressed: bool, pos: Vec2i) -> (action: PageAction)
        requires
            old(self).wf(),
            coord_ok(pos),
        ensures
            final(self).wf(),
            action == PageAction::NoAction,
            final(self).game_state == old(self).game_state,
            final(self).level_no == old(self).level_no,
            final(self).last_jewel_ray_count == old(self).last_jewel_ray_count,
            final(self).last_map_pos == old(self).last_map_pos,
            old(self).game_state != GameState::Playing ==> final(self).level@ == old(self).level@
                && final(self).drag == old(self).drag,
            (old(self).game_state == GameState::Playing && pressed) ==> match spec_to_level_pos(
                old(self).level@,
                pos,
            ) {
                Some(p) => {
                    let t = old(self).level@.front_tile_at(p.0 as int, p.1 as int);
                    if spec_is_movable(t) {
                        &&& final(self).level@ == (LevelModel {
                            front: old(self).level@.front.update(
                                old(self).level@.offset_of(p.0 as int, p.1 as int),
                                spec_tile_code(Tile::EmptyPiece),
                            ),
                            ..old(self).level@
                        })
                        &&& final(self).drag.tile_move == Some(
                            TileMove {
                                tile: t,
                                map_x: p.0,
                                map_y: p.1,
                                grab_cursor_pos: pos,
                                last_cursor_pos: pos,
                            },
                        )
                    } else {
                        final(self).level@ == old(self).level@ && final(self).drag == old(
                            self,
                        ).drag
                    }
                },
                None => final(self).level@ == old(self).level@ && final(self).drag == old(
                    self,
                ).drag,
            },
            (old(self).game_state == GameState::Playing && !pressed) ==> match old(
                self,
            ).drag.tile_move {
                Some(tm) => final(self).level@ == (LevelModel {
                    front: old(self).level@.front.update(
                        old(self).level@.offset_of(tm.map_x as int, tm.map_y as int),
                        spec_tile_code(tm.tile),
                    ),
                    ..old(self).level@
                }) && final(self).drag.tile_move == Option::<TileMove>::None,
                None => final(self).level@ == old(self).level@ && final(self).drag == old(
                    self,
                ).drag,
            },
    {
        if self.game_state == GameState::Playing {
            if pressed {
                match to_level_pos(&self.level, &pos) {
                    Some((map_x, map_y)) => {
                        self.drag.press(&mut self.level, map_x, map_y, pos);
                        proof {
                            lemma_offset_in_grid(
                                self.level@.width,
                                self.level@.height,
                                map_x as int,
                                map_y as int,
                            );
                            crate::tile::lemma_tile_code_round_trip(Tile::EmptyPiece);
                        }
                    },
                    None => {},
                }
            } else {
                self.drag.release(&mut self.level);
            }
        }
        PageAction::NoAction
    }

    /// Forwards a pointer move to the drag resolver; reports whether a
    /// bump (slid into an obstacle within this event) should sound.
    pub fn mouse_move(&mut self, new_pos: Vec2i) -> (play_ping: bool)
        requires
            old(self).wf(),
            coord_ok(new_pos),
        ensures
            final(self).wf(),
            final(self).level@ == old(self).level@,
            final(self).game_state == old(self).game_state,
            final(self).level_no == old(self).level_no,
            final(self).last_jewel_ray_count == old(self).last_jewel_ray_count,
            final(self).last_map_pos == old(self).last_map_pos,
            match old(self).drag.tile_move {
                None => final(self).drag == old(self).drag && !play_ping,
                Some(tm) => ({
                    let sf = spec_drag_substeps(
                        old(self).level@,
                        new_pos.x as int,
                        new_pos.y as int,
                        spec_drag_init(tm),
                        DRAG_SUB_STEPS as nat,
                    );
                    play_ping == ((sf.moved.pos_x && sf.hit.pos_x) || (sf.moved.neg_x
                        && sf.hit.neg_x) || (sf.moved.pos_y && sf.hit.pos_y) || (sf.moved.neg_y
                        && sf.hit.neg_y))
                }),
            },
    {
        let r = self.drag.mouse_move(&self.level, new_pos);
        proof {
            match old(self).drag.tile_move {
                Option::Some(tm) => {
                    crate::drag::lemma_drag_substeps_ok(
                        old(self).level@,
                        new_pos.x as int,
                        new_pos.y as int,
                        spec_drag_init(tm),
                        DRAG_SUB_STEPS as nat,
                    );
                },
                Option::None => {},
            }
        }
        r.collision
    }

    /// One simulated frame. In order: the beam pass — against the grid
    /// with the dragged tile temporarily placed at its logical cell when a
    /// drag is active, with a time-derived step budget during the solution
    /// animation, with the full budget otherwise — then the gem-count
    /// bookkeeping and sounds, the solved check (play turns into the
    /// solution animation when the beam crosses every gem), the hover
    /// nudge, and the end of the level intro. The drag state itself is
    /// untouched: the vacated cell is restored before the frame ends.
    pub fn tick(&mut self, now_ms: u64, cursor: Vec2i) -> (out: TickOutcome)
        requires
            old(self).wf(),
            coord_ok(cursor),
            now_ms < TIME_LIMIT_MS,
            match old(self).game_state {
                GameState::ShowingSolution(t0) => t0 <= now_ms,
                GameState::ShowingNewLevel(t0) => t0 <= now_ms,
                _ => true,
            },
        ensures
            final(self).wf(),
            final(self).level_no == old(self).level_no,
            final(self).drag == old(self).drag,
            final(self).last_jewel_ray_count == out.jewel_ray_count,
            final(self).last_map_pos == spec_to_level_pos(old(self).level@, cursor),
            ({
                let m0 = old(self).level@;
                let in_solution = old(self).game_state matches GameState::ShowingSolution(_);
                let dragging = !in_solution && old(self).drag.tile_move is Some;
                let sim_m = match old(self).drag.tile_move {
                    Some(tm) => if in_solution {
                        m0
                    } else {
                        LevelModel {
                            front: m0.front.update(
                                m0.offset_of(tm.map_x as int, tm.map_y as int),
                                spec_tile_code(tm.tile),
                            ),
                            ..m0
                        }
                    },
                    None => m0,
                };
                let steps = match old(self).game_state {
                    GameState::ShowingSolution(t0) => ((now_ms - t0) / (SOLUTION_STEP_MS as int)) as usize,
                    _ => PLAY_MAX_BEAM_STEPS,
                };
                let count = spec_sim_result(sim_m, steps as nat, now_ms).jewels;
                let after_sim = if dragging {
                    LevelModel { front: m0.front, ..spec_sim_model(sim_m, steps as nat, now_ms) }
                } else {
                    spec_sim_model(sim_m, steps as nat, now_ms)
                };
                let solved = !in_solution && !dragging && count == spec_count_gems(m0.front);
                let state1 = if old(self).game_state == GameState::Playing && solved {
                    GameState::ShowingSolution(now_ms)
                } else {
                    old(self).game_state
                };
                let after_tickle = spec_tickle(
                    after_sim,
                    old(self).last_map_pos,
                    cursor,
                    now_ms,
                );
                let intro_over = match old(self).game_state {
                    GameState::ShowingNewLevel(t0) => now_ms - t0 > NEW_LEVEL_INTRO_MS,
                    _ => false,
                };
                &&& out.jewel_ray_count == count
                &&& out.sound == (if in_solution && count > old(self).last_jewel_ray_count {
                    Some(SoundEffect::GemSolved)
                } else if dragging && count > old(self).last_jewel_ray_count {
                    Some(SoundEffect::Gem)
                } else {
                    Option::<SoundEffect>::None
                })
                &&& final(self).game_state == (if intro_over {
                    GameState::Playing
                } else {
                    state1
                })
                &&& final(self).level@ == (if intro_over {
                    spec_movable_effects(
                        after_tickle,
                        TileEffect::SizedFadeIn {
                            time_ms: now_ms,
                            start_scale_pct: INTRO_FADE_SCALE_PCT,
                            duration_ms: INTRO_FADE_MS,
                        },
                    )
                } else {
                    after_tickle
                })
            }),
    {
        let ghost m0 = self.level@;
        let jewel_ray_count: u32;
        let mut sound: Option<SoundEffect> = None;
        match self.game_state {
            GameState::ShowingSolution(start) => {
                let steps = ((now_ms - start) / SOLUTION_STEP_MS) as usize;
                jewel_ray_count = self.level.update_ray(steps, now_ms);
                if jewel_ray_count > self.last_jewel_ray_count {
                    sound = Some(SoundEffect::GemSolved);
                }
            },
            _ => {
                if self.drag.is_grabbed() {
                    let tm = self.drag.tile_move.unwrap();
                    // Let the beam see the dragged piece at its current
                    // logical cell, then vacate the cell again.
                    self.level.set_front_tile(tm.map_x, tm.map_y, tm.tile);
                    jewel_ray_count = self.level.update_ray(PLAY_MAX_BEAM_STEPS, now_ms);
                    if jewel_ray_count > self.last_jewel_ray_count {
                        sound = Some(SoundEffect::Gem);
                    }
                    self.level.set_front_tile(tm.map_x, tm.map_y, Tile::EmptyPiece);
                    proof {
                        lemma_offset_in_grid(
                            m0.width,
                            m0.height,
                            tm.map_x as int,
                            tm.map_y as int,
                        );
                        lemma_code_tile_round_trip(
                            m0.front[m0.offset_of(tm.map_x as int, tm.map_y as int)],
                        );
                        assert(self.level@.front =~= m0.front);
                    }
                } else {
                    jewel_ray_count = self.level.update_ray(PLAY_MAX_BEAM_STEPS, now_ms);
                    let solved = jewel_ray_count == self.level.count_jewels();
                    if self.game_state == GameState::Playing && solved {
                        self.game_state = GameState::ShowingSolution(now_ms);
                    }
                }
            },
        }
        self.last_jewel_ray_count = jewel_ray_count;
        // The hover nudge on a freshly entered movable piece.
        let ghost before_tickle = self.level@;
        let map_pos = to_level_pos(&self.level, &cursor);
        match map_pos {
            Some((map_x, map_y)) => {
                if self.level.front_tile(map_x, map_y).is_movable() {
                    let tickle_piece = match self.last_map_pos {
                        None => true,
                        Some((old_x, old_y)) => !(old_x == map_x && old_y == map_y),
                    };
                    if tickle_piece {
                        self.level.set_effect(
                            map_x,
                            map_y,
                            TileEffect::Punch { time_ms: now_ms, dx: 5, dy: 5 },
                        );
                    }
                }
            },
            None => {},
        }
        proof {
            assert(self.level@ == spec_tickle(
                before_tickle,
                old(self).last_map_pos,
                cursor,
                now_ms,
            ));
        }
        self.last_map_pos = map_pos;
        // The intro overlay has run its course: reveal the pieces and play.
        match self.game_state {
            GameState::ShowingNewLevel(started) => {
                if now_ms - started > NEW_LEVEL_INTRO_MS {
                    let ghost before_fade = self.level@;
                    self.level.tile_movable_effect(
                        TileEffect::SizedFadeIn {
                            time_ms: now_ms,
                            start_scale_pct: INTRO_FADE_SCALE_PCT,
                            duration_ms: INTRO_FADE_MS,
                        },
                    );
                    self.game_state = GameState::Playing;
                    proof {
                        assert(self.level@.effects =~= spec_movable_effects(
                            before_fade,
                            TileEffect::SizedFadeIn {
                                time_ms: now_ms,
                                start_scale_pct: INTRO_FADE_SCALE_PCT,
                                duration_ms: INTRO_FADE_MS,
                            },
                        ).effects);
                    }
                }
            },
            _ => {},
        }
        TickOutcome { jewel_ray_count, sound }
    }

    /// The escape key toggles the in-game menu while playing.
    pub fn key_press(&mut self, escape: bool, pressed: bool) -> (action: PageAction)
        requires
            old(self).wf(),
        ensures
            final(self).wf(),
            action == PageAction::NoAction,
            final(self).game_state == (if escape && pressed {
                if old(self).game_state == GameState::Playing {
                    GameState::InGameMenu
                } else if old(self).game_state == GameState::InGameMenu {
                    GameState::Playing
                } else {
                    old(self).game_state
                }
            } else {
                old(self).game_state
            }),
            final(self).level@ == old(self).level@,
            final(self).drag == old(self).drag,
            final(self).level_no == old(self).level_no,
            final(self).last_jewel_ray_count == old(self).last_jewel_ray_count,
            final(self).last_map_pos == old(self).last_map_pos,
    {
        if pressed && escape {
            if self.game_state == GameState::Playing {
                self.game_state = GameState::InGameMenu;
            } else if self.game_state == GameState::InGameMenu {
                self.game_state = GameState::Playing;
            }
        }
        PageAction::NoAction
    }
}

} // verus!
