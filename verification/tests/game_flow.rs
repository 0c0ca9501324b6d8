use beam_puzzle::game::{GameSession, GameState, SoundEffect, NEW_LEVEL_INTRO_MS};
use beam_puzzle::geom::Vec2i;
use beam_puzzle::level::{Level, TileEffect};
use beam_puzzle::tile::Tile;
use beam_puzzle::ui::PageAction;

fn make_buffer(w: u8, h: u8, front: &[u8]) -> Vec<u8> {
    let n = w as usize * h as usize;
    assert_eq!(front.len(), n);
    let mut data = vec![0u8, w, h, 1];
    data.extend_from_slice(&vec![53u8; n]);
    data.extend_from_slice(front);
    data.extend_from_slice(&vec![0u8; n]);
    data
}

/// Source, one movable mirror out of the way, and a gem down a straight
/// lane: solvable by the beam alone.
fn lane_level() -> Level {
    let front = [
        15, 15, 15, 15, 15, //
        23, 0, 49, 0, 15, //
        15, 26, 0, 0, 15, //
        15, 15, 15, 15, 15,
    ];
    Level::load_level(&make_buffer(5, 4, &front)).unwrap()
}

fn off_grid_cursor() -> Vec2i {
    Vec2i::new(10_000, 10_000)
}

#[test]
fn new_session_starts_in_the_intro() {
    let s = GameSession::new(lane_level(), 3);
    assert_eq!(s.level_no, 3);
    assert_eq!(s.game_state, GameState::ShowingNewLevel(0));
    assert_eq!(s.last_jewel_ray_count, 0);
}

#[test]
fn intro_ends_after_its_overlay_time() {
    let mut s = GameSession::new(lane_level(), 1);
    s.tick(NEW_LEVEL_INTRO_MS, off_grid_cursor());
    assert_eq!(s.game_state, GameState::ShowingNewLevel(0)); // not strictly past it yet
    s.tick(NEW_LEVEL_INTRO_MS + 1, off_grid_cursor());
    assert_eq!(s.game_state, GameState::Playing);
    // the reveal: movable pieces fade back in from triple size
    assert!(matches!(
        s.level.effect(1, 2),
        TileEffect::SizedFadeIn { .. }
    ));
}

#[test]
fn solving_the_level_starts_the_solution_animation() {
    let mut s = GameSession::new(lane_level(), 1);
    s.game_state = GameState::Playing;
    let out = s.tick(100, off_grid_cursor());
    // the lane level is already solved: one gem, one crossing
    assert_eq!(out.jewel_ray_count, 1);
    assert_eq!(s.game_state, GameState::ShowingSolution(100));
}

#[test]
fn solution_animation_grows_with_time_and_pings_once() {
    let mut s = GameSession::new(lane_level(), 1);
    s.game_state = GameState::ShowingSolution(0);
    // too early: the step budget is zero cells
    let out = s.tick(40, off_grid_cursor());
    assert_eq!(out.jewel_ray_count, 0);
    assert_eq!(out.sound, None);
    // enough budget to reach the gem: the solved sound plays once
    let out = s.tick(500, off_grid_cursor());
    assert_eq!(out.jewel_ray_count, 1);
    assert_eq!(out.sound, Some(SoundEffect::GemSolved));
    // and only once: the count did not rise again
    let out = s.tick(600, off_grid_cursor());
    assert_eq!(out.jewel_ray_count, 1);
    assert_eq!(out.sound, None);
}

#[test]
fn hovering_a_movable_piece_nudges_it_once() {
    let mut s = GameSession::new(lane_level(), 1);
    s.game_state = GameState::Playing;
    // the cursor sits over the movable mirror at cell (1,2)
    let cursor = Vec2i::new(64 + 10, 128 + 10);
    s.tick(50, cursor);
    assert_eq!(
        s.level.effect(1, 2),
        TileEffect::Punch { time_ms: 50, dx: 5, dy: 5 }
    );
    assert_eq!(s.last_map_pos, Some((1, 2)));
    // staying on the same cell does not re-punch
    s.level.set_effect(1, 2, TileEffect::NoEffect);
    s.tick(80, cursor);
    assert_eq!(s.level.effect(1, 2), TileEffect::NoEffect);
}

#[test]
fn escape_toggles_the_menu() {
    let mut s = GameSession::new(lane_level(), 1);
    s.game_state = GameState::Playing;
    assert_eq!(s.key_press(true, true), PageAction::NoAction);
    assert_eq!(s.game_state, GameState::InGameMenu);
    s.key_press(true, true);
    assert_eq!(s.game_state, GameState::Playing);
    // releases and other keys change nothing
    s.key_press(true, false);
    assert_eq!(s.game_state, GameState::Playing);
    s.key_press(false, true);
    assert_eq!(s.game_state, GameState::Playing);
}

#[test]
fn clicks_only_work_during_play() {
    let mut s = GameSession::new(lane_level(), 1);
    // during the intro a press grabs nothing
    s.mouse_click(true, Vec2i::new(64 + 10, 128 + 10));
    assert!(!s.drag.is_grabbed());
    s.game_state = GameState::Playing;
    s.mouse_click(true, Vec2i::new(64 + 10, 128 + 10));
    assert!(s.drag.is_grabbed());
    assert_eq!(s.level.front_tile(1, 2), Tile::EmptyPiece);
    // release puts the piece back
    s.mouse_click(false, Vec2i::new(64 + 10, 128 + 10));
    assert!(!s.drag.is_grabbed());
    assert_eq!(s.level.front_tile(1, 2), Tile::MovableTopLeft);
}

#[test]
fn beam_sees_the_dragged_piece_at_its_cell() {
    // dragging the mirror into the lane bends the beam away from the gem
    let front = [
        15, 15, 15, 15, 15, //
        23, 0, 49, 0, 15, //
        15, 26, 0, 0, 15, //
        15, 15, 15, 15, 15,
    ];
    let lvl = Level::load_level(&make_buffer(5, 4, &front)).unwrap();
    let mut s = GameSession::new(lvl, 1);
    s.game_state = GameState::Playing;
    // grab the mirror and slide it up into the lane at (1,1)
    s.mouse_click(true, Vec2i::new(64 + 32, 128 + 32));
    s.mouse_move(Vec2i::new(64 + 32, 128 + 32 - 64));
    let out = s.tick(10, off_grid_cursor());
    // the beam now turns at the mirror before the gem: nothing is crossed
    assert_eq!(out.jewel_ray_count, 0);
    // the grabbed cell is vacated again after the frame
    assert_eq!(s.level.front_tile(1, 1), Tile::EmptyPiece);
    s.mouse_click(false, Vec2i::new(64 + 32, 128 + 32 - 64));
    assert_eq!(s.level.front_tile(1, 1), Tile::MovableTopLeft);
}

#[test]
fn advancing_hands_back_the_progress_action() {
    let mut s = GameSession::new(lane_level(), 4);
    let action = s.advance_level(lane_level(), 7000);
    assert_eq!(action, PageAction::OpenLevel(5));
    assert_eq!(s.level_no, 5);
    assert_eq!(s.game_state, GameState::ShowingNewLevel(7000));
    // the fresh level's movable pieces start hidden
    assert_eq!(s.level.effect(1, 2), TileEffect::Hide);
}

#[test]
fn entering_resets_the_page() {
    let mut s = GameSession::new(lane_level(), 2);
    s.game_state = GameState::Playing;
    s.last_jewel_ray_count = 1;
    s.enter(lane_level());
    assert_eq!(s.game_state, GameState::ShowingNewLevel(0));
    assert_eq!(s.last_jewel_ray_count, 0);
    assert_eq!(s.level_no, 2);
    assert_eq!(s.level.effect(1, 2), TileEffect::Hide);
}
