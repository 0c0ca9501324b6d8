use beam_puzzle::drag::TileDragController;
use beam_puzzle::geom::Vec2i;
use beam_puzzle::level::Level;
use beam_puzzle::tile::Tile;

fn make_buffer(w: u8, h: u8, back: &[u8], front: &[u8]) -> Vec<u8> {
    let n = w as usize * h as usize;
    assert_eq!(back.len(), n);
    assert_eq!(front.len(), n);
    let mut data = vec![0u8, w, h, 1];
    data.extend_from_slice(back);
    data.extend_from_slice(front);
    data.extend_from_slice(&vec![0u8; n]);
    data
}

/// A 5 by 3 grid with a movable corner at (1,1); the back layer gives
/// every cell a track except where a test takes it away.
fn drag_level(back_hole: Option<(usize, usize)>) -> Level {
    let mut back = vec![53u8; 15];
    if let Some((x, y)) = back_hole {
        back[y * 5 + x] = 0;
    }
    let mut front = vec![0u8; 15];
    front[5 + 1] = 26; // movable top-left corner at (1,1)
    Level::load_level(&make_buffer(5, 3, &back, &front)).unwrap()
}

#[test]
fn press_lifts_a_movable_tile() {
    let mut lvl = drag_level(None);
    let mut drag = TileDragController::new();
    let grabbed = drag.press(&mut lvl, 1, 1, Vec2i::new(96, 96));
    assert!(grabbed);
    assert!(drag.is_grabbed());
    // the tile is physically removed from the front layer while in flight
    assert_eq!(lvl.front_tile(1, 1), Tile::EmptyPiece);
}

#[test]
fn press_on_immovable_tile_does_nothing() {
    let mut lvl = drag_level(None);
    let mut drag = TileDragController::new();
    let grabbed = drag.press(&mut lvl, 2, 1, Vec2i::new(160, 96));
    assert!(!grabbed);
    assert!(!drag.is_grabbed());
}

#[test]
fn full_cell_drag_commits_the_cell() {
    let mut lvl = drag_level(None);
    let mut drag = TileDragController::new();
    drag.press(&mut lvl, 1, 1, Vec2i::new(96, 96));
    // exactly one cell width to the right, destination free and tracked
    let out = drag.mouse_move(&lvl, Vec2i::new(96 + 64, 96));
    assert_eq!((out.offset.x, out.offset.y), (0, 0));
    assert!(!out.collision);
    assert!(!out.hit.pos_x && !out.hit.neg_x && !out.hit.pos_y && !out.hit.neg_y);
    assert!(out.moved.pos_x);
    // the release writes the tile at the committed cell
    drag.release(&mut lvl);
    assert_eq!(lvl.front_tile(2, 1), Tile::MovableTopLeft);
    assert_eq!(lvl.front_tile(1, 1), Tile::EmptyPiece);
}

#[test]
fn drag_without_track_is_blocked_and_flags_the_axis() {
    // the destination's back-layer cell has no track: the piece stays put
    let mut lvl = drag_level(Some((2, 1)));
    let mut drag = TileDragController::new();
    drag.press(&mut lvl, 1, 1, Vec2i::new(96, 96));
    let out = drag.mouse_move(&lvl, Vec2i::new(96 + 64, 96));
    assert_eq!((out.offset.x, out.offset.y), (0, 0));
    assert!(out.hit.pos_x);
    assert!(!out.moved.pos_x);
    assert!(!out.collision); // it never moved, so no bump
    drag.release(&mut lvl);
    assert_eq!(lvl.front_tile(1, 1), Tile::MovableTopLeft);
    assert_eq!(lvl.front_tile(2, 1), Tile::EmptyPiece);
}

#[test]
fn drag_into_occupied_cell_is_blocked() {
    let mut lvl = drag_level(None);
    lvl.set_front_tile(2, 1, Tile::Solid);
    let mut drag = TileDragController::new();
    drag.press(&mut lvl, 1, 1, Vec2i::new(96, 96));
    let out = drag.mouse_move(&lvl, Vec2i::new(96 + 64, 96));
    assert!(out.hit.pos_x);
    drag.release(&mut lvl);
    assert_eq!(lvl.front_tile(1, 1), Tile::MovableTopLeft);
}

#[test]
fn sliding_into_an_obstacle_reports_a_bump() {
    // two cells of cursor travel: the first commits, the second strikes an
    // occupied cell within the same event — the audible-collision case
    let mut lvl = drag_level(None);
    lvl.set_front_tile(3, 1, Tile::Solid);
    let mut drag = TileDragController::new();
    drag.press(&mut lvl, 1, 1, Vec2i::new(96, 96));
    let out = drag.mouse_move(&lvl, Vec2i::new(96 + 128, 96));
    assert!(out.moved.pos_x);
    assert!(out.hit.pos_x);
    assert!(out.collision);
    drag.release(&mut lvl);
    assert_eq!(lvl.front_tile(2, 1), Tile::MovableTopLeft);
}

#[test]
fn half_cell_drag_keeps_the_cell_and_the_offset() {
    let mut lvl = drag_level(None);
    let mut drag = TileDragController::new();
    drag.press(&mut lvl, 1, 1, Vec2i::new(96, 96));
    // 30 units: under the half-cell threshold, so the cell holds and the
    // sprite floats by the sub-cell offset
    let out = drag.mouse_move(&lvl, Vec2i::new(96 + 30, 96));
    assert_eq!((out.offset.x, out.offset.y), (30, 0));
    assert!(!out.moved.pos_x && !out.hit.pos_x);
    drag.release(&mut lvl);
    assert_eq!(lvl.front_tile(1, 1), Tile::MovableTopLeft);
}

#[test]
fn grid_edge_blocks_the_drag() {
    // a movable piece in the corner cannot leave the grid
    let mut back = vec![53u8; 15];
    back.copy_from_slice(&[53; 15]);
    let mut front = vec![0u8; 15];
    front[0] = 26; // movable at (0,0)
    let mut lvl = Level::load_level(&make_buffer(5, 3, &back, &front)).unwrap();
    let mut drag = TileDragController::new();
    drag.press(&mut lvl, 0, 0, Vec2i::new(32, 32));
    let out = drag.mouse_move(&lvl, Vec2i::new(32 - 64, 32));
    assert!(out.hit.neg_x);
    let out = drag.mouse_move(&lvl, Vec2i::new(32, 32 - 64));
    assert!(out.hit.neg_y);
    drag.release(&mut lvl);
    assert_eq!(lvl.front_tile(0, 0), Tile::MovableTopLeft);
}

#[test]
fn release_while_idle_is_a_no_op() {
    let mut lvl = drag_level(None);
    let mut drag = TileDragController::new();
    drag.release(&mut lvl);
    assert!(!drag.is_grabbed());
    assert_eq!(lvl.front_tile(1, 1), Tile::MovableTopLeft);
}

#[test]
fn vertical_drag_commits_downward() {
    let mut lvl = drag_level(None);
    let mut drag = TileDragController::new();
    drag.press(&mut lvl, 1, 1, Vec2i::new(96, 96));
    let out = drag.mouse_move(&lvl, Vec2i::new(96, 96 + 64));
    assert!(out.moved.pos_y);
    assert_eq!((out.offset.x, out.offset.y), (0, 0));
    drag.release(&mut lvl);
    assert_eq!(lvl.front_tile(1, 2), Tile::MovableTopLeft);
}
