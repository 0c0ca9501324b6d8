use beam_puzzle::level::{Level, TileEffect};
use beam_puzzle::tile::Tile;

fn make_buffer(w: u8, h: u8, front: &[u8]) -> Vec<u8> {
    let n = w as usize * h as usize;
    assert_eq!(front.len(), n);
    let mut data = vec![0u8, w, h, 1];
    data.extend_from_slice(&vec![53u8; n]); // back: plain floor track
    data.extend_from_slice(front);
    data.extend_from_slice(&vec![0u8; n]);
    data
}

/// A bordered grid with one straight lane: source → empty → gem → empty →
/// blocker.
fn straight_lane_level() -> Level {
    let front = [
        15, 15, 15, 15, 15, //
        23, 0, 49, 0, 15, //
        15, 15, 15, 15, 15,
    ];
    Level::load_level(&make_buffer(5, 3, &front)).unwrap()
}

#[test]
fn straight_path_counts_one_gem() {
    let mut lvl = straight_lane_level();
    let crossed = lvl.update_ray(500, 0);
    assert_eq!(crossed, 1);
    // the beam drew a horizontal ray over the lane, stopping at the wall
    assert_eq!(lvl.ray_tile(1, 1), Tile::RayHorizontal);
    assert_eq!(lvl.ray_tile(2, 1), Tile::RayHorizontal);
    assert_eq!(lvl.ray_tile(3, 1), Tile::RayHorizontal);
    assert_eq!(lvl.ray_tile(4, 1), Tile::EmptyPiece);
    assert_eq!(lvl.ray_tile(0, 1), Tile::EmptyPiece);
}

#[test]
fn second_call_counts_one_again_not_two() {
    let mut lvl = straight_lane_level();
    assert_eq!(lvl.update_ray(500, 0), 1);
    // no grid change, same budget: the count is per call, not cumulative
    assert_eq!(lvl.update_ray(500, 0), 1);
    assert_eq!(lvl.update_ray(500, 16), 1);
}

#[test]
fn crossed_count_never_exceeds_total_gems() {
    let mut lvl = straight_lane_level();
    let total = lvl.count_jewels();
    for t in 0..5u64 {
        let crossed = lvl.update_ray(500, t * 16);
        assert!(crossed <= total);
    }
}

#[test]
fn zero_budget_counts_nothing_and_leaves_overlay_empty() {
    let mut lvl = straight_lane_level();
    // even after a full pass has drawn an overlay, a zero-budget call
    // clears it entirely
    lvl.update_ray(500, 0);
    let crossed = lvl.update_ray(0, 1000);
    assert_eq!(crossed, 0);
    for y in 0..3u32 {
        for x in 0..5u32 {
            assert_eq!(lvl.ray_tile(x, y), Tile::EmptyPiece);
        }
    }
}

#[test]
fn fresh_gem_crossing_sets_a_punch_effect() {
    let mut lvl = straight_lane_level();
    lvl.update_ray(500, 240);
    // travelling right: a 40-unit nudge along +x, stamped with the call time
    assert_eq!(
        lvl.effect(2, 1),
        TileEffect::Punch { time_ms: 240, dx: 40, dy: 0 }
    );
    // a repeat crossing (the previous overlay already lit the gem) keeps
    // the old effect rather than re-punching
    lvl.update_ray(500, 500);
    assert_eq!(
        lvl.effect(2, 1),
        TileEffect::Punch { time_ms: 240, dx: 40, dy: 0 }
    );
}

#[test]
fn beam_without_source_draws_nothing() {
    let front = [
        0, 0, //
        0, 49,
    ];
    let mut lvl = Level::load_level(&make_buffer(2, 2, &front)).unwrap();
    // the degenerate fallback starts at the origin facing up and leaves the
    // source cell upward, wrapping; all cells here are passable, so the
    // beam just draws and never crosses the gem twice in one call
    let crossed = lvl.update_ray(500, 0);
    assert_eq!(crossed, 0);
    assert_eq!(lvl.update_ray(500, 0), 0);
}

#[test]
fn mirror_turns_beam_after_pause() {
    // source fires up at the bottom; a top-left corner mirror turns the
    // beam right; it then runs to the border wall
    let front = [
        15, 15, 15, 15, 15, //
        15, 26, 0, 49, 15, //
        15, 0, 15, 15, 15, //
        15, 22, 15, 15, 15, //
        15, 15, 15, 15, 15,
    ];
    let mut lvl = Level::load_level(&make_buffer(5, 5, &front)).unwrap();
    // first call: the beam pauses on the mirror cell
    assert_eq!(lvl.update_ray(500, 0), 0);
    assert_eq!(lvl.ray_tile(1, 2), Tile::RayVertical);
    assert_eq!(lvl.ray_tile(1, 1), Tile::EmptyPiece); // never drawn on a mirror
    assert_eq!(lvl.ray_tile(2, 1), Tile::EmptyPiece); // not yet advanced
    // still paused before the threshold
    assert_eq!(lvl.update_ray(500, 74), 0);
    assert_eq!(lvl.ray_tile(2, 1), Tile::EmptyPiece);
    // after 75 ms the beam continues rightward and crosses the gem
    assert_eq!(lvl.update_ray(500, 75), 1);
    assert_eq!(lvl.ray_tile(2, 1), Tile::RayHorizontal);
    assert_eq!(lvl.ray_tile(3, 1), Tile::RayHorizontal);
    assert_eq!(lvl.ray_tile(1, 1), Tile::EmptyPiece);
}

#[test]
fn mirror_dead_end_stops_beam_without_drawing() {
    // the beam arrives at a top-left mirror travelling right: not one of
    // its two valid incoming directions, so the beam stops at the mirror
    let front = [
        15, 15, 15, 15, 15, //
        23, 0, 26, 49, 15, //
        15, 15, 15, 15, 15,
    ];
    let mut lvl = Level::load_level(&make_buffer(5, 3, &front)).unwrap();
    assert_eq!(lvl.update_ray(500, 0), 0);
    assert_eq!(lvl.ray_tile(1, 1), Tile::RayHorizontal);
    assert_eq!(lvl.ray_tile(2, 1), Tile::EmptyPiece); // the mirror cell stays clear
    assert_eq!(lvl.ray_tile(3, 1), Tile::EmptyPiece); // the gem is never reached
    // and stays that way: a dead end is no pause point
    assert_eq!(lvl.update_ray(500, 1000), 0);
    assert_eq!(lvl.ray_tile(3, 1), Tile::EmptyPiece);
}

#[test]
fn teleport_continues_from_partner_cell() {
    // beam entering the first symbol cell continues from the second
    let front = [
        15, 15, 15, 15, 15, 15, 15, //
        23, 0, 21, 0, 21, 0, 15, //
        15, 15, 15, 15, 15, 15, 15,
    ];
    let mut lvl = Level::load_level(&make_buffer(7, 3, &front)).unwrap();
    // first call: the beam jumps to the partner and pauses there
    assert_eq!(lvl.update_ray(500, 0), 0);
    assert_eq!(lvl.ray_tile(1, 1), Tile::RayHorizontal);
    assert_eq!(lvl.ray_tile(2, 1), Tile::EmptyPiece); // entry teleport: no segment
    assert_eq!(lvl.ray_tile(3, 1), Tile::EmptyPiece); // skipped over
    assert_eq!(lvl.ray_tile(4, 1), Tile::EmptyPiece); // partner teleport: no segment
    // after the pause the beam continues from the partner, same direction
    assert_eq!(lvl.update_ray(500, 75), 0);
    assert_eq!(lvl.ray_tile(5, 1), Tile::RayHorizontal);
    assert_eq!(lvl.ray_tile(3, 1), Tile::EmptyPiece);
    assert_eq!(lvl.ray_tile(2, 1), Tile::EmptyPiece);
    assert_eq!(lvl.ray_tile(4, 1), Tile::EmptyPiece);
}

#[test]
fn teleport_works_from_either_end() {
    // beam entering the second symbol cell continues from the first
    let front = [
        15, 15, 15, 15, 15, 15, 15, //
        15, 0, 21, 0, 21, 0, 37, //
        15, 15, 15, 15, 15, 15, 15,
    ];
    let mut lvl = Level::load_level(&make_buffer(7, 3, &front)).unwrap();
    assert_eq!(lvl.update_ray(500, 0), 0);
    assert_eq!(lvl.ray_tile(5, 1), Tile::RayHorizontal);
    assert_eq!(lvl.ray_tile(4, 1), Tile::EmptyPiece);
    assert_eq!(lvl.update_ray(500, 75), 0);
    // continues left from the first symbol's cell
    assert_eq!(lvl.ray_tile(1, 1), Tile::RayHorizontal);
    assert_eq!(lvl.ray_tile(2, 1), Tile::EmptyPiece);
    assert_eq!(lvl.ray_tile(4, 1), Tile::EmptyPiece);
}

#[test]
fn crossing_rays_draw_a_cross() {
    // the beam runs right along the middle row, climbs at a bottom-right
    // mirror, comes back left along the row above, and is sent down at a
    // top-left mirror — crossing its own first leg
    let front = [
        15, 15, 15, 15, 15, 15, //
        15, 26, 0, 0, 27, 15, //
        23, 0, 0, 0, 41, 15, //
        15, 0, 15, 15, 15, 15, //
        15, 15, 15, 15, 15, 15,
    ];
    let mut lvl = Level::load_level(&make_buffer(6, 5, &front)).unwrap();
    // each turn pauses the beam for one call and 75 ms; walk the clock on
    let mut t = 0u64;
    for _ in 0..12 {
        lvl.update_ray(500, t);
        t += 75;
    }
    assert_eq!(lvl.ray_tile(1, 2), Tile::RayCross); // both legs meet here
    assert_eq!(lvl.ray_tile(2, 2), Tile::RayHorizontal);
    assert_eq!(lvl.ray_tile(3, 2), Tile::RayHorizontal);
    assert_eq!(lvl.ray_tile(2, 1), Tile::RayHorizontal);
    assert_eq!(lvl.ray_tile(3, 1), Tile::RayHorizontal);
    assert_eq!(lvl.ray_tile(1, 3), Tile::RayVertical); // the downward leg
    assert_eq!(lvl.ray_tile(4, 2), Tile::EmptyPiece); // mirror cells stay clear
    assert_eq!(lvl.ray_tile(4, 1), Tile::EmptyPiece);
    assert_eq!(lvl.ray_tile(1, 1), Tile::EmptyPiece);
}

#[test]
fn beam_stops_at_second_source() {
    let front = [
        15, 15, 15, 15, 15, //
        23, 0, 36, 49, 15, //
        15, 15, 15, 15, 15,
    ];
    let mut lvl = Level::load_level(&make_buffer(5, 3, &front)).unwrap();
    // the row-major scan finds the rightward source first; the beam stops
    // at the second source without drawing it and never reaches the gem
    assert_eq!(lvl.update_ray(500, 0), 0);
    assert_eq!(lvl.ray_tile(1, 1), Tile::RayHorizontal);
    assert_eq!(lvl.ray_tile(2, 1), Tile::EmptyPiece);
    assert_eq!(lvl.ray_tile(3, 1), Tile::EmptyPiece);
}
