use beam_puzzle::level::{Level, LevelLoadError, TileEffect};
use beam_puzzle::tile::Tile;

/// A level file image: reserved byte, width, height, has-solution flag,
/// then the back, front and solution layers row-major.
fn make_buffer(w: u8, h: u8, back: &[u8], front: &[u8]) -> Vec<u8> {
    let n = w as usize * h as usize;
    assert_eq!(back.len(), n);
    assert_eq!(front.len(), n);
    let mut data = vec![0u8, w, h, 1];
    data.extend_from_slice(back);
    data.extend_from_slice(front);
    data.extend_from_slice(&vec![0u8; n]);
    data
}

#[test]
fn load_reproduces_every_cell() {
    let back = [
        53, 54, 55, //
        53, 0, 53, //
        42, 43, 44,
    ];
    let front = [
        15, 0, 49, //
        23, 26, 21, //
        0, 35, 46,
    ];
    let data = make_buffer(3, 3, &back, &front);
    let lvl = Level::load_level(&data).unwrap();
    assert_eq!(lvl.width(), 3);
    assert_eq!(lvl.height(), 3);
    for y in 0..3u32 {
        for x in 0..3u32 {
            let i = (y * 3 + x) as usize;
            assert_eq!(lvl.back_tile_idx(x, y), back[i]);
            assert_eq!(lvl.front_tile_idx(x, y), front[i]);
            assert_eq!(lvl.back_tile(x, y), Tile::from_code(back[i]).unwrap());
            assert_eq!(lvl.front_tile(x, y), Tile::from_code(front[i]).unwrap());
            // the overlay starts empty and no effect is set
            assert_eq!(lvl.ray_tile_idx(x, y), 0);
            assert_eq!(lvl.effect(x, y), TileEffect::NoEffect);
        }
    }
}

#[test]
fn load_rejects_short_header() {
    let data = vec![0u8, 2];
    assert!(matches!(Level::load_level(&data), Err(LevelLoadError::Truncated)));
}

#[test]
fn load_rejects_truncated_layers() {
    let mut data = make_buffer(3, 3, &[0; 9], &[0; 9]);
    data.truncate(20);
    assert!(matches!(Level::load_level(&data), Err(LevelLoadError::Truncated)));
}

#[test]
fn load_rejects_zero_dimensions() {
    let data = vec![0u8, 0, 3, 1];
    assert!(matches!(Level::load_level(&data), Err(LevelLoadError::BadDimensions)));
    let data = vec![0u8, 3, 0, 1];
    assert!(matches!(Level::load_level(&data), Err(LevelLoadError::BadDimensions)));
}

#[test]
fn load_rejects_unknown_tile_code() {
    let mut front = [0u8; 9];
    front[4] = 2; // no tile has code 2
    let data = make_buffer(3, 3, &[0; 9], &front);
    assert!(matches!(Level::load_level(&data), Err(LevelLoadError::InvalidTile)));
}

#[test]
fn set_front_tile_reads_back() {
    let data = make_buffer(3, 3, &[0; 9], &[0; 9]);
    let mut lvl = Level::load_level(&data).unwrap();
    lvl.set_front_tile(1, 2, Tile::GemYellow);
    assert_eq!(lvl.front_tile(1, 2), Tile::GemYellow);
    assert_eq!(lvl.front_tile_idx(1, 2), 51);
    assert_eq!(lvl.front_tile(0, 0), Tile::EmptyPiece);
}

#[test]
fn count_jewels_counts_every_gem_once() {
    let front = [
        49, 0, 50, //
        0, 51, 0, //
        52, 0, 49,
    ];
    let data = make_buffer(3, 3, &[0; 9], &front);
    let lvl = Level::load_level(&data).unwrap();
    assert_eq!(lvl.count_jewels(), 5);
}

#[test]
fn count_jewels_empty_grid() {
    let data = make_buffer(2, 2, &[0; 4], &[0; 4]);
    let lvl = Level::load_level(&data).unwrap();
    assert_eq!(lvl.count_jewels(), 0);
}

#[test]
fn tile_movable_effect_touches_only_movable_pieces() {
    let front = [
        26, 0, 24, //
        0, 41, 49,
    ];
    let data = make_buffer(3, 2, &[0; 6], &front);
    let mut lvl = Level::load_level(&data).unwrap();
    lvl.tile_movable_effect(TileEffect::Hide);
    assert_eq!(lvl.effect(0, 0), TileEffect::Hide); // movable corner
    assert_eq!(lvl.effect(1, 1), TileEffect::Hide); // movable corner
    assert_eq!(lvl.effect(1, 0), TileEffect::NoEffect); // empty
    assert_eq!(lvl.effect(2, 0), TileEffect::NoEffect); // immovable corner
    assert_eq!(lvl.effect(2, 1), TileEffect::NoEffect); // gem
}

#[test]
fn set_effect_reads_back() {
    let data = make_buffer(2, 2, &[0; 4], &[0; 4]);
    let mut lvl = Level::load_level(&data).unwrap();
    let e = TileEffect::Punch { time_ms: 10, dx: 5, dy: 5 };
    lvl.set_effect(1, 0, e);
    assert_eq!(lvl.effect(1, 0), e);
    assert_eq!(lvl.effect(0, 0), TileEffect::NoEffect);
}
