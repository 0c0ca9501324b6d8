use beam_puzzle::tile::{beam_direction_to_vec, decode_tile, BeamDirection, Tile};

fn all_tiles() -> Vec<Tile> {
    vec![
        Tile::EmptyPiece,
        Tile::WallTerminatorTop,
        Tile::WallHorizontal,
        Tile::WallVertical,
        Tile::WallTurnTopLeft,
        Tile::WallTurnTopRight,
        Tile::PassHorizontal,
        Tile::PassVertical,
        Tile::RayVertical,
        Tile::RayHorizontal,
        Tile::RayCross,
        Tile::WallTerminatorLeft,
        Tile::WallBlocker,
        Tile::WallTerminatorRight,
        Tile::WallTurnBottomLeft,
        Tile::WallTurnBottomRight,
        Tile::RayTeleport1,
        Tile::RaySourceUp,
        Tile::RaySourceRight,
        Tile::ImmovableTopLeft,
        Tile::ImmovableTopRight,
        Tile::MovableTopLeft,
        Tile::MovableTopRight,
        Tile::WallTerminatorBottom,
        Tile::WallTLeft,
        Tile::WallTRight,
        Tile::RayTeleport2,
        Tile::RaySourceDown,
        Tile::RaySourceLeft,
        Tile::ImmovableBottomLeft,
        Tile::ImmovableBottomRight,
        Tile::MovableBottomLeft,
        Tile::MovableBottomRight,
        Tile::Floor4,
        Tile::Floor5,
        Tile::Floor6,
        Tile::Floor7,
        Tile::Solid,
        Tile::WallTDown,
        Tile::WallTUp,
        Tile::GemRed,
        Tile::GemGreen,
        Tile::GemYellow,
        Tile::GemPurple,
        Tile::Floor1,
        Tile::Floor2,
        Tile::Floor3,
    ]
}

#[test]
fn tile_codes_round_trip() {
    for t in all_tiles() {
        assert_eq!(Tile::from_code(t.code()), Some(t));
        assert_eq!(decode_tile(t.code()), t);
    }
}

#[test]
fn unused_codes_decode_to_none() {
    for c in [2u8, 12, 13, 17, 18, 28, 30, 31, 32, 56, 100, 255] {
        assert_eq!(Tile::from_code(c), None);
    }
}

#[test]
fn tile_codes_match_the_format() {
    assert_eq!(Tile::EmptyPiece.code(), 0);
    assert_eq!(Tile::WallBlocker.code(), 15);
    assert_eq!(Tile::RayTeleport1.code(), 21);
    assert_eq!(Tile::RaySourceRight.code(), 23);
    assert_eq!(Tile::MovableTopLeft.code(), 26);
    assert_eq!(Tile::RayTeleport2.code(), 35);
    assert_eq!(Tile::GemRed.code(), 49);
    assert_eq!(Tile::Floor3.code(), 55);
}

#[test]
fn is_movable_exactly_the_four_movable_corners() {
    for t in all_tiles() {
        let expected = matches!(
            t,
            Tile::MovableBottomLeft
                | Tile::MovableBottomRight
                | Tile::MovableTopLeft
                | Tile::MovableTopRight
        );
        assert_eq!(t.is_movable(), expected, "is_movable wrong for {:?}", t);
    }
}

#[test]
fn is_ray_source_exactly_the_four_sources() {
    for t in all_tiles() {
        let expected = matches!(
            t,
            Tile::RaySourceUp | Tile::RaySourceRight | Tile::RaySourceDown | Tile::RaySourceLeft
        );
        assert_eq!(t.is_ray_source(), expected);
    }
}

#[test]
fn is_a_gem_exactly_the_four_gems() {
    for t in all_tiles() {
        let expected = matches!(
            t,
            Tile::GemRed | Tile::GemGreen | Tile::GemYellow | Tile::GemPurple
        );
        assert_eq!(t.is_a_gem(), expected);
    }
}

#[test]
fn is_teleport_exactly_the_two_symbols() {
    for t in all_tiles() {
        let expected = matches!(t, Tile::RayTeleport1 | Tile::RayTeleport2);
        assert_eq!(t.is_teleport(), expected);
    }
}

#[test]
fn pass_tiles_block_one_axis_only() {
    assert!(Tile::PassHorizontal.is_ray_blocker(BeamDirection::Up));
    assert!(Tile::PassHorizontal.is_ray_blocker(BeamDirection::Down));
    assert!(!Tile::PassHorizontal.is_ray_blocker(BeamDirection::Left));
    assert!(!Tile::PassHorizontal.is_ray_blocker(BeamDirection::Right));
    assert!(Tile::PassVertical.is_ray_blocker(BeamDirection::Left));
    assert!(Tile::PassVertical.is_ray_blocker(BeamDirection::Right));
    assert!(!Tile::PassVertical.is_ray_blocker(BeamDirection::Up));
    assert!(!Tile::PassVertical.is_ray_blocker(BeamDirection::Down));
}

#[test]
fn walls_block_every_direction() {
    let walls = [
        Tile::WallBlocker,
        Tile::WallHorizontal,
        Tile::WallVertical,
        Tile::WallTerminatorTop,
        Tile::WallTerminatorBottom,
        Tile::WallTerminatorLeft,
        Tile::WallTerminatorRight,
        Tile::WallTurnTopLeft,
        Tile::WallTurnTopRight,
        Tile::WallTurnBottomLeft,
        Tile::WallTurnBottomRight,
        Tile::WallTLeft,
        Tile::WallTRight,
        Tile::WallTUp,
        Tile::WallTDown,
    ];
    let dirs = [
        BeamDirection::Up,
        BeamDirection::Down,
        BeamDirection::Left,
        BeamDirection::Right,
    ];
    for w in walls {
        for d in dirs {
            assert!(w.is_ray_blocker(d), "{:?} should block {:?}", w, d);
        }
    }
    for d in dirs {
        assert!(!Tile::EmptyPiece.is_ray_blocker(d));
        assert!(!Tile::GemRed.is_ray_blocker(d));
        assert!(!Tile::MovableTopLeft.is_ray_blocker(d));
        assert!(!Tile::RayTeleport1.is_ray_blocker(d));
    }
}

#[test]
fn mirror_reflection_table() {
    let up = BeamDirection::Up;
    let down = BeamDirection::Down;
    let left = BeamDirection::Left;
    let right = BeamDirection::Right;
    for tl in [Tile::MovableTopLeft, Tile::ImmovableTopLeft] {
        assert_eq!(tl.mirror_reflect(up), Some(right));
        assert_eq!(tl.mirror_reflect(left), Some(down));
        assert_eq!(tl.mirror_reflect(down), None);
        assert_eq!(tl.mirror_reflect(right), None);
    }
    for tr in [Tile::MovableTopRight, Tile::ImmovableTopRight] {
        assert_eq!(tr.mirror_reflect(right), Some(down));
        assert_eq!(tr.mirror_reflect(up), Some(left));
        assert_eq!(tr.mirror_reflect(down), None);
        assert_eq!(tr.mirror_reflect(left), None);
    }
    for bl in [Tile::MovableBottomLeft, Tile::ImmovableBottomLeft] {
        assert_eq!(bl.mirror_reflect(down), Some(right));
        assert_eq!(bl.mirror_reflect(left), Some(up));
        assert_eq!(bl.mirror_reflect(up), None);
        assert_eq!(bl.mirror_reflect(right), None);
    }
    for br in [Tile::MovableBottomRight, Tile::ImmovableBottomRight] {
        assert_eq!(br.mirror_reflect(down), Some(left));
        assert_eq!(br.mirror_reflect(right), Some(up));
        assert_eq!(br.mirror_reflect(up), None);
        assert_eq!(br.mirror_reflect(left), None);
    }
    assert_eq!(Tile::EmptyPiece.mirror_reflect(up), None);
    assert_eq!(Tile::GemRed.mirror_reflect(down), None);
}

#[test]
fn beam_direction_vectors() {
    let v = beam_direction_to_vec(&BeamDirection::Up);
    assert_eq!((v.x, v.y), (0, 1));
    let v = beam_direction_to_vec(&BeamDirection::Down);
    assert_eq!((v.x, v.y), (0, -1));
    let v = beam_direction_to_vec(&BeamDirection::Left);
    assert_eq!((v.x, v.y), (-1, 0));
    let v = beam_direction_to_vec(&BeamDirection::Right);
    assert_eq!((v.x, v.y), (1, 0));
}

#[test]
fn source_directions() {
    assert_eq!(Tile::RaySourceUp.source_direction(), BeamDirection::Up);
    assert_eq!(Tile::RaySourceDown.source_direction(), BeamDirection::Down);
    assert_eq!(Tile::RaySourceLeft.source_direction(), BeamDirection::Left);
    assert_eq!(Tile::RaySourceRight.source_direction(), BeamDirection::Right);
}

#[test]
fn default_tile_is_empty() {
    assert_eq!(Tile::default(), Tile::EmptyPiece);
}
