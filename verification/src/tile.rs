use vstd::prelude::*;
use crate::geom::Vec2i;

verus! {

/// The closed set of tile kinds. Each variant is bound to a fixed byte code
/// (see `spec_tile_code`); the codes are the on-disk level format and are
/// non-contiguous on purpose — the gaps are unused codes that must stay
/// unused so existing level files keep their meaning.
#[derive(Clone, Copy, Debug, PartialEq, Eq, Structural)]
pub enum Tile {
    EmptyPiece,
    WallTerminatorTop,
    WallHorizontal,
    WallVertical,
    WallTurnTopLeft,
    WallTurnTopRight,
    PassHorizontal,
    PassVertical,
    RayVertical,
    RayHorizontal,
    RayCross,
    WallTerminatorLeft,
    WallBlocker,
    WallTerminatorRight,
    WallTurnBottomLeft,
    WallTurnBottomRight,
    RayTeleport1,
    RaySourceUp,
    RaySourceRight,
    ImmovableTopLeft,
    ImmovableTopRight,
    MovableTopLeft,
    MovableTopRight,
    WallTerminatorBottom,
    WallTLeft,
    WallTRight,
    RayTeleport2,
    RaySourceDown,
    RaySourceLeft,
    ImmovableBottomLeft,
    ImmovableBottomRight,
    MovableBottomLeft,
    MovableBottomRight,
    Floor4,
    Floor5,
    Floor6,
    Floor7,
    Solid,
    WallTDown,
    WallTUp,
    GemRed,
    GemGreen,
    GemYellow,
    GemPurple,
    Floor1,
    Floor2,
    Floor3,
}

/// A beam travel direction on the grid. `Up` decreases the row index.
#[derive(Clone, Copy, Debug, PartialEq, Eq, Structural)]
pub enum BeamDirection {
    Up,
    Left,
    Down,
    Right,
}

/// The byte code a tile is stored as in a level file.
pub open spec fn spec_tile_code(t: Tile) -> u8 {
    match t {
        Tile::EmptyPiece => 0,
        Tile::WallTerminatorTop => 1,
        Tile::WallHorizontal => 3,
        Tile::WallVertical => 4,
        Tile::WallTurnTopLeft => 5,
        Tile::WallTurnTopRight => 6,
        Tile::PassHorizontal => 7,
        Tile::PassVertical => 8,
        Tile::RayVertical => 9,
        Tile::RayHorizontal => 10,
        Tile::RayCross => 11,
        Tile::WallTerminatorLeft => 14,
        Tile::WallBlocker => 15,
        Tile::WallTerminatorRight => 16,
        Tile::WallTurnBottomLeft => 19,
        Tile::WallTurnBottomRight => 20,
        Tile::RayTeleport1 => 21,
        Tile::RaySourceUp => 22,
        Tile::RaySourceRight => 23,
        Tile::ImmovableTopLeft => 24,
        Tile::ImmovableTopRight => 25,
        Tile::MovableTopLeft => 26,
        Tile::MovableTopRight => 27,
        Tile::WallTerminatorBottom => 29,
        Tile::WallTLeft => 33,
        Tile::WallTRight => 34,
        Tile::RayTeleport2 => 35,
        Tile::RaySourceDown => 36,
        Tile::RaySourceLeft => 37,
        Tile::ImmovableBottomLeft => 38,
        Tile::ImmovableBottomRight => 39,
        Tile::MovableBottomLeft => 40,
        Tile::MovableBottomRight => 41,
        Tile::Floor4 => 42,
        Tile::Floor5 => 43,
        Tile::Floor6 => 44,
        Tile::Floor7 => 45,
        Tile::Solid => 46,
        Tile::WallTDown => 47,
        Tile::WallTUp => 48,
        Tile::GemRed => 49,
        Tile::GemGreen => 50,
        Tile::GemYellow => 51,
        Tile::GemPurple => 52,
        Tile::Floor1 => 53,
        Tile::Floor2 => 54,
        Tile::Floor3 => 55,
    }
}

/// The tile a byte code stands for, or `None` for a code the format does not
/// use.
pub open spec fn spec_tile_from_code(c: u8) -> Option<Tile> {
    match c {
        0 => Some(Tile::EmptyPiece),
        1 => Some(Tile::WallTerminatorTop),
        3 => Some(Tile::WallHorizontal),
        4 => Some(Tile::WallVertical),
        5 => Some(Tile::WallTurnTopLeft),
        6 => Some(Tile::WallTurnTopRight),
        7 => Some(Tile::PassHorizontal),
        8 => Some(Tile::PassVertical),
        9 => Some(Tile::RayVertical),
        10 => Some(Tile::RayHorizontal),
        11 => Some(Tile::RayCross),
        14 => Some(Tile::WallTerminatorLeft),
        15 => Some(Tile::WallBlocker),
        16 => Some(Tile::WallTerminatorRight),
        19 => Some(Tile::WallTurnBottomLeft),
        20 => Some(Tile::WallTurnBottomRight),
        21 => Some(Tile::RayTeleport1),
        22 => Some(Tile::RaySourceUp),
        23 => Some(Tile::RaySourceRight),
        24 => Some(Tile::ImmovableTopLeft),
        25 => Some(Tile::ImmovableTopRight),
        26 => Some(Tile::MovableTopLeft),
        27 => Some(Tile::MovableTopRight),
        29 => Some(Tile::WallTerminatorBottom),
        33 => Some(Tile::WallTLeft),
        34 => Some(Tile::WallTRight),
        35 => Some(Tile::RayTeleport2),
        36 => Some(Tile::RaySourceDown),
        37 => Some(Tile::RaySourceLeft),
        38 => Some(Tile::ImmovableBottomLeft),
        39 => Some(Tile::ImmovableBottomRight),
        40 => Some(Tile::MovableBottomLeft),
        41 => Some(Tile::MovableBottomRight),
        42 => Some(Tile::Floor4),
        43 => Some(Tile::Floor5),
        44 => Some(Tile::Floor6),
        45 => Some(Tile::Floor7),
        46 => Some(Tile::Solid),
        47 => Some(Tile::WallTDown),
        48 => Some(Tile::WallTUp),
        49 => Some(Tile::GemRed),
        50 => Some(Tile::GemGreen),
        51 => Some(Tile::GemYellow),
        52 => Some(Tile::GemPurple),
        53 => Some(Tile::Floor1),
        54 => Some(Tile::Floor2),
        55 => Some(Tile::Floor3),
        _ => None,
    }
}

/// True for the byte codes the format uses.
pub open spec fn spec_code_valid(c: u8) -> bool {
    spec_tile_from_code(c) is Some
}

/// Total decoding: the tile of a valid code, `EmptyPiece` for anything else.
/// Grid invariants keep every stored byte valid, so the default arm is never
/// the meaning of a stored layer byte.
pub open spec fn tile_of_code(c: u8) -> Tile {
    match spec_tile_from_code(c) {
        Some(t) => t,
        None => Tile::EmptyPiece,
    }
}

/// Encoding then decoding a tile gives the tile back: the codes are one per
/// variant.
pub proof fn lemma_tile_code_round_trip(t: Tile)
    ensures
        spec_tile_from_code(spec_tile_code(t)) == Some(t),
{
}

/// Decoding then encoding a valid code gives the code back.
pub proof fn lemma_code_tile_round_trip(c: u8)
    requires
        spec_code_valid(c),
    ensures
        spec_tile_code(tile_of_code(c)) == c,
{
}

impl Tile {
    /// The byte this tile is written as in a level file.
    pub fn code(&self) -> (c: u8)
        ensures
            c == spec_tile_code(*self),
    {
        match *self {
            Tile::EmptyPiece => 0,
            Tile::WallTerminatorTop => 1,
            Tile::WallHorizontal => 3,
            Tile::WallVertical => 4,
            Tile::WallTurnTopLeft => 5,
            Tile::WallTurnTopRight => 6,
            Tile::PassHorizontal => 7,
            Tile::PassVertical => 8,
            Tile::RayVertical => 9,
            Tile::RayHorizontal => 10,
            Tile::RayCross => 11,
            Tile::WallTerminatorLeft => 14,
            Tile::WallBlocker => 15,
            Tile::WallTerminatorRight => 16,
            Tile::WallTurnBottomLeft => 19,
            Tile::WallTurnBottomRight => 20,
            Tile::RayTeleport1 => 21,
            Tile::RaySourceUp => 22,
            Tile::RaySourceRight => 23,
            Tile::ImmovableTopLeft => 24,
            Tile::ImmovableTopRight => 25,
            Tile::MovableTopLeft => 26,
            Tile::MovableTopRight => 27,
            Tile::WallTerminatorBottom => 29,
            Tile::WallTLeft => 33,
            Tile::WallTRight => 34,
            Tile::RayTeleport2 => 35,
            Tile::RaySourceDown => 36,
            Tile::RaySourceLeft => 37,
            Tile::ImmovableBottomLeft => 38,
            Tile::ImmovableBottomRight => 39,
            Tile::MovableBottomLeft => 40,
            Tile::MovableBottomRight => 41,
            Tile::Floor4 => 42,
            Tile::Floor5 => 43,
            Tile::Floor6 => 44,
            Tile::Floor7 => 45,
            Tile::Solid => 46,
            Tile::WallTDown => 47,
            Tile::WallTUp => 48,
            Tile::GemRed => 49,
            Tile::GemGreen => 50,
            Tile::GemYellow => 51,
            Tile::GemPurple => 52,
            Tile::Floor1 => 53,
            Tile::Floor2 => 54,
            Tile::Floor3 => 55,
        }
    }

    /// The tile a level-file byte stands for, or `None` for an unused code.
    pub fn from_code(c: u8) -> (t: Option<Tile>)
        ensures
            t == spec_tile_from_code(c),
    {
        match c {
            0 => Some(Tile::EmptyPiece),
            1 => Some(Tile::WallTerminatorTop),
            3 => Some(Tile::WallHorizontal),
            4 => Some(Tile::WallVertical),
            5 => Some(Tile::WallTurnTopLeft),
            6 => Some(Tile::WallTurnTopRight),
            7 => Some(Tile::PassHorizontal),
            8 => Some(Tile::PassVertical),
            9 => Some(Tile::RayVertical),
            10 => Some(Tile::RayHorizontal),
            11 => Some(Tile::RayCross),
            14 => Some(Tile::WallTerminatorLeft),
            15 => Some(Tile::WallBlocker),
            16 => Some(Tile::WallTerminatorRight),
            19 => Some(Tile::WallTurnBottomLeft),
            20 => Some(Tile::WallTurnBottomRight),
            21 => Some(Tile::RayTeleport1),
            22 => Some(Tile::RaySourceUp),
            23 => Some(Tile::RaySourceRight),
            24 => Some(Tile::ImmovableTopLeft),
            25 => Some(Tile::ImmovableTopRight),
            26 => Some(Tile::MovableTopLeft),
            27 => Some(Tile::MovableTopRight),
            29 => Some(Tile::WallTerminatorBottom),
            33 => Some(Tile::WallTLeft),
            34 => Some(Tile::WallTRight),
            35 => Some(Tile::RayTeleport2),
            36 => Some(Tile::RaySourceDown),
            37 => Some(Tile::RaySourceLeft),
            38 => Some(Tile::ImmovableBottomLeft),
            39 => Some(Tile::ImmovableBottomRight),
            40 => Some(Tile::MovableBottomLeft),
            41 => Some(Tile::MovableBottomRight),
            42 => Some(Tile::Floor4),
            43 => Some(Tile::Floor5),
            44 => Some(Tile::Floor6),
            45 => Some(Tile::Floor7),
            46 => Some(Tile::Solid),
            47 => Some(Tile::WallTDown),
            48 => Some(Tile::WallTUp),
            49 => Some(Tile::GemRed),
            50 => Some(Tile::GemGreen),
            51 => Some(Tile::GemYellow),
            52 => Some(Tile::GemPurple),
            53 => Some(Tile::Floor1),
            54 => Some(Tile::Floor2),
            55 => Some(Tile::Floor3),
            _ => None,
        }
    }
}

/// Total decoding of a layer byte: the tile of a valid code, `EmptyPiece`
/// otherwise (grid invariants keep stored bytes valid, so the fallback is
/// never read back).
pub fn decode_tile(c: u8) -> (t: Tile)
    ensures
        t == tile_of_code(c),
{
    match Tile::from_code(c) {
        Some(t) => t,
        None => Tile::EmptyPiece,
    }
}

impl Default for Tile {
    fn default() -> (t: Self)
        ensures
            t == Tile::EmptyPiece,
    {
        Tile::EmptyPiece
    }
}

/// The four movable corner-mirror variants, and nothing else — not the
/// visually similar immovable corners.
pub open spec fn spec_is_movable(t: Tile) -> bool {
    t == Tile::MovableBottomLeft || t == Tile::MovableBottomRight
        || t == Tile::MovableTopLeft || t == Tile::MovableTopRight
}

/// The four ray-source variants, one per emission direction.
pub open spec fn spec_is_ray_source(t: Tile) -> bool {
    t == Tile::RaySourceUp || t == Tile::RaySourceRight
        || t == Tile::RaySourceDown || t == Tile::RaySourceLeft
}

/// Whether `t` stops a beam travelling in direction `d`. Every wall stops
/// both axes; a horizontal pass-through blocks only vertical travel and a
/// vertical pass-through only horizontal travel.
pub open spec fn spec_is_ray_blocker(t: Tile, d: BeamDirection) -> bool {
    ||| ((d == BeamDirection::Down || d == BeamDirection::Up) && t == Tile::PassHorizontal)
    ||| ((d == BeamDirection::Left || d == BeamDirection::Right) && t == Tile::PassVertical)
    ||| t == Tile::WallBlocker
    ||| t == Tile::WallHorizontal
    ||| t == Tile::WallTDown
    ||| t == Tile::WallTerminatorBottom
    ||| t == Tile::WallTerminatorLeft
    ||| t == Tile::WallTerminatorRight
    ||| t == Tile::WallTerminatorTop
    ||| t == Tile::WallTLeft
    ||| t == Tile::WallTRight
    ||| t == Tile::WallTUp
    ||| t == Tile::WallTurnBottomLeft
    ||| t == Tile::WallTurnBottomRight
    ||| t == Tile::WallTurnTopLeft
    ||| t == Tile::WallTurnTopRight
    ||| t == Tile::WallVertical
}

/// The four gem colours.
pub open spec fn spec_is_a_gem(t: Tile) -> bool {
    t == Tile::GemGreen || t == Tile::GemRed || t == Tile::GemYellow || t == Tile::GemPurple
}

/// The two teleport symbols.
pub open spec fn spec_is_teleport(t: Tile) -> bool {
    t == Tile::RayTeleport1 || t == Tile::RayTeleport2
}

/// The eight corner-mirror variants (movable and immovable, four
/// orientations each).
pub open spec fn spec_is_mirror(t: Tile) -> bool {
    ||| t == Tile::MovableTopLeft
    ||| t == Tile::ImmovableTopLeft
    ||| t == Tile::MovableTopRight
    ||| t == Tile::ImmovableTopRight
    ||| t == Tile::MovableBottomLeft
    ||| t == Tile::ImmovableBottomLeft
    ||| t == Tile::MovableBottomRight
    ||| t == Tile::ImmovableBottomRight
}

/// The fixed corner-mirror reflection table. For each orientation exactly two
/// incoming directions are redirected by 90 degrees; any other incoming
/// direction is a dead end (`None`) and the beam stops on the mirror cell.
/// Non-mirror tiles reflect nothing.
pub open spec fn spec_mirror_reflect(t: Tile, d: BeamDirection) -> Option<BeamDirection> {
    if t == Tile::MovableTopLeft || t == Tile::ImmovableTopLeft {
        match d {
            BeamDirection::Up => Some(BeamDirection::Right),
            BeamDirection::Left => Some(BeamDirection::Down),
            _ => None,
        }
    } else if t == Tile::MovableTopRight || t == Tile::ImmovableTopRight {
        match d {
            BeamDirection::Right => Some(BeamDirection::Down),
            BeamDirection::Up => Some(BeamDirection::Left),
            _ => None,
        }
    } else if t == Tile::MovableBottomLeft || t == Tile::ImmovableBottomLeft {
        match d {
            BeamDirection::Down => Some(BeamDirection::Right),
            BeamDirection::Left => Some(BeamDirection::Up),
            _ => None,
        }
    } else if t == Tile::MovableBottomRight || t == Tile::ImmovableBottomRight {
        match d {
            BeamDirection::Down => Some(BeamDirection::Left),
            BeamDirection::Right => Some(BeamDirection::Up),
            _ => None,
        }
    } else {
        None
    }
}

/// The direction a ray-source variant emits in; meaningful only when
/// `spec_is_ray_source` holds.
pub open spec fn spec_source_direction(t: Tile) -> BeamDirection {
    match t {
        Tile::RaySourceUp => BeamDirection::Up,
        Tile::RaySourceDown => BeamDirection::Down,
        Tile::RaySourceLeft => BeamDirection::Left,
        _ => BeamDirection::Right,
    }
}

impl Tile {
    pub fn is_movable(&self) -> (b: bool)
        ensures
            b == spec_is_movable(*self),
    {
        (*self == Tile::MovableBottomLeft) || (*self == Tile::MovableBottomRight
            || (*self == Tile::MovableTopLeft) || (*self == Tile::MovableTopRight))
    }

    pub fn is_ray_source(&self) -> (b: bool)
        ensures
            b == spec_is_ray_source(*self),
    {
        (*self == Tile::RaySourceUp) || (*self == Tile::RaySourceRight
            || (*self == Tile::RaySourceDown) || (*self == Tile::RaySourceLeft))
    }

    pub fn is_ray_blocker(&self, direction: BeamDirection) -> (b: bool)
        ensures
            b == spec_is_ray_blocker(*self, direction),
    {
        if direction == BeamDirection::Down || direction == BeamDirection::Up {
            if *self == Tile::PassHorizontal {
                return true;
            }
        } else {
            if *self == Tile::PassVertical {
                return true;
            }
        }
        *self == Tile::WallBlocker || *self == Tile::WallHorizontal
            || *self == Tile::WallTDown || *self == Tile::WallTerminatorBottom
            || *self == Tile::WallTerminatorLeft || *self == Tile::WallTerminatorRight
            || *self == Tile::WallTerminatorTop || *self == Tile::WallTLeft
            || *self == Tile::WallTRight || *self == Tile::WallTUp
            || *self == Tile::WallTurnBottomLeft || *self == Tile::WallTurnBottomRight
            || *self == Tile::WallTurnTopLeft || *self == Tile::WallTurnTopRight
            || *self == Tile::WallVertical
    }

    pub fn is_a_gem(&self) -> (b: bool)
        ensures
            b == spec_is_a_gem(*self),
    {
        *self == Tile::GemGreen || *self == Tile::GemRed || *self == Tile::GemYellow
            || *self == Tile::GemPurple
    }

    pub fn is_teleport(&self) -> (b: bool)
        ensures
            b == spec_is_teleport(*self),
    {
        *self == Tile::RayTeleport1 || *self == Tile::RayTeleport2
    }

    pub fn is_mirror(&self) -> (b: bool)
        ensures
            b == spec_is_mirror(*self),
    {
        *self == Tile::MovableTopLeft || *self == Tile::ImmovableTopLeft
            || *self == Tile::MovableTopRight || *self == Tile::ImmovableTopRight
            || *self == Tile::MovableBottomLeft || *self == Tile::ImmovableBottomLeft
            || *self == Tile::MovableBottomRight || *self == Tile::ImmovableBottomRight
    }

    /// Where a corner mirror sends a beam arriving in direction `d`:
    /// `Some` of the outgoing direction for the two valid incoming
    /// directions of its orientation, `None` (a dead end) otherwise.
    pub fn mirror_reflect(&self, d: BeamDirection) -> (r: Option<BeamDirection>)
        ensures
            r == spec_mirror_reflect(*self, d),
    {
        if *self == Tile::MovableTopLeft || *self == Tile::ImmovableTopLeft {
            match d {
                BeamDirection::Up => Some(BeamDirection::Right),
                BeamDirection::Left => Some(BeamDirection::Down),
                _ => None,
            }
        } else if *self == Tile::MovableTopRight || *self == Tile::ImmovableTopRight {
            match d {
                BeamDirection::Right => Some(BeamDirection::Down),
                BeamDirection::Up => Some(BeamDirection::Left),
                _ => None,
            }
        } else if *self == Tile::MovableBottomLeft || *self == Tile::ImmovableBottomLeft {
            match d {
                BeamDirection::Down => Some(BeamDirection::Right),
                BeamDirection::Left => Some(BeamDirection::Up),
                _ => None,
            }
        } else if *self == Tile::MovableBottomRight || *self == Tile::ImmovableBottomRight {
            match d {
                BeamDirection::Down => Some(BeamDirection::Left),
                BeamDirection::Right => Some(BeamDirection::Up),
                _ => None,
            }
        } else {
            None
        }
    }

    /// The emission direction of a ray-source tile.
    pub fn source_direction(&self) -> (d: BeamDirection)
        requires
            spec_is_ray_source(*self),
        ensures
            d == spec_source_direction(*self),
    {
        match *self {
            Tile::RaySourceUp => BeamDirection::Up,
            Tile::RaySourceDown => BeamDirection::Down,
            Tile::RaySourceLeft => BeamDirection::Left,
            _ => BeamDirection::Right,
        }
    }
}

/// The unit render-space vector of a beam direction (`Up` points towards
/// larger render `y`).
pub open spec fn spec_beam_direction_to_vec(direction: BeamDirection) -> Vec2i {
    match direction {
        BeamDirection::Up => (Vec2i { x: 0, y: 1 }),
        BeamDirection::Down => (Vec2i { x: 0, y: -1i64 }),
        BeamDirection::Left => (Vec2i { x: -1i64, y: 0 }),
        BeamDirection::Right => (Vec2i { x: 1, y: 0 }),
    }
}

pub fn beam_direction_to_vec(direction: &BeamDirection) -> (v: Vec2i)
    ensures
        v == spec_beam_direction_to_vec(*direction),
{
    match direction {
        BeamDirection::Up => Vec2i::new(0, 1),
        BeamDirection::Down => Vec2i::new(0, -1),
        BeamDirection::Left => Vec2i::new(-1, 0),
        BeamDirection::Right => Vec2i::new(1, 0),
    }
}

} // verus!
