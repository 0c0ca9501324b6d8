use vstd::prelude::*;

verus! {

/// A point or displacement in logical pixel units. The grid is laid out in
/// cells of 64 logical units; sub-cell positions (cursor, drag offsets) use
/// whole logical units.
#[derive(Clone, Copy, Debug, PartialEq, Eq, Structural)]
pub struct Vec2i {
    pub x: i64,
    pub y: i64,
}

impl Vec2i {
    pub fn new(x: i64, y: i64) -> (v: Vec2i)
        ensures
            v.x == x,
            v.y == y,
    {
        Vec2i { x, y }
    }
}

} // verus!
