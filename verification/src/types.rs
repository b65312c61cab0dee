//! Plain value types shared by the whole crate.
use vstd::prelude::*;

verus! {

/// Machine integer used for every game quantity.
pub type ZInt = i32;

/// Width and height of a board.
#[derive(Clone, Copy, Debug, PartialEq, Eq, Structural)]
pub struct Size2 {
    pub w: ZInt,
    pub h: ZInt,
}

impl Size2 {
    /// A board has at least one column and one row, and its cell count fits
    /// the integer type that indexes it.
    pub open spec fn is_valid(self) -> bool {
        &&& self.w >= 1
        &&& self.h >= 1
        &&& self.w * self.h <= i32::MAX
    }

    /// Number of cells of the board.
    pub open spec fn area(self) -> int {
        self.w * self.h
    }

    /// Whether this is the size of a board.
    pub fn validate(&self) -> (valid: bool)
        ensures
            valid == self.is_valid(),
    {
        if self.w < 1 || self.h < 1 {
            return false;
        }
        let w: i64 = self.w as i64;
        let h: i64 = self.h as i64;
        assert(0 < w * h <= 0x7fff_ffff * 0x7fff_ffff) by (nonlinear_arith)
            requires
                1 <= w <= 0x7fff_ffff,
                1 <= h <= 0x7fff_ffff,
        ;
        w * h <= 0x7fff_ffff
    }
}

/// A cell of the unbounded hexagonal plane, with mathematical coordinates.
///
/// Rows are numbered by `y`. Every odd row is shifted half a cell to the left
/// of the even rows, so the six neighbours of a cell depend on the parity of
/// its row.
pub struct Point {
    pub x: int,
    pub y: int,
}

/// A cell of the hexagonal plane in machine coordinates.
#[derive(Clone, Copy, Debug, PartialEq, Eq, Structural, PartialOrd, Ord, Hash)]
pub struct MapPos {
    pub x: ZInt,
    pub y: ZInt,
}

impl View for MapPos {
    type V = Point;

    open spec fn view(&self) -> Point {
        Point { x: self.x as int, y: self.y as int }
    }
}

/// A path over the board, one cell after the other.
pub type MapPath = Vec<MapPos>;

/// Identifies a player of the roster.
#[derive(Clone, Copy, Debug, PartialEq, Eq, Structural, PartialOrd, Ord, Hash)]
pub struct PlayerId {
    pub id: ZInt,
}

/// Identifies a unit among the live units.
#[derive(Clone, Copy, Debug, PartialEq, Eq, Structural, PartialOrd, Ord, Hash)]
pub struct UnitId {
    pub id: ZInt,
}

} // verus!
