//! The six directions of the hexagonal plane and the step to a neighbour.
use vstd::prelude::*;
use crate::types::{MapPos, Point};

verus! {

/// A direction of travel, in the order in which a ring is walked.
#[derive(Clone, Copy, Debug, PartialEq, Eq, Structural)]
pub enum Dir {
    SouthEast,
    East,
    NorthEast,
    NorthWest,
    West,
    SouthWest,
}

/// The neighbour of `p` in direction `d`.
///
/// Even rows reach their upper and lower neighbours in their own column and
/// the one to the right, odd rows in their own column and the one to the left.
pub open spec fn neighbour(p: Point, d: Dir) -> Point {
    if p.y % 2 == 0 {
        match d {
            Dir::SouthEast => Point { x: p.x + 1, y: p.y - 1 },
            Dir::East => Point { x: p.x + 1, y: p.y },
            Dir::NorthEast => Point { x: p.x + 1, y: p.y + 1 },
            Dir::NorthWest => Point { x: p.x, y: p.y + 1 },
            Dir::West => Point { x: p.x - 1, y: p.y },
            Dir::SouthWest => Point { x: p.x, y: p.y - 1 },
        }
    } else {
        match d {
            Dir::SouthEast => Point { x: p.x, y: p.y - 1 },
            Dir::East => Point { x: p.x + 1, y: p.y },
            Dir::NorthEast => Point { x: p.x, y: p.y + 1 },
            Dir::NorthWest => Point { x: p.x - 1, y: p.y + 1 },
            Dir::West => Point { x: p.x - 1, y: p.y },
            Dir::SouthWest => Point { x: p.x - 1, y: p.y - 1 },
        }
    }
}

/// Whether a cell with coordinates `p` can be held in a `MapPos`.
pub open spec fn representable(p: Point) -> bool {
    i32::MIN <= p.x <= i32::MAX && i32::MIN <= p.y <= i32::MAX
}

impl Dir {
    /// Position of the direction in the walking order, from 0 to 5.
    pub open spec fn index(self) -> int {
        match self {
            Dir::SouthEast => 0,
            Dir::East => 1,
            Dir::NorthEast => 2,
            Dir::NorthWest => 3,
            Dir::West => 4,
            Dir::SouthWest => 5,
        }
    }

    /// The direction at position `n` of the walking order.
    pub open spec fn at(n: int) -> Dir {
        if n == 0 {
            Dir::SouthEast
        } else if n == 1 {
            Dir::East
        } else if n == 2 {
            Dir::NorthEast
        } else if n == 3 {
            Dir::NorthWest
        } else if n == 4 {
            Dir::West
        } else {
            Dir::SouthWest
        }
    }

    pub fn from_int(n: i32) -> (d: Dir)
        requires
            0 <= n < 6,
        ensures
            d == Dir::at(n as int),
            d.index() == n,
    {
        if n == 0 {
            Dir::SouthEast
        } else if n == 1 {
            Dir::East
        } else if n == 2 {
            Dir::NorthEast
        } else if n == 3 {
            Dir::NorthWest
        } else if n == 4 {
            Dir::West
        } else {
            Dir::SouthWest
        }
    }

    pub fn to_int(&self) -> (n: i32)
        ensures
            n == self.index(),
            0 <= n < 6,
    {
        match self {
            Dir::SouthEast => 0,
            Dir::East => 1,
            Dir::NorthEast => 2,
            Dir::NorthWest => 3,
            Dir::West => 4,
            Dir::SouthWest => 5,
        }
    }

    /// Steps from `pos` to its neighbour in direction `dir`.
    pub fn get_neighbour_pos(pos: MapPos, dir: Dir) -> (next: MapPos)
        requires
            representable(neighbour(pos@, dir)),
        ensures
            next@ == neighbour(pos@, dir),
    {
        let is_odd_row: bool = pos.y % 2 != 0;
        if is_odd_row {
            match dir {
                Dir::SouthEast => MapPos { x: pos.x, y: pos.y - 1 },
                Dir::East => MapPos { x: pos.x + 1, y: pos.y },
                Dir::NorthEast => MapPos { x: pos.x, y: pos.y + 1 },
                Dir::NorthWest => MapPos { x: pos.x - 1, y: pos.y + 1 },
                Dir::West => MapPos { x: pos.x - 1, y: pos.y },
                Dir::SouthWest => MapPos { x: pos.x - 1, y: pos.y - 1 },
            }
        } else {
            match dir {
                Dir::SouthEast => MapPos { x: pos.x + 1, y: pos.y - 1 },
                Dir::East => MapPos { x: pos.x + 1, y: pos.y },
                Dir::NorthEast => MapPos { x: pos.x + 1, y: pos.y + 1 },
                Dir::NorthWest => MapPos { x: pos.x, y: pos.y + 1 },
                Dir::West => MapPos { x: pos.x - 1, y: pos.y },
                Dir::SouthWest => MapPos { x: pos.x, y: pos.y - 1 },
            }
        }
    }
}

/// Hands out the six directions once, in walking order.
#[derive(Clone, Copy, Debug)]
pub struct DirIter {
    index: i32,
}

impl DirIter {
    #[verifier::type_invariant]
    pub closed spec fn wf(self) -> bool {
        0 <= self.index <= 6
    }

    /// How many directions were handed out so far.
    pub closed spec fn taken(self) -> int {
        self.index as int
    }

    /// The next direction, or `None` once all six were handed out.
    pub fn next(&mut self) -> (d: Option<Dir>)
        ensures
            old(self).taken() < 6 ==> d == Some(Dir::at(old(self).taken())) && final(self).taken()
                == old(self).taken() + 1,
            old(self).taken() >= 6 ==> d.is_none() && final(self).taken() == old(self).taken(),
            0 <= final(self).taken() <= 6,
    {
        proof {
            use_type_invariant(&*self);
        }
        if self.index > 5 {
            None
        } else {
            let d = Dir::from_int(self.index);
            *self = DirIter { index: self.index + 1 };
            Some(d)
        }
    }
}

/// An iterator over the six directions that starts at `Dir::SouthEast`.
pub fn dirs() -> (it: DirIter)
    ensures
        it.taken() == 0,
{
    DirIter { index: 0 }
}

} // verus!
