//! The board: distances, terrain, the grid of cells and its iterators.
use vstd::prelude::*;
use crate::types::{MapPos, Point, Size2};
use crate::dir::{dirs, Dir, DirIter};
use crate::geometry::{
    lemma_ring_cell_near, lemma_ring_corner, lemma_ring_is_circle, lemma_ring_step,
    lemma_spiral_index, lemma_spiral_len, lemma_spiral_no_duplicates, lemma_spiral_radius,
    ring_cell, ring_fits, ring_point, ring_seq, side_start, spiral_len, spiral_seq,
};

verus! {

/// A count of steps between two cells.
#[derive(Clone, Copy, Debug, PartialEq, Eq, Structural, PartialOrd, Ord)]
pub struct Distance {
    pub n: i32,
}

/// Half of `n`, rounded down.
pub open spec fn half(n: int) -> int {
    n / 2
}

/// Absolute value.
pub open spec fn abs(n: int) -> int {
    if n >= 0 {
        n
    } else {
        -n
    }
}

/// Distance between two cells: the least number of steps from one to the
/// other.
///
/// Each cell is first moved onto a skewed axis, `x + half(y)`; the result is
/// half the sum of the three absolute differences, which is always even.
pub open spec fn spec_distance(from: Point, to: Point) -> int {
    let dx = (to.x + half(to.y)) - (from.x + half(from.y));
    let dy = to.y - from.y;
    (abs(dx) + abs(dy) + abs(dx - dy)) / 2
}

fn half_down(n: i64) -> (h: i64)
    requires
        n > i64::MIN,
    ensures
        h == half(n as int),
{
    if n >= 0 {
        n / 2
    } else {
        (n - 1) / 2
    }
}

fn magnitude(n: i64) -> (m: i64)
    requires
        n > i64::MIN,
    ensures
        m == abs(n as int),
{
    if n >= 0 {
        n
    } else {
        -n
    }
}

/// The distance between `from` and `to` in an integer type that it always
/// fits.
fn wide_distance(from: MapPos, to: MapPos) -> (d: i64)
    ensures
        d == spec_distance(from@, to@),
{
    let to_x: i64 = to.x as i64;
    let to_y: i64 = to.y as i64;
    let from_x: i64 = from.x as i64;
    let from_y: i64 = from.y as i64;
    let dx: i64 = (to_x + half_down(to_y)) - (from_x + half_down(from_y));
    let dy: i64 = to_y - from_y;
    let sum: i64 = magnitude(dx) + magnitude(dy) + magnitude(dx - dy);
    sum / 2
}

/// Distance between `from` and `to`.
///
/// The one demand on the arguments is that the distance fits the result type.
pub fn distance(from: MapPos, to: MapPos) -> (d: Distance)
    requires
        spec_distance(from@, to@) <= i32::MAX,
    ensures
        d.n == spec_distance(from@, to@),
{
    Distance { n: wide_distance(from, to) as i32 }
}

/// Distance between `from` and `to`, unless it does not fit the result type.
pub fn checked_distance(from: MapPos, to: MapPos) -> (d: Option<Distance>)
    ensures
        match d {
            Some(d) => d.n == spec_distance(from@, to@),
            None => spec_distance(from@, to@) > i32::MAX,
        },
{
    let wide: i64 = wide_distance(from, to);
    if wide > 0x7fff_ffff {
        None
    } else {
        Some(Distance { n: wide as i32 })
    }
}

/// What covers a cell of the board.
#[derive(Clone, Copy, Debug, PartialEq, Eq, Structural)]
pub enum Terrain {
    Plain,
    Trees,
    City,
    Water,
}

impl Default for Terrain {
    fn default() -> (t: Terrain)
        ensures
            t == Terrain::Plain,
    {
        Terrain::Plain
    }
}

/// Whether `p` lies on a board of size `size`.
pub open spec fn on_board(size: Size2, p: Point) -> bool {
    0 <= p.x < size.w && 0 <= p.y < size.h
}

/// Place of the cell `p` in the row-by-row list of the cells of a board.
pub open spec fn cell_index(size: Size2, p: Point) -> int {
    size.w * p.y + p.x
}

/// The cell at place `i` of the row-by-row list of the cells of a board.
pub open spec fn cell_at(size: Size2, i: int) -> Point {
    Point { x: i % (size.w as int), y: i / (size.w as int) }
}

/// The cells of a board and the places `0 .. area` correspond one to one.
pub proof fn lemma_cell_index(size: Size2, p: Point)
    requires
        size.is_valid(),
        on_board(size, p),
    ensures
        0 <= cell_index(size, p) < size.area(),
        cell_at(size, cell_index(size, p)) == p,
{
    let w = size.w as int;
    assert(0 <= w * p.y) by (nonlinear_arith)
        requires
            0 <= p.y,
            0 <= w,
    ;
    assert(w * p.y + p.x < w * size.h) by (nonlinear_arith)
        requires
            0 <= p.x < w,
            0 <= p.y < size.h,
    ;
    assert(w * p.y == p.y * w) by (nonlinear_arith);
    vstd::arithmetic::div_mod::lemma_fundamental_div_mod_converse(w * p.y + p.x, w, p.y, p.x);
}

/// A rectangular board that holds one value of type `T` for each cell, row
/// by row.
#[derive(Debug)]
pub struct HexGrid<T> {
    tiles: Vec<T>,
    size: Size2,
}

impl<T> View for HexGrid<T> {
    type V = Seq<T>;

    /// The values of the cells, row by row.
    closed spec fn view(&self) -> Seq<T> {
        self.tiles@
    }
}

impl<T> HexGrid<T> {
    /// The board has a valid size and holds one value for each cell.
    #[verifier::type_invariant]
    pub closed spec fn wf(self) -> bool {
        &&& self.size.is_valid()
        &&& self.tiles@.len() == self.size.area()
    }

    /// Size of the board.
    pub closed spec fn spec_size(self) -> Size2 {
        self.size
    }

    /// Whether `p` lies on the board.
    pub open spec fn contains(self, p: Point) -> bool {
        on_board(self.spec_size(), p)
    }

    /// The value that the board holds for the cell `p`.
    pub open spec fn spec_tile(self, p: Point) -> T {
        self@[cell_index(self.spec_size(), p)]
    }
}

impl<T: Clone> Clone for HexGrid<T> {
    /// A board of the same size on which every cell holds a clone of what it
    /// holds on this board.
    fn clone(&self) -> (copy: HexGrid<T>)
        ensures
            copy.spec_size() == self.spec_size(),
            copy@.len() == self@.len(),
            forall|i: int| 0 <= i < self@.len() ==> cloned(#[trigger] self@[i], copy@[i]),
    {
        proof {
            use_type_invariant(self);
        }
        HexGrid { tiles: self.tiles.clone(), size: self.size }
    }
}

impl<T: Clone + Default> HexGrid<T> {
    /// A board of size `size` on which every cell holds a clone of the
    /// default value of `T`.
    pub fn new(size: Size2) -> (map: HexGrid<T>)
        requires
            size.is_valid(),
        ensures
            map.spec_size() == size,
            map@.len() == size.area(),
            exists|d: T|
                call_ensures(T::default, (), d) && forall|i: int|
                    0 <= i < map@.len() ==> cloned(d, #[trigger] map@[i]),
    {
        let tiles_count: i32 = size.w * size.h;
        let first: T = T::default();
        let mut tiles: Vec<T> = Vec::new();
        let mut i: i32 = 0;
        while i < tiles_count
            invariant
                0 <= i <= tiles_count,
                tiles@.len() == i,
                forall|j: int| 0 <= j < i ==> cloned(first, #[trigger] tiles@[j]),
            decreases tiles_count - i,
        {
            tiles.push(first.clone());
            i = i + 1;
        }
        HexGrid { tiles: tiles, size: size }
    }
}

impl<T> HexGrid<T> {
    /// A board of size `size` on which the cell `p` holds what `cb`
    /// returned for `p`. `cb` is called once for each cell, row by row.
    pub fn from_callback<F: Fn(MapPos) -> T>(size: Size2, cb: &F) -> (map: HexGrid<T>)
        requires
            size.is_valid(),
            forall|p: MapPos| on_board(size, p@) ==> call_requires(cb, (p,)),
        ensures
            map.spec_size() == size,
            forall|p: MapPos|
                on_board(size, p@) ==> call_ensures(cb, (p,), #[trigger] map.spec_tile(p@)),
    {
        let tiles_count: i32 = size.w * size.h;
        let mut tiles: Vec<T> = Vec::with_capacity(tiles_count as usize);
        let mut iter = MapPosIter::new(size);
        loop
            invariant
                size.is_valid(),
                iter.spec_size() == size,
                0 <= iter.position() <= size.area(),
                tiles@.len() == iter.position(),
                forall|p: MapPos| on_board(size, p@) ==> call_requires(cb, (p,)),
                forall|p: MapPos|
                    on_board(size, p@) && cell_index(size, p@) < tiles@.len() ==> call_ensures(
                        cb,
                        (p,),
                        #[trigger] tiles@[cell_index(size, p@)],
                    ),
            ensures
                tiles@.len() == size.area(),
            decreases size.area() - iter.position(),
        {
            let ghost before = tiles@;
            match iter.next() {
                Some(pos) => {
                    let tile: T = cb(pos);
                    tiles.push(tile);
                    proof {
                        assert forall|p: MapPos|
                            on_board(size, p@) && cell_index(size, p@)
                                < tiles@.len() implies call_ensures(
                            cb,
                            (p,),
                            #[trigger] tiles@[cell_index(size, p@)],
                        ) by {
                            if cell_index(size, p@) == before.len() {
                                lemma_cell_index(size, p@);
                                lemma_cell_index(size, pos@);
                            }
                        }
                    }
                },
                None => {
                    break ;
                },
            }
        }
        let map = HexGrid { tiles: tiles, size: size };
        proof {
            assert forall|p: MapPos| on_board(size, p@) implies call_ensures(
                cb,
                (p,),
                #[trigger] map.spec_tile(p@),
            ) by {
                lemma_cell_index(size, p@);
            }
        }
        map
    }
}

impl<T: Clone> HexGrid<T> {
    /// Size of the board.
    pub fn size(&self) -> (size: Size2)
        ensures
            size == self.spec_size(),
            size.is_valid(),
            self@.len() == size.area(),
    {
        proof {
            use_type_invariant(self);
        }
        self.size
    }

    /// The value of the cell `pos`, for change.
    pub fn tile_mut(&mut self, pos: MapPos) -> (tile: &mut T)
        requires
            old(self).contains(pos@),
        ensures
            *tile == old(self).spec_tile(pos@),
            final(self)@ == old(self)@.update(
                cell_index(old(self).spec_size(), pos@),
                *final(tile),
            ),
            final(self).spec_size() == old(self).spec_size(),
    {
        proof {
            use_type_invariant(&*self);
            lemma_cell_index(self.size, pos@);
        }
        assert(0 <= self.size.w * pos.y <= self.size.w * self.size.h) by (nonlinear_arith)
            requires
                0 <= pos.y < self.size.h,
                0 <= self.size.w,
        ;
        let index: i32 = self.size.w * pos.y + pos.x;
        &mut self.tiles[index as usize]
    }

    /// The value of the cell `pos`.
    pub fn tile(&self, pos: MapPos) -> (tile: &T)
        requires
            self.contains(pos@),
        ensures
            *tile == self.spec_tile(pos@),
    {
        proof {
            use_type_invariant(self);
            lemma_cell_index(self.size, pos@);
        }
        assert(0 <= self.size.w * pos.y <= self.size.w * self.size.h) by (nonlinear_arith)
            requires
                0 <= pos.y < self.size.h,
                0 <= self.size.w,
        ;
        let index: i32 = self.size.w * pos.y + pos.x;
        &self.tiles[index as usize]
    }

    /// Whether `pos` lies on the board.
    pub fn is_inboard(&self, pos: MapPos) -> (inboard: bool)
        ensures
            inboard == self.contains(pos@),
    {
        let x: i32 = pos.x;
        let y: i32 = pos.y;
        x >= 0 && y >= 0 && x < self.size.w && y < self.size.h
    }

    /// An iterator over the cells of the board, row by row.
    pub fn get_iter(&self) -> (iter: MapPosIter)
        ensures
            iter.spec_size() == self.spec_size(),
            iter.position() == 0,
    {
        MapPosIter::new(self.size())
    }
}

/// Walks the cells of a board row by row, each row from west to east.
#[derive(Clone, Copy, Debug)]
pub struct MapPosIter {
    cursor: MapPos,
    map_size: Size2,
}

impl MapPosIter {
    /// The cursor is on the board or at the start of the row after the last.
    #[verifier::type_invariant]
    pub closed spec fn wf(self) -> bool {
        &&& self.map_size.is_valid()
        &&& 0 <= self.cursor.x < self.map_size.w
        &&& 0 <= self.cursor.y <= self.map_size.h
        &&& self.cursor.y == self.map_size.h ==> self.cursor.x == 0
    }

    /// Size of the board that is walked.
    pub closed spec fn spec_size(self) -> Size2 {
        self.map_size
    }

    /// Number of cells handed out so far.
    pub closed spec fn position(self) -> int {
        cell_index(self.map_size, self.cursor@)
    }

    /// An iterator at the first cell of a board of size `map_size`.
    pub fn new(map_size: Size2) -> (iter: MapPosIter)
        requires
            map_size.is_valid(),
        ensures
            iter.spec_size() == map_size,
            iter.position() == 0,
    {
        MapPosIter { cursor: MapPos { x: 0, y: 0 }, map_size: map_size }
    }

    /// The next cell of the board, or `None` after the last one. It is the
    /// cell whose place in the row-by-row order is the number of cells handed
    /// out before it.
    pub fn next(&mut self) -> (pos: Option<MapPos>)
        ensures
            final(self).spec_size() == old(self).spec_size(),
            0 <= old(self).position() <= old(self).spec_size().area(),
            old(self).position() < old(self).spec_size().area() ==> pos.is_some()
                && pos.unwrap()@ == cell_at(old(self).spec_size(), old(self).position())
                && on_board(old(self).spec_size(), pos.unwrap()@)
                && cell_index(old(self).spec_size(), pos.unwrap()@) == old(self).position()
                && final(self).position() == old(self).position() + 1,
            old(self).position() == old(self).spec_size().area() ==> pos.is_none()
                && final(self).position() == old(self).position(),
    {
        proof {
            use_type_invariant(&*self);
        }
        let w: i32 = self.map_size.w;
        let h: i32 = self.map_size.h;
        let cursor: MapPos = self.cursor;
        assert(0 <= w * cursor.y <= w * h && (cursor.y < h ==> w * cursor.y + w <= w * h))
            by (nonlinear_arith)
            requires
                0 <= cursor.y <= h,
                w >= 1,
        ;
        if cursor.y >= h {
            None
        } else {
            proof {
                lemma_cell_index(self.map_size, cursor@);
            }
            let next: MapPos = if cursor.x + 1 >= w {
                MapPos { x: 0, y: cursor.y + 1 }
            } else {
                MapPos { x: cursor.x + 1, y: cursor.y }
            };
            assert(w * (cursor.y + 1) == w * cursor.y + w) by (nonlinear_arith);
            *self = MapPosIter { cursor: next, map_size: self.map_size };
            Some(cursor)
        }
    }
}

/// Walks the ring of a given radius around a cell, one side after the other.
#[derive(Clone, Copy, Debug)]
pub struct RingIter {
    cursor: MapPos,
    segment_index: i32,
    dir_iter: DirIter,
    radius: Distance,
    dir: Dir,
    origin: MapPos,
}

/// An iterator over the ring of radius `radius` around `pos`.
///
/// The walk starts `radius` columns to the west of `pos` and first heads
/// south-east. A ring has no radius below 1.
pub fn ring_iter(pos: MapPos, radius: Distance) -> (iter: RingIter)
    requires
        radius.n >= 1,
        ring_fits(pos@, radius.n as int),
    ensures
        iter.origin() == pos@,
        iter.radius() == radius.n,
        iter.position() == 0,
{
    let start = MapPos { x: pos.x - radius.n, y: pos.y };
    let mut dir_iter = dirs();
    let dir = dir_iter.next().unwrap();
    assert(dir == Dir::SouthEast);
    RingIter {
        cursor: start,
        radius: radius,
        segment_index: 0,
        dir_iter: dir_iter,
        dir: dir,
        origin: pos,
    }
}

/// Whether there is a ring of radius `radius` around `pos` that can be
/// walked: the radius is at least 1, and the ring stays within the reach of
/// the machine integers.
pub fn can_walk_ring(pos: MapPos, radius: Distance) -> (can: bool)
    ensures
        can == (radius.n >= 1 && ring_fits(pos@, radius.n as int)),
{
    let r: i64 = radius.n as i64;
    let x: i64 = pos.x as i64;
    let y: i64 = pos.y as i64;
    let low: i64 = -0x8000_0000;
    let high: i64 = 0x7fff_ffff;
    r >= 1 && low <= x - r && x + r <= high && low <= y - r && y + r <= high
}

impl RingIter {
    /// The cursor stands on the cell that the counters name, and the
    /// directions that remain are those after the present one.
    #[verifier::type_invariant]
    pub closed spec fn wf(self) -> bool {
        &&& self.radius.n >= 1
        &&& ring_fits(self.origin@, self.radius.n as int)
        &&& self.dir_iter.taken() == self.dir.index() + 1
        &&& 0 <= self.segment_index <= self.radius.n
        &&& self.segment_index == self.radius.n ==> self.dir == Dir::SouthWest
        &&& self.cursor@ == ring_cell(
            self.origin@,
            self.radius.n as int,
            self.dir.index(),
            self.segment_index as int,
        )
    }

    /// Centre of the ring.
    pub closed spec fn origin(self) -> Point {
        self.origin@
    }

    /// Radius of the ring.
    pub closed spec fn radius(self) -> int {
        self.radius.n as int
    }

    /// Number of cells handed out so far.
    pub closed spec fn position(self) -> int {
        side_start(self.radius.n as int, self.dir.index()) + self.segment_index
    }

    fn simple_step(&mut self) -> (pos: Option<MapPos>)
        requires
            old(self).segment_index < old(self).radius.n,
            old(self).segment_index + 1 < old(self).radius.n || old(self).dir == Dir::SouthWest,
        ensures
            pos.is_some(),
            pos.unwrap()@ == ring_point(
                old(self).origin(),
                old(self).radius(),
                old(self).position(),
            ),
            final(self).position() == old(self).position() + 1,
            final(self).origin() == old(self).origin(),
            final(self).radius() == old(self).radius(),
            old(self).position() < 6 * old(self).radius(),
    {
        proof {
            use_type_invariant(&*self);
            let r = self.radius.n as int;
            let s = self.dir.index();
            let t = self.segment_index as int;
            lemma_ring_step(self.origin@, r, s, t);
            lemma_ring_cell_near(self.origin@, r, s, t + 1);
        }
        let cursor = Dir::get_neighbour_pos(self.cursor, self.dir);
        *self = RingIter {
            cursor: cursor,
            segment_index: self.segment_index + 1,
            dir_iter: self.dir_iter,
            radius: self.radius,
            dir: self.dir,
            origin: self.origin,
        };
        Some(cursor)
    }

    fn rotate(&mut self, dir: Dir, dir_iter: DirIter) -> (pos: Option<MapPos>)
        requires
            old(self).segment_index == old(self).radius.n - 1,
            dir.index() == old(self).dir.index() + 1,
            dir_iter.taken() == dir.index() + 1,
        ensures
            pos.is_some(),
            pos.unwrap()@ == ring_point(
                old(self).origin(),
                old(self).radius(),
                old(self).position(),
            ),
            final(self).position() == old(self).position() + 1,
            final(self).origin() == old(self).origin(),
            final(self).radius() == old(self).radius(),
            old(self).position() < 6 * old(self).radius(),
    {
        proof {
            use_type_invariant(&*self);
            let r = self.radius.n as int;
            let s = self.dir.index();
            let t = self.segment_index as int;
            lemma_ring_step(self.origin@, r, s, t);
            lemma_ring_cell_near(self.origin@, r, s, t + 1);
            lemma_ring_corner(self.origin@, r, s);
        }
        let cursor = Dir::get_neighbour_pos(self.cursor, self.dir);
        *self = RingIter {
            cursor: cursor,
            segment_index: 0,
            dir_iter: dir_iter,
            radius: self.radius,
            dir: dir,
            origin: self.origin,
        };
        Some(cursor)
    }

    /// The next cell of the ring, or `None` once all `6 * radius` cells were
    /// handed out. Every cell handed out is at distance exactly the radius
    /// from the centre.
    pub fn next(&mut self) -> (pos: Option<MapPos>)
        ensures
            final(self).origin() == old(self).origin(),
            final(self).radius() == old(self).radius(),
            old(self).radius() >= 1,
            ring_fits(old(self).origin(), old(self).radius()),
            0 <= old(self).position() <= 6 * old(self).radius(),
            pos.is_some() ==> spec_distance(old(self).origin(), pos.unwrap()@) == old(
                self,
            ).radius(),
            old(self).position() < 6 * old(self).radius() ==> pos.is_some() && pos.unwrap()@
                == ring_seq(old(self).origin(), old(self).radius())[old(self).position()]
                && final(self).position() == old(self).position() + 1,
            old(self).position() == 6 * old(self).radius() ==> pos.is_none()
                && *final(self) == *old(self),
    {
        proof {
            use_type_invariant(&*self);
        }
        if self.segment_index >= self.radius.n - 1 {
            let mut dir_iter = self.dir_iter;
            let turn = dir_iter.next();
            if let Some(dir) = turn {
                self.rotate(dir, dir_iter)
            } else if self.segment_index == self.radius.n {
                None
            } else {
                self.simple_step()
            }
        } else {
            self.simple_step()
        }
    }
}

/// The ring of radius `radius` around `pos` as a list: what `ring_iter`
/// hands out until it is exhausted. The list has `6 * radius` cells, each at
/// distance exactly `radius` from `pos`, and no cell twice.
pub fn ring_cells(pos: MapPos, radius: Distance) -> (cells: Vec<MapPos>)
    requires
        radius.n >= 1,
        ring_fits(pos@, radius.n as int),
    ensures
        cells@.len() == 6 * radius.n,
        forall|i: int|
            0 <= i < cells@.len() ==> (#[trigger] cells@[i])@ == ring_seq(
                pos@,
                radius.n as int,
            )[i],
        cells@.no_duplicates(),
        forall|i: int|
            0 <= i < cells@.len() ==> spec_distance(pos@, (#[trigger] cells@[i])@) == radius.n,
        forall|i: int| 0 <= i < cells@.len() ==> #[trigger] cells@[i] != pos,
{
    let mut iter = ring_iter(pos, radius);
    let mut cells: Vec<MapPos> = Vec::new();
    loop
        invariant
            radius.n >= 1,
            iter.origin() == pos@,
            iter.radius() == radius.n,
            cells@.len() == iter.position(),
            forall|i: int|
                0 <= i < cells@.len() ==> (#[trigger] cells@[i])@ == ring_seq(
                    pos@,
                    radius.n as int,
                )[i],
        ensures
            cells@.len() == 6 * radius.n,
        decreases 6 * radius.n - iter.position(),
    {
        match iter.next() {
            Some(cell) => {
                cells.push(cell);
            },
            None => {
                break ;
            },
        }
    }
    proof {
        lemma_ring_is_circle(pos@, radius.n as int);
        let ring = ring_seq(pos@, radius.n as int);
        assert forall|i: int, j: int|
            0 <= i < cells@.len() && 0 <= j < cells@.len() && i != j implies cells@[i]
            != cells@[j] by {
            assert(cells@[i]@ == ring[i] && cells@[j]@ == ring[j]);
        }
        assert forall|i: int| 0 <= i < cells@.len() implies spec_distance(
            pos@,
            (#[trigger] cells@[i])@,
        ) == radius.n && cells@[i] != pos by {
            assert(cells@[i]@ == ring[i]);
            assert(spec_distance(pos@, ring[i]) == radius.n);
        }
    }
    cells
}

/// Walks the rings of radius 1, 2, and so on up to a last radius around a
/// cell.
#[derive(Clone, Copy, Debug)]
pub struct SpiralIter {
    ring_iter: RingIter,
    radius: Distance,
    last_radius: Distance,
    origin: MapPos,
}

/// An iterator over the rings of radius 1 to `radius` around `pos`.
pub fn spiral_iter(pos: MapPos, radius: Distance) -> (iter: SpiralIter)
    requires
        radius.n >= 1,
        ring_fits(pos@, radius.n as int),
    ensures
        iter.origin() == pos@,
        iter.last_radius() == radius.n,
        iter.position() == 0,
{
    SpiralIter {
        ring_iter: ring_iter(pos, Distance { n: 1 }),
        radius: Distance { n: 1 },
        last_radius: radius,
        origin: pos,
    }
}

impl SpiralIter {
    /// The ring iterator walks the ring of the present radius around the
    /// centre of the spiral.
    #[verifier::type_invariant]
    pub closed spec fn wf(self) -> bool {
        &&& 1 <= self.radius.n <= self.last_radius.n
        &&& ring_fits(self.origin@, self.last_radius.n as int)
        &&& self.ring_iter.origin() == self.origin@
        &&& self.ring_iter.radius() == self.radius.n
    }

    /// Centre of the spiral.
    pub closed spec fn origin(self) -> Point {
        self.origin@
    }

    /// Radius of the outermost ring.
    pub closed spec fn last_radius(self) -> int {
        self.last_radius.n as int
    }

    /// Number of cells handed out so far.
    pub closed spec fn position(self) -> int {
        spiral_len(self.radius.n - 1) + self.ring_iter.position()
    }

    /// The next cell of the spiral, or `None` once the outermost ring is
    /// done.
    pub fn next(&mut self) -> (pos: Option<MapPos>)
        ensures
            final(self).origin() == old(self).origin(),
            final(self).last_radius() == old(self).last_radius(),
            old(self).last_radius() >= 1,
            0 <= old(self).position() <= spiral_len(old(self).last_radius()),
            old(self).position() < spiral_len(old(self).last_radius()) ==> pos.is_some()
                && pos.unwrap()@ == spiral_seq(old(self).origin(), old(self).last_radius())[old(
                self,
            ).position()] && final(self).position() == old(self).position() + 1,
            old(self).position() == spiral_len(old(self).last_radius()) ==> pos.is_none()
                && final(self).position() == old(self).position(),
    {
        proof {
            use_type_invariant(&*self);
            lemma_spiral_len(self.origin@, self.radius.n as int);
            lemma_spiral_len(self.origin@, self.radius.n - 1);
            lemma_spiral_len(self.origin@, self.last_radius.n as int);
            lemma_spiral_len_grows(self.radius.n as int, self.last_radius.n as int);
        }
        let mut ring = self.ring_iter;
        let pos = ring.next();
        if pos.is_some() {
            proof {
                lemma_spiral_index(
                    self.origin@,
                    self.last_radius.n as int,
                    self.radius.n as int,
                    self.ring_iter.position(),
                );
            }
            *self = SpiralIter {
                ring_iter: ring,
                radius: self.radius,
                last_radius: self.last_radius,
                origin: self.origin,
            };
            pos
        } else if self.radius.n >= self.last_radius.n {
            None
        } else {
            let radius = Distance { n: self.radius.n + 1 };
            let mut ring = ring_iter(self.origin, radius);
            proof {
                lemma_spiral_index(self.origin@, self.last_radius.n as int, radius.n as int, 0);
            }
            let first = ring.next();
            *self = SpiralIter {
                ring_iter: ring,
                radius: radius,
                last_radius: self.last_radius,
                origin: self.origin,
            };
            first
        }
    }
}

/// The rings of radius 1 to `radius` around `pos` as one list: what
/// `spiral_iter` hands out until it is exhausted. The list has
/// `3 * radius * (radius + 1)` cells, no cell twice, and `pos` is not among
/// them.
pub fn spiral_cells(pos: MapPos, radius: Distance) -> (cells: Vec<MapPos>)
    requires
        radius.n >= 1,
        ring_fits(pos@, radius.n as int),
    ensures
        cells@.len() == spiral_len(radius.n as int),
        cells@.len() == 3 * radius.n * (radius.n + 1),
        forall|i: int|
            0 <= i < cells@.len() ==> (#[trigger] cells@[i])@ == spiral_seq(
                pos@,
                radius.n as int,
            )[i],
        cells@.no_duplicates(),
        forall|i: int| 0 <= i < cells@.len() ==> #[trigger] cells@[i] != pos,
{
    let mut iter = spiral_iter(pos, radius);
    let mut cells: Vec<MapPos> = Vec::new();
    loop
        invariant
            iter.origin() == pos@,
            iter.last_radius() == radius.n,
            cells@.len() == iter.position(),
            forall|i: int|
                0 <= i < cells@.len() ==> (#[trigger] cells@[i])@ == spiral_seq(
                    pos@,
                    radius.n as int,
                )[i],
        ensures
            cells@.len() == spiral_len(radius.n as int),
        decreases spiral_len(radius.n as int) - iter.position(),
    {
        match iter.next() {
            Some(cell) => {
                cells.push(cell);
            },
            None => {
                break ;
            },
        }
    }
    proof {
        lemma_spiral_len(pos@, radius.n as int);
        lemma_spiral_no_duplicates(pos@, radius.n as int);
        let spiral = spiral_seq(pos@, radius.n as int);
        assert forall|i: int, j: int|
            0 <= i < cells@.len() && 0 <= j < cells@.len() && i != j implies cells@[i]
            != cells@[j] by {
            assert(cells@[i]@ == spiral[i] && cells@[j]@ == spiral[j]);
        }
        assert forall|i: int| 0 <= i < cells@.len() implies #[trigger] cells@[i] != pos by {
            assert(cells@[i]@ == spiral[i]);
            lemma_spiral_radius(pos@, radius.n as int, i);
        }
    }
    cells
}

/// A spiral with more rings has at least as many cells.
proof fn lemma_spiral_len_grows(m: int, n: int)
    requires
        0 <= m <= n,
    ensures
        spiral_len(m) <= spiral_len(n),
    decreases n - m,
{
    if m < n {
        lemma_spiral_len_grows(m, n - 1);
    }
}

/// Between two cells of a board the distance fits the result type.
pub proof fn lemma_distance_on_board(size: Size2, a: Point, b: Point)
    requires
        size.is_valid(),
        on_board(size, a),
        on_board(size, b),
    ensures
        0 <= spec_distance(a, b) <= i32::MAX,
{
    assert(size.w + size.h - 1 <= size.w * size.h) by (nonlinear_arith)
        requires
            size.w >= 1,
            size.h >= 1,
    ;
}

/// The distance is symmetric, and a cell is at distance 0 from itself.
pub proof fn lemma_distance_symmetric(a: Point, b: Point)
    ensures
        spec_distance(a, b) == spec_distance(b, a),
        spec_distance(a, a) == 0,
        spec_distance(a, b) >= 0,
{
}

} // verus!
