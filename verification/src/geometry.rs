//! The mathematics of the board: skewed axes, rings, spirals, and what holds
//! of them.
//!
//! A cell `(x, y)` has the skewed column `x + y / 2` (rounded down). On the
//! axes (skewed column, row) the six neighbours of a cell are the same for
//! every row, a ring of radius `r` is a hexagon with `r` cells on each side,
//! and the distance between two cells, the least number of steps from one to
//! the other, has a closed form.
use vstd::prelude::*;
use crate::types::Point;
use crate::dir::{neighbour, Dir};
use crate::map::spec_distance;

verus! {

/// The skewed column of a cell.
pub open spec fn skew(p: Point) -> int {
    p.x + p.y / 2
}

/// The cell of row `y` whose skewed column is `a`.
pub open spec fn unskew(a: int, y: int) -> Point {
    Point { x: a - y / 2, y: y }
}

/// Change of (skewed column, row) made by one step in direction `d`.
pub open spec fn skewed_step(d: Dir) -> (int, int) {
    match d {
        Dir::SouthEast => (0, -1),
        Dir::East => (1, 0),
        Dir::NorthEast => (1, 1),
        Dir::NorthWest => (0, 1),
        Dir::West => (-1, 0),
        Dir::SouthWest => (-1, -1),
    }
}

/// Place on the skewed axes, relative to the centre, of cell `t` of side `s`
/// of the ring of radius `r`. Side `s` is walked in direction `Dir::at(s)`;
/// `t == 0` is the corner where the side begins and `t == r` the corner where
/// it ends.
pub open spec fn ring_offset(r: int, s: int, t: int) -> (int, int) {
    if s == 0 {
        (-r, -t)
    } else if s == 1 {
        (t - r, -r)
    } else if s == 2 {
        (t, t - r)
    } else if s == 3 {
        (r, t)
    } else if s == 4 {
        (r - t, r)
    } else {
        (-t, r - t)
    }
}

/// Cell `t` of side `s` of the ring of radius `r` around `center`.
pub open spec fn ring_cell(center: Point, r: int, s: int, t: int) -> Point {
    let o = ring_offset(r, s, t);
    unskew(skew(center) + o.0, center.y + o.1)
}

/// The side of the ring of radius `r` on which its cell number `i` lies.
pub open spec fn ring_side(r: int, i: int) -> int {
    if i < r {
        0
    } else if i < 2 * r {
        1
    } else if i < 3 * r {
        2
    } else if i < 4 * r {
        3
    } else if i < 5 * r {
        4
    } else {
        5
    }
}

/// Number of ring cells that lie on the sides before side `s`.
pub open spec fn side_start(r: int, s: int) -> int {
    if s <= 0 {
        0
    } else if s == 1 {
        r
    } else if s == 2 {
        2 * r
    } else if s == 3 {
        3 * r
    } else if s == 4 {
        4 * r
    } else {
        5 * r
    }
}

/// Cell number `i`, counted from 0, of the ring of radius `r` around
/// `center`. The walk starts one step south-east of the cell `r` columns to
/// the west of the centre and ends on that cell.
pub open spec fn ring_point(center: Point, r: int, i: int) -> Point {
    let s = ring_side(r, i);
    ring_cell(center, r, s, i - side_start(r, s) + 1)
}

/// The ring of radius `r` around `center`, in walking order.
pub open spec fn ring_seq(center: Point, r: int) -> Seq<Point> {
    Seq::new((6 * r) as nat, |i: int| ring_point(center, r, i))
}

/// Number of cells on the rings of radius 1 to `n`.
pub open spec fn spiral_len(n: int) -> int
    decreases n,
{
    if n <= 0 {
        0
    } else {
        spiral_len(n - 1) + 6 * n
    }
}

/// The rings of radius 1 to `n` around `center`, one after the other.
pub open spec fn spiral_seq(center: Point, n: int) -> Seq<Point>
    decreases n,
{
    if n <= 0 {
        Seq::empty()
    } else {
        spiral_seq(center, n - 1) + ring_seq(center, n)
    }
}

/// A ring of radius `r` around `center` stays within `r` columns and `r` rows
/// of it, so this is what a walk over it asks of the machine integers.
pub open spec fn ring_fits(center: Point, r: int) -> bool {
    &&& i32::MIN <= center.x - r
    &&& center.x + r <= i32::MAX
    &&& i32::MIN <= center.y - r
    &&& center.y + r <= i32::MAX
}

/// A step to a neighbour changes the skewed column and the row by the same
/// amounts on every row, and every neighbour of a cell is at distance 1 from
/// it.
pub proof fn lemma_neighbour_skewed(p: Point, d: Dir)
    ensures
        neighbour(p, d) == unskew(skew(p) + skewed_step(d).0, p.y + skewed_step(d).1),
        spec_distance(p, neighbour(p, d)) == 1,
{
}

/// Walking the ring: every cell is the neighbour of the one before it in the
/// direction of its side, the first one is the south-east neighbour of the
/// cell `r` columns west of the centre, and the last one is that cell.
pub proof fn lemma_ring_walk(center: Point, r: int, i: int)
    requires
        r >= 1,
        0 <= i < 6 * r,
    ensures
        i == 0 ==> ring_point(center, r, i) == neighbour(
            Point { x: center.x - r, y: center.y },
            Dir::SouthEast,
        ),
        i > 0 ==> ring_point(center, r, i) == neighbour(
            ring_point(center, r, i - 1),
            Dir::at(ring_side(r, i)),
        ),
        ring_point(center, r, 6 * r - 1) == (Point { x: center.x - r, y: center.y }),
{
    let s = ring_side(r, i);
    lemma_ring_step(center, r, s, i - side_start(r, s));
}

/// One step along side `s` leads from cell `t` of that side to cell `t + 1`.
pub proof fn lemma_ring_step(center: Point, r: int, s: int, t: int)
    requires
        0 <= s < 6,
    ensures
        neighbour(ring_cell(center, r, s, t), Dir::at(s)) == ring_cell(center, r, s, t + 1),
{
    lemma_neighbour_skewed(ring_cell(center, r, s, t), Dir::at(s));
}

/// The corner that ends one side begins the next.
pub proof fn lemma_ring_corner(center: Point, r: int, s: int)
    requires
        0 <= s < 5,
    ensures
        ring_cell(center, r, s, r) == ring_cell(center, r, s + 1, 0),
{
}

/// Every cell of a side lies within `r` columns and `r` rows of the centre,
/// at distance `r` from it.
pub proof fn lemma_ring_cell_near(center: Point, r: int, s: int, t: int)
    requires
        r >= 1,
        0 <= s < 6,
        0 <= t <= r,
    ensures
        center.x - r <= ring_cell(center, r, s, t).x <= center.x + r,
        center.y - r <= ring_cell(center, r, s, t).y <= center.y + r,
        spec_distance(center, ring_cell(center, r, s, t)) == r,
{
}

/// A ring of radius `r` has `6 r` cells, each of them at distance exactly `r`
/// from the centre, and no cell occurs twice.
pub proof fn lemma_ring_is_circle(center: Point, r: int)
    requires
        r >= 1,
    ensures
        ring_seq(center, r).len() == 6 * r,
        forall|i: int|
            0 <= i < 6 * r ==> spec_distance(center, #[trigger] ring_seq(center, r)[i]) == r,
        ring_seq(center, r).no_duplicates(),
{
    let ring = ring_seq(center, r);
    assert forall|i: int| 0 <= i < 6 * r implies spec_distance(center, #[trigger] ring[i])
        == r by {
        let s = ring_side(r, i);
        lemma_ring_cell_near(center, r, s, i - side_start(r, s) + 1);
    }
    assert forall|i: int, j: int|
        0 <= i < ring.len() && 0 <= j < ring.len() && i != j implies ring[i] != ring[j] by {
        lemma_ring_cells_differ(center, r, i, j);
    }
}

/// Two different cell numbers of a ring name two different cells.
pub proof fn lemma_ring_cells_differ(center: Point, r: int, i: int, j: int)
    requires
        r >= 1,
        0 <= i < 6 * r,
        0 <= j < 6 * r,
        i != j,
    ensures
        ring_point(center, r, i) != ring_point(center, r, j),
{
}

/// The spiral up to radius `n` has `3 n (n + 1)` cells.
pub proof fn lemma_spiral_len(center: Point, n: int)
    requires
        n >= 0,
    ensures
        spiral_seq(center, n).len() == spiral_len(n),
        spiral_len(n) == 3 * n * (n + 1),
    decreases n,
{
    if n > 0 {
        lemma_spiral_len(center, n - 1);
        assert(3 * (n - 1) * n + 6 * n == 3 * n * (n + 1)) by (nonlinear_arith);
    } else {
        assert(3 * n * (n + 1) == 0) by (nonlinear_arith)
            requires
                n == 0,
        ;
    }
}

/// Every cell of the spiral up to radius `n` lies at a distance of at least
/// 1 and at most `n` from the centre.
pub proof fn lemma_spiral_radius(center: Point, n: int, j: int)
    requires
        0 <= j < spiral_seq(center, n).len(),
    ensures
        1 <= spec_distance(center, spiral_seq(center, n)[j]) <= n,
    decreases n,
{
    if n > 0 {
        let inner = spiral_seq(center, n - 1);
        if j < inner.len() {
            lemma_spiral_radius(center, n - 1, j);
        } else {
            lemma_spiral_len(center, n);
            lemma_spiral_len(center, n - 1);
            lemma_ring_is_circle(center, n);
        }
    }
}

/// No cell occurs twice in a spiral.
pub proof fn lemma_spiral_no_duplicates(center: Point, n: int)
    ensures
        spiral_seq(center, n).no_duplicates(),
    decreases n,
{
    if n > 0 {
        let inner = spiral_seq(center, n - 1);
        let ring = ring_seq(center, n);
        let spiral = spiral_seq(center, n);
        lemma_spiral_no_duplicates(center, n - 1);
        lemma_ring_is_circle(center, n);
        assert forall|i: int, j: int|
            0 <= i < spiral.len() && 0 <= j < spiral.len() && i != j implies spiral[i]
            != spiral[j] by {
            if i < inner.len() && j >= inner.len() {
                lemma_spiral_radius(center, n - 1, i);
            } else if j < inner.len() && i >= inner.len() {
                lemma_spiral_radius(center, n - 1, j);
            }
        }
    }
}

/// Cell number `k` of the ring of radius `ring` is cell number
/// `spiral_len(ring - 1) + k` of every spiral that reaches that radius.
pub proof fn lemma_spiral_index(center: Point, n: int, ring: int, k: int)
    requires
        1 <= ring <= n,
        0 <= k < 6 * ring,
    ensures
        0 <= spiral_len(ring - 1) + k < spiral_len(n),
        spiral_seq(center, n)[spiral_len(ring - 1) + k] == ring_point(center, ring, k),
    decreases n,
{
    lemma_spiral_len(center, n - 1);
    lemma_spiral_len(center, ring - 1);
    if ring < n {
        lemma_spiral_index(center, n - 1, ring, k);
    }
}

} // verus!
