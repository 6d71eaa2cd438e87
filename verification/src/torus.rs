//! Positions on a square torus, and the four directions a walk can take.

use vstd::arithmetic::div_mod::{lemma_fundamental_div_mod, lemma_fundamental_div_mod_converse};
use vstd::prelude::*;

verus! {

/// A cell of the grid.
#[derive(Clone, Copy, Debug, PartialEq, Eq, Structural)]
pub struct Location {
    pub row: usize,
    pub col: usize,
}

impl Location {
    /// Whether the location names a cell of a grid with `size` rows and
    /// `size` columns.
    pub open spec fn within(self, size: int) -> bool {
        self.row < size && self.col < size
    }
}

/// The direction of a move on the torus.
#[derive(Clone, Copy, Debug, PartialEq, Eq, Structural)]
pub enum Dir {
    Left,
    Right,
    Up,
    Down,
}

/// The coordinate `dist` cells before `x` on a ring of `size` cells.
pub open spec fn ring_back(x: int, dist: int, size: int) -> int {
    (x - dist) % size
}

/// The coordinate `dist` cells after `x` on a ring of `size` cells.
pub open spec fn ring_forth(x: int, dist: int, size: int) -> int {
    (x + dist) % size
}

/// Both ring moves stay on the ring.
pub proof fn lemma_ring_range(x: int, dist: int, size: int)
    requires
        size > 0,
    ensures
        0 <= ring_back(x, dist, size) < size,
        0 <= ring_forth(x, dist, size) < size,
{
    vstd::arithmetic::div_mod::lemma_mod_bound(x - dist, size);
    vstd::arithmetic::div_mod::lemma_mod_bound(x + dist, size);
}

/// A move by the whole length of the ring ends where it began.
pub proof fn lemma_ring_full_turn(x: int, size: int)
    requires
        0 <= x < size,
    ensures
        ring_back(x, size, size) == x,
        ring_forth(x, size, size) == x,
{
    lemma_fundamental_div_mod_converse(x - size, size, -1, x);
    lemma_fundamental_div_mod_converse(x + size, size, 1, x);
}

/// Moving forth and then back by the same distance is no move at all.
pub proof fn lemma_ring_back_undoes_forth(x: int, dist: int, size: int)
    requires
        0 <= x < size,
    ensures
        ring_back(ring_forth(x, dist, size), dist, size) == x,
        ring_forth(ring_back(x, dist, size), dist, size) == x,
{
    let qf = (x + dist) / size;
    let f = (x + dist) % size;
    lemma_fundamental_div_mod(x + dist, size);
    assert(f - dist == (-qf) * size + x) by (nonlinear_arith)
        requires
            x + dist == size * qf + f,
    ;
    lemma_fundamental_div_mod_converse(f - dist, size, -qf, x);
    let qb = (x - dist) / size;
    let b = (x - dist) % size;
    lemma_fundamental_div_mod(x - dist, size);
    assert(b + dist == (-qb) * size + x) by (nonlinear_arith)
        requires
            x - dist == size * qb + b,
    ;
    lemma_fundamental_div_mod_converse(b + dist, size, -qb, x);
}

fn step_back(x: usize, dist: usize, size: usize) -> (out: usize)
    requires
        size > 0,
        x < size,
    ensures
        out == ring_back(x as int, dist as int, size as int),
        out < size,
{
    let d = dist % size;
    let out = if x >= d {
        x - d
    } else {
        size - (d - x)
    };
    proof {
        let q = dist as int / size as int;
        lemma_fundamental_div_mod(dist as int, size as int);
        let k = if x >= d {
            -q
        } else {
            -q - 1
        };
        assert(x - dist == k * size + out) by (nonlinear_arith)
            requires
                dist == size * q + d,
                k == (if x >= d {
                    -q
                } else {
                    -q - 1
                }),
                out == (if x >= d {
                    x - d
                } else {
                    size - (d - x)
                }),
        ;
        lemma_fundamental_div_mod_converse(x as int - dist as int, size as int, k, out as int);
    }
    out
}

fn step_forth(x: usize, dist: usize, size: usize) -> (out: usize)
    requires
        size > 0,
        x < size,
    ensures
        out == ring_forth(x as int, dist as int, size as int),
        out < size,
{
    let d = dist % size;
    let out = if d < size - x {
        x + d
    } else {
        d - (size - x)
    };
    proof {
        let q = dist as int / size as int;
        lemma_fundamental_div_mod(dist as int, size as int);
        let k = if d < size - x {
            q
        } else {
            q + 1
        };
        assert(x + dist == k * size + out) by (nonlinear_arith)
            requires
                dist == size * q + d,
                k == (if d < size - x {
                    q
                } else {
                    q + 1
                }),
                out == (if d < size - x {
                    x + d
                } else {
                    d - (size - x)
                }),
        ;
        lemma_fundamental_div_mod_converse(x as int + dist as int, size as int, k, out as int);
    }
    out
}

impl Dir {
    /// The direction that undoes a move in this one.
    pub open spec fn opposite(self) -> Dir {
        match self {
            Dir::Up => Dir::Down,
            Dir::Down => Dir::Up,
            Dir::Left => Dir::Right,
            Dir::Right => Dir::Left,
        }
    }

    /// The cell reached from `loc` after `dist` steps in this direction on a
    /// torus of side `size`: up and down change the row, left and right the
    /// column, and a coordinate that leaves the grid re-enters on the other
    /// side.
    pub open spec fn spec_apply(self, loc: Location, size: int, dist: int) -> Location {
        match self {
            Dir::Up => Location {
                row: ring_back(loc.row as int, dist, size) as usize,
                col: loc.col,
            },
            Dir::Down => Location {
                row: ring_forth(loc.row as int, dist, size) as usize,
                col: loc.col,
            },
            Dir::Left => Location {
                row: loc.row,
                col: ring_back(loc.col as int, dist, size) as usize,
            },
            Dir::Right => Location {
                row: loc.row,
                col: ring_forth(loc.col as int, dist, size) as usize,
            },
        }
    }

    /// The directions a walk may take after a move in this one, in the order
    /// in which they are drawn: going on, or turning to either side.
    pub open spec fn spec_non_back(self) -> Seq<Dir> {
        match self {
            Dir::Up => seq![Dir::Up, Dir::Left, Dir::Right],
            Dir::Down => seq![Dir::Down, Dir::Left, Dir::Right],
            Dir::Left => seq![Dir::Down, Dir::Left, Dir::Up],
            Dir::Right => seq![Dir::Down, Dir::Right, Dir::Up],
        }
    }

    /// Moves `dist` cells from `loc` in this direction, wrapping at the edges.
    pub fn apply(self, loc: Location, size: usize, dist: usize) -> (out: Location)
        requires
            size > 0,
            loc.within(size as int),
        ensures
            out == self.spec_apply(loc, size as int, dist as int),
            out.within(size as int),
    {
        match self {
            Dir::Up => Location { row: step_back(loc.row, dist, size), col: loc.col },
            Dir::Down => Location { row: step_forth(loc.row, dist, size), col: loc.col },
            Dir::Left => Location { row: loc.row, col: step_back(loc.col, dist, size) },
            Dir::Right => Location { row: loc.row, col: step_forth(loc.col, dist, size) },
        }
    }

    /// The three directions that do not reverse this one.
    pub fn non_back(self) -> (out: [Dir; 3])
        ensures
            out@ == self.spec_non_back(),
    {
        match self {
            Dir::Up => [Dir::Up, Dir::Left, Dir::Right],
            Dir::Down => [Dir::Down, Dir::Left, Dir::Right],
            Dir::Left => [Dir::Down, Dir::Left, Dir::Up],
            Dir::Right => [Dir::Down, Dir::Right, Dir::Up],
        }
    }
}

/// A move keeps the walker on the grid.
pub proof fn lemma_apply_within(dir: Dir, loc: Location, size: int, dist: int)
    requires
        0 < size <= usize::MAX,
        loc.within(size),
    ensures
        dir.spec_apply(loc, size, dist).within(size),
{
    lemma_ring_range(loc.row as int, dist, size);
    lemma_ring_range(loc.col as int, dist, size);
}

/// A move by the whole side of the torus ends on the cell where it began.
pub proof fn lemma_apply_full_turn(dir: Dir, loc: Location, size: int)
    requires
        loc.within(size),
    ensures
        dir.spec_apply(loc, size, size) == loc,
{
    lemma_ring_full_turn(loc.row as int, size);
    lemma_ring_full_turn(loc.col as int, size);
}

/// A move in the opposite direction over the same distance leads back.
pub proof fn lemma_apply_opposite(dir: Dir, loc: Location, size: int, dist: int)
    requires
        0 < size <= usize::MAX,
        loc.within(size),
    ensures
        dir.opposite().spec_apply(dir.spec_apply(loc, size, dist), size, dist) == loc,
{
    lemma_ring_range(loc.row as int, dist, size);
    lemma_ring_range(loc.col as int, dist, size);
    lemma_ring_back_undoes_forth(loc.row as int, dist, size);
    lemma_ring_back_undoes_forth(loc.col as int, dist, size);
}

/// Of the four directions exactly three may follow any given one: all but
/// its opposite. The direction itself is among them.
pub proof fn lemma_non_back(dir: Dir)
    ensures
        dir.spec_non_back().len() == 3,
        dir.spec_non_back().no_duplicates(),
        !dir.spec_non_back().contains(dir.opposite()),
        forall|d: Dir| d != dir.opposite() ==> dir.spec_non_back().contains(d),
{
    let s = dir.spec_non_back();
    assert forall|d: Dir| d != dir.opposite() implies s.contains(d) by {
        assert(s[0] == d || s[1] == d || s[2] == d);
    }
}

} // verus!
