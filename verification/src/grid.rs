//! The grid of color identities: every color of the cube, each on exactly
//! one cell of a square torus.

use crate::color::{in_cube, ColorBase};
use crate::cube::{
    cube_colors, enumerate_cube, holds_cube_once, is_cube_once, lemma_cells_in_cube,
    lemma_cube_colors_complete, lemma_cube_once_is_distinct, lemma_exchange_keeps_counts,
};
use crate::random::{shuffle_outcome, RandomStream};
use crate::torus::Location;
use vstd::arithmetic::div_mod::{
    lemma_fundamental_div_mod, lemma_fundamental_div_mod_converse, lemma_mod_bound,
};
use vstd::prelude::*;
use vstd::seq_lib::to_multiset_contains;

verus! {

/// The smallest scale for which the cube has more than one color.
pub const MIN_SCALE: u64 = 2;

/// The largest scale whose colors still fit into eight bits per channel.
pub const MAX_SCALE: u64 = 16;

/// The number of values per channel of the cube that belongs to `scale`.
pub open spec fn color_side(scale: int) -> int {
    scale * scale
}

/// The number of rows, and of columns, of the grid that belongs to `scale`.
pub open spec fn grid_side(scale: int) -> int {
    scale * scale * scale
}

/// The sizes that belong to a scale the library accepts.
pub proof fn lemma_sides(scale: int)
    requires
        MIN_SCALE <= scale <= MAX_SCALE,
    ensures
        4 <= color_side(scale) <= 256,
        8 <= grid_side(scale) <= 4096,
        grid_side(scale) * grid_side(scale) == color_side(scale) * color_side(scale) * color_side(
            scale,
        ),
        grid_side(scale) * grid_side(scale) <= 16777216,
{
    assert(4 <= scale * scale <= 256) by (nonlinear_arith)
        requires
            2 <= scale <= 16,
    ;
    let cs = scale * scale;
    assert(8 <= cs * scale <= 4096) by (nonlinear_arith)
        requires
            2 <= scale <= 16,
            4 <= cs <= 256,
    ;
    let side = cs * scale;
    assert(side * side == cs * cs * cs) by (nonlinear_arith)
        requires
            side == cs * scale,
            cs == scale * scale,
    ;
    assert(side * side <= 16777216) by (nonlinear_arith)
        requires
            0 <= side <= 4096,
    ;
}

/// What a grid is to a proof: its scale, and its cells row by row.
pub struct GridModel {
    pub scale: int,
    pub cells: Seq<ColorBase>,
}

impl GridModel {
    /// The number of rows, and of columns.
    pub open spec fn size(self) -> int {
        grid_side(self.scale)
    }

    /// The number of values per channel of the color cube.
    pub open spec fn color_size(self) -> int {
        color_side(self.scale)
    }

    /// The invariant of a grid: an accepted scale, one cell for every pair
    /// of a row and a column, and every color of the cube on exactly one cell.
    pub open spec fn wf(self) -> bool {
        &&& MIN_SCALE <= self.scale <= MAX_SCALE
        &&& self.cells.len() == self.size() * self.size()
        &&& holds_cube_once(self.cells, self.color_size())
    }

    /// Where the cell at `loc` stands among the cells.
    pub open spec fn index(self, loc: Location) -> int {
        loc.row * self.size() + loc.col
    }

    /// The color on the cell at `loc`.
    pub open spec fn at(self, loc: Location) -> ColorBase {
        self.cells[self.index(loc)]
    }

    /// The grid after the colors at `a` and `b` have changed places.
    pub open spec fn swapped(self, a: Location, b: Location) -> GridModel {
        GridModel {
            scale: self.scale,
            cells: self.cells.update(self.index(a), self.at(b)).update(self.index(b), self.at(a)),
        }
    }
}

/// A location on the grid names one of its cells.
pub proof fn lemma_index_range(model: GridModel, loc: Location)
    requires
        model.wf(),
        loc.within(model.size()),
    ensures
        0 <= model.index(loc) < model.cells.len(),
        model.index(loc) < 16777216,
{
    lemma_sides(model.scale);
    let size = model.size();
    assert(loc.row * size + loc.col < size * size) by (nonlinear_arith)
        requires
            0 <= loc.row < size,
            0 <= loc.col < size,
    ;
    assert(0 <= loc.row * size) by (nonlinear_arith)
        requires
            0 <= loc.row,
            0 <= size,
    ;
}

/// Two locations on the grid that name the same cell are the same location.
pub proof fn lemma_index_injective(model: GridModel, a: Location, b: Location)
    requires
        model.wf(),
        a.within(model.size()),
        b.within(model.size()),
        model.index(a) == model.index(b),
    ensures
        a == b,
{
    let size = model.size();
    lemma_sides(model.scale);
    lemma_fundamental_div_mod_converse(model.index(a), size, a.row as int, a.col as int);
    lemma_fundamental_div_mod_converse(model.index(b), size, b.row as int, b.col as int);
}

/// Different cells of a grid hold different colors.
pub proof fn lemma_cells_differ(model: GridModel, a: Location, b: Location)
    requires
        model.wf(),
        a.within(model.size()),
        b.within(model.size()),
        a != b,
    ensures
        model.at(a) != model.at(b),
{
    lemma_index_range(model, a);
    lemma_index_range(model, b);
    if model.index(a) == model.index(b) {
        lemma_index_injective(model, a, b);
    }
    model.cells.lemma_multiset_has_no_duplicates_conv();
}

/// Every color of the cube is on some cell of a grid.
pub proof fn lemma_color_placed(model: GridModel, c: ColorBase) -> (loc: Location)
    requires
        model.wf(),
        in_cube(c, model.color_size()),
    ensures
        loc.within(model.size()),
        model.at(loc) == c,
{
    lemma_sides(model.scale);
    to_multiset_contains(model.cells, c);
    let i = choose|i: int| 0 <= i < model.cells.len() && model.cells[i] == c;
    let size = model.size();
    lemma_fundamental_div_mod(i, size);
    lemma_mod_bound(i, size);
    let row = i / size;
    let col = i % size;
    assert(0 <= row < size) by (nonlinear_arith)
        requires
            0 <= i < size * size,
            i == size * row + col,
            0 <= col < size,
    ;
    assert(row * size + col == i) by (nonlinear_arith)
        requires
            i == size * row + col,
    ;
    Location { row: row as usize, col: col as usize }
}

/// A swap keeps a grid well formed: no color is gained and none is lost.
pub proof fn lemma_swapped_wf(model: GridModel, a: Location, b: Location)
    requires
        model.wf(),
        a.within(model.size()),
        b.within(model.size()),
    ensures
        model.swapped(a, b).wf(),
        model.swapped(a, b).cells.to_multiset() == model.cells.to_multiset(),
{
    lemma_index_range(model, a);
    lemma_index_range(model, b);
    lemma_exchange_keeps_counts(model.cells, model.index(a), model.index(b));
}

/// A swap lets the colors of two cells change places and leaves every other
/// cell as it was.
pub proof fn lemma_swapped_at(model: GridModel, a: Location, b: Location)
    requires
        model.wf(),
        a.within(model.size()),
        b.within(model.size()),
    ensures
        model.swapped(a, b).at(a) == model.at(b),
        model.swapped(a, b).at(b) == model.at(a),
        forall|loc: Location|
            loc.within(model.size()) && loc != a && loc != b ==> #[trigger] model.swapped(a, b).at(
                loc,
            ) == model.at(loc),
{
    lemma_index_range(model, a);
    lemma_index_range(model, b);
    assert forall|loc: Location|
        loc.within(model.size()) && loc != a && loc != b implies #[trigger] model.swapped(a, b).at(
        loc,
    ) == model.at(loc) by {
        lemma_index_range(model, loc);
        if model.index(loc) == model.index(a) {
            lemma_index_injective(model, loc, a);
        }
        if model.index(loc) == model.index(b) {
            lemma_index_injective(model, loc, b);
        }
    }
}

/// Every color of the cube, each on one cell of a square torus.
pub struct Grid {
    scale: u64,
    cells: Vec<ColorBase>,
}

impl View for Grid {
    type V = GridModel;

    closed spec fn view(&self) -> GridModel {
        GridModel { scale: self.scale as int, cells: self.cells@ }
    }
}

impl Grid {
    /// The invariant of a grid. Every function that builds or changes a grid
    /// establishes it.
    pub open spec fn wf(&self) -> bool {
        self@.wf()
    }

    /// Makes a grid of cells that are already in place, row by row. There is
    /// a grid exactly when the scale is accepted and the cells are the
    /// colors of its cube, each once.
    pub fn from_cells(scale: u64, cells: Vec<ColorBase>) -> (grid: Option<Grid>)
        ensures
            grid is Some <==> (GridModel { scale: scale as int, cells: cells@ }).wf(),
            grid matches Some(g) ==> g@ == (GridModel { scale: scale as int, cells: cells@ }),
    {
        if scale < MIN_SCALE || scale > MAX_SCALE {
            return None;
        }
        proof {
            lemma_sides(scale as int);
            if holds_cube_once(cells@, color_side(scale as int)) {
                lemma_cube_once_is_distinct(cells@, color_side(scale as int));
            }
        }
        if is_cube_once(&cells, scale * scale) {
            Some(Grid { scale, cells })
        } else {
            None
        }
    }

    /// The scale the grid was made for.
    pub fn scale(&self) -> (scale: u64)
        requires
            self.wf(),
        ensures
            scale == self@.scale,
            MIN_SCALE <= scale <= MAX_SCALE,
    {
        self.scale
    }

    /// The number of rows, and of columns.
    pub fn size(&self) -> (size: usize)
        requires
            self.wf(),
        ensures
            size == self@.size(),
            8 <= size <= 4096,
    {
        proof {
            lemma_sides(self@.scale);
        }
        let side: u64 = self.scale * self.scale * self.scale;
        side as usize
    }

    /// The number of values per channel of the color cube.
    pub fn color_size(&self) -> (color_size: u64)
        requires
            self.wf(),
        ensures
            color_size == self@.color_size(),
            4 <= color_size <= 256,
    {
        proof {
            lemma_sides(self@.scale);
        }
        self.scale * self.scale
    }

    /// All cells, row by row.
    pub fn cells(&self) -> (cells: &Vec<ColorBase>)
        ensures
            cells@ == self@.cells,
    {
        &self.cells
    }

    /// The color on the cell at `loc`.
    pub fn at(&self, loc: Location) -> (c: ColorBase)
        requires
            self.wf(),
            loc.within(self@.size()),
        ensures
            c == self@.at(loc),
            in_cube(c, self@.color_size()),
    {
        proof {
            lemma_index_range(self@, loc);
            lemma_cells_in_cube(self@.cells, self@.color_size(), self@.index(loc));
        }
        let size = self.size();
        self.cells[loc.row * size + loc.col]
    }

    /// Lets the colors at `a` and `b` change places.
    pub fn swap(&mut self, a: Location, b: Location)
        requires
            old(self).wf(),
            a.within(old(self)@.size()),
            b.within(old(self)@.size()),
        ensures
            final(self).wf(),
            final(self)@ == old(self)@.swapped(a, b),
            final(self)@.at(a) == old(self)@.at(b),
            final(self)@.at(b) == old(self)@.at(a),
            forall|loc: Location|
                loc.within(old(self)@.size()) && loc != a && loc != b
                    ==> #[trigger] final(self)@.at(loc) == old(self)@.at(loc),
    {
        proof {
            lemma_index_range(self@, a);
            lemma_index_range(self@, b);
            lemma_swapped_wf(self@, a, b);
            lemma_swapped_at(self@, a, b);
        }
        let size = self.size();
        let i = a.row * size + a.col;
        let j = b.row * size + b.col;
        let ca = self.cells[i];
        let cb = self.cells[j];
        self.cells.set(i, cb);
        self.cells.set(j, ca);
    }
}

/// Makes the grid for `scale`: lists the colors of the cube, shuffles them
/// with `rng`, and lays them out row by row.
pub fn initialize(scale: u64, rng: &mut RandomStream) -> (grid: Grid)
    requires
        MIN_SCALE <= scale <= MAX_SCALE,
    ensures
        grid.wf(),
        grid@.scale == scale,
        (grid@.cells, final(rng)@) == shuffle_outcome(
            old(rng)@,
            cube_colors(color_side(scale as int)),
        ),
        grid@.cells.to_multiset() == cube_colors(color_side(scale as int)).to_multiset(),
{
    proof {
        lemma_sides(scale as int);
        lemma_cube_colors_complete(color_side(scale as int));
    }
    let mut cells = enumerate_cube(scale * scale);
    rng.shuffle(&mut cells);
    Grid { scale, cells }
}

} // verus!
