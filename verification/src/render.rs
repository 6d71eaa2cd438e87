//! The picture of a grid: one pixel per cell, in the displayable color of
//! the cell's color identity.
//!
//! The pixels are held by an `image::RgbImage`. What is taken on trust about
//! that buffer is stated here; the loop that fills it is proved.

use crate::arrange::{run, spec_arrangement};
use crate::color::{
    color_base_to_color, in_cube, lemma_quantize_injective, spec_color, Color, ColorBase,
};
use crate::config::{config_error, ConfigError};
use crate::cube::lemma_cells_in_cube;
use crate::grid::{
    lemma_cells_differ, lemma_color_placed, lemma_index_range, lemma_sides, Grid, GridModel,
};
use crate::torus::Location;
use image::{Rgb, RgbImage};
use vstd::prelude::*;

verus! {

/// A picture with eight bits for each of red, green and blue. It holds an
/// `image::RgbImage`, of which proofs see only what [`picture_rows`] names.
#[verifier::external_body]
pub struct Picture {
    img: RgbImage,
}

/// The pixels of a picture, row by row from the top, each row from the left:
/// the pixel at `(x, y)` is `picture_rows(p)[y][x]`. All rows have the
/// picture's width, and there are as many rows as the picture is high.
pub uninterp spec fn picture_rows(picture: Picture) -> Seq<Seq<Color>>;

/// Calls `ImageBuffer::new`, which panics when the buffer would be larger
/// than a vector can be. Trusted: the picture has the given width and
/// height, and every channel of every pixel is zero.
#[verifier::external_body]
fn blank_picture(width: u32, height: u32) -> (picture: Picture)
    requires
        3 * width * height <= isize::MAX,
    ensures
        picture_rows(picture) == Seq::new(
            height as nat,
            |y: int| Seq::new(width as nat, |x: int| Color { r: 0, g: 0, b: 0 }),
        ),
{
    Picture { img: RgbImage::new(width, height) }
}

/// Calls `ImageBuffer::put_pixel`, which panics when `(x, y)` is outside the
/// picture. Trusted: the pixel at `(x, y)` becomes `color`, and no other
/// pixel changes.
#[verifier::external_body]
fn put_color(picture: &mut Picture, x: u32, y: u32, color: Color)
    requires
        y < picture_rows(*old(picture)).len(),
        x < picture_rows(*old(picture))[y as int].len(),
    ensures
        picture_rows(*final(picture)) == picture_rows(*old(picture)).update(
            y as int,
            picture_rows(*old(picture))[y as int].update(x as int, color),
        ),
{
    picture.img.put_pixel(x, y, Rgb([color.r, color.g, color.b]));
}

/// Calls `ImageBuffer::into_raw`. Trusted: the buffer holds the rows one
/// after the other, and in each row three bytes per pixel: red, green, blue.
#[verifier::external_body]
fn raw_bytes(picture: Picture) -> (bytes: Vec<u8>)
    ensures
        bytes@ == spec_bytes(picture_rows(picture)),
{
    picture.img.into_raw()
}

/// The three bytes of a pixel.
pub open spec fn spec_pixel_bytes(color: Color) -> Seq<u8> {
    seq![color.r, color.g, color.b]
}

/// The bytes of a picture: row after row, pixel after pixel.
pub open spec fn spec_bytes(rows: Seq<Seq<Color>>) -> Seq<u8> {
    rows.map_values(|row: Seq<Color>| row.map_values(|c: Color| spec_pixel_bytes(c)).flatten())
        .flatten()
}

impl View for Picture {
    type V = Seq<Seq<Color>>;

    open spec fn view(&self) -> Seq<Seq<Color>> {
        picture_rows(*self)
    }
}

impl Picture {
    /// Gives up the picture for its bytes, as an encoder wants them.
    pub fn into_raw(self) -> (bytes: Vec<u8>)
        ensures
            bytes@ == spec_bytes(self@),
    {
        raw_bytes(self)
    }
}

/// The picture of a grid: the pixel at `(x, y)` shows the color of the cell
/// in row `x` and column `y`.
pub open spec fn spec_picture(grid: GridModel) -> Seq<Seq<Color>> {
    Seq::new(
        grid.size() as nat,
        |y: int|
            Seq::new(
                grid.size() as nat,
                |x: int|
                    spec_color(
                        grid.at(Location { row: x as usize, col: y as usize }),
                        grid.color_size(),
                    ),
            ),
    )
}

/// The picture while it is being drawn: the cells before the one in row
/// `row` and column `col`, row by row, are shown; the others are still black.
spec fn spec_partial_picture(grid: GridModel, row: int, col: int) -> Seq<Seq<Color>> {
    Seq::new(
        grid.size() as nat,
        |y: int|
            Seq::new(
                grid.size() as nat,
                |x: int|
                    if x < row || (x == row && y < col) {
                        spec_picture(grid)[y][x]
                    } else {
                        Color { r: 0, g: 0, b: 0 }
                    },
            ),
    )
}

/// The pixel of a picture that shows the cell at `loc`.
pub open spec fn spec_pixel(grid: GridModel, loc: Location) -> Color {
    spec_picture(grid)[loc.col as int][loc.row as int]
}

/// The picture of a grid shows each cell in the displayable color of its
/// color identity.
pub proof fn lemma_pixel_shows_cell(grid: GridModel, loc: Location)
    requires
        loc.within(grid.size()),
    ensures
        spec_pixel(grid, loc) == spec_color(grid.at(loc), grid.color_size()),
{
}

/// No two pixels of a grid's picture have the same color.
pub proof fn lemma_pixels_differ(grid: GridModel, a: Location, b: Location)
    requires
        grid.wf(),
        a.within(grid.size()),
        b.within(grid.size()),
        a != b,
    ensures
        spec_pixel(grid, a) != spec_pixel(grid, b),
{
    lemma_sides(grid.scale);
    lemma_cells_differ(grid, a, b);
    lemma_index_range(grid, a);
    lemma_index_range(grid, b);
    lemma_cells_in_cube(grid.cells, grid.color_size(), grid.index(a));
    lemma_cells_in_cube(grid.cells, grid.color_size(), grid.index(b));
    if spec_pixel(grid, a) == spec_pixel(grid, b) {
        lemma_quantize_injective(grid.at(a), grid.at(b), grid.color_size());
    }
}

/// Every color of the cube is shown by some pixel of a grid's picture.
pub proof fn lemma_color_shown(grid: GridModel, c: ColorBase) -> (loc: Location)
    requires
        grid.wf(),
        in_cube(c, grid.color_size()),
    ensures
        loc.within(grid.size()),
        spec_pixel(grid, loc) == spec_color(c, grid.color_size()),
{
    lemma_color_placed(grid, c)
}

/// Draws the picture of a grid.
pub fn render(grid: &Grid) -> (picture: Picture)
    requires
        grid.wf(),
    ensures
        picture@ == spec_picture(grid@),
{
    let size = grid.size();
    let color_size = grid.color_size();
    let side = size as u32;
    assert(3 * side * side <= 50331648) by (nonlinear_arith)
        requires
            0 <= side <= 4096,
    ;
    let mut picture = blank_picture(side, side);
    assert(picture@ =~~= spec_partial_picture(grid@, 0, 0));
    let mut row: usize = 0;
    while row < size
        invariant
            grid.wf(),
            size == grid@.size(),
            color_size == grid@.color_size(),
            color_size >= 4,
            size <= 4096,
            row <= size,
            picture@ == spec_partial_picture(grid@, row as int, 0),
        decreases size - row,
    {
        let mut col: usize = 0;
        while col < size
            invariant
                grid.wf(),
                size == grid@.size(),
                color_size == grid@.color_size(),
                color_size >= 4,
                size <= 4096,
                row < size,
                col <= size,
                picture@ == spec_partial_picture(grid@, row as int, col as int),
            decreases size - col,
        {
            let color = color_base_to_color(grid.at(Location { row, col }), color_size);
            put_color(&mut picture, row as u32, col as u32, color);
            col = col + 1;
            assert(picture@ =~~= spec_partial_picture(grid@, row as int, col as int));
        }
        row = row + 1;
        assert(picture@ =~~= spec_partial_picture(grid@, row as int, 0));
    }
    assert(picture@ =~~= spec_picture(grid@));
    picture
}

/// Arranges the colors as [`run`] does and draws the picture of the result.
pub fn make_image(scale: u64, steps: u64, max_power: usize, seed: u64) -> (outcome: Result<
    Picture,
    ConfigError,
>)
    ensures
        match config_error(scale, max_power) {
            Some(e) => outcome matches Err(err) && err == e,
            None => outcome matches Ok(picture) && picture@ == spec_picture(
                spec_arrangement(scale, steps, max_power, seed),
            ),
        },
{
    match run(scale, steps, max_power, seed) {
        Ok(grid) => Ok(render(&grid)),
        Err(e) => Err(e),
    }
}

} // verus!
