//! A whole arrangement: from a configuration and a seed to the finished grid.

use crate::config::{config_error, spec_distances, validate, ConfigError};
use crate::cube::{cube_colors, holds_cube_once};
use crate::grid::{
    color_side, grid_side, initialize, lemma_sides, Grid, GridModel, MAX_SCALE, MIN_SCALE,
};
use crate::random::{draw_outcome, seeded_state, shuffle_outcome, RandomStream};
use crate::torus::{Dir, Location};
use crate::walker::{spec_walk, walk, WalkModel, Walker};
use vstd::prelude::*;

verus! {

/// The state in which a walk begins when the stream is in the state `rng`:
/// the colors of the cube are shuffled and laid out row by row, then the
/// walker's row is drawn, then its column. The walker faces up.
pub open spec fn spec_begin(scale: u64, rng: Seq<u8>) -> WalkModel {
    let (cells, rng1) = shuffle_outcome(rng, cube_colors(color_side(scale as int)));
    let side = grid_side(scale as int) as u64;
    let (row, rng2) = draw_outcome(rng1, side);
    let (col, rng3) = draw_outcome(rng2, side);
    WalkModel {
        grid: GridModel { scale: scale as int, cells },
        walker: Walker { loc: Location { row: row as usize, col: col as usize }, dir: Dir::Up },
        rng: rng3,
    }
}

/// The grid that an accepted configuration leads to.
pub open spec fn spec_arrangement(scale: u64, steps: u64, max_power: usize, seed: u64) -> GridModel {
    spec_walk(spec_begin(scale, seeded_state(seed)), spec_distances(max_power), steps as nat).grid
}

/// Whether `outcome` is what [`run`] returns for a configuration: the error
/// of a refused one, else the grid that the configuration leads to.
pub open spec fn is_run_outcome(
    outcome: Result<Grid, ConfigError>,
    scale: u64,
    steps: u64,
    max_power: usize,
    seed: u64,
) -> bool {
    match config_error(scale, max_power) {
        Some(e) => outcome matches Err(err) && err == e,
        None => outcome matches Ok(grid) && grid@ == spec_arrangement(
            scale,
            steps,
            max_power,
            seed,
        ),
    }
}

/// Makes the grid for `scale` and puts a walker on it.
pub fn begin(scale: u64, rng: &mut RandomStream) -> (state: (Grid, Walker))
    requires
        MIN_SCALE <= scale <= MAX_SCALE,
    ensures
        state.0.wf(),
        state.0@.scale == scale,
        state.1.loc.within(state.0@.size()),
        state.0@.cells.to_multiset() == cube_colors(color_side(scale as int)).to_multiset(),
        (WalkModel { grid: state.0@, walker: state.1, rng: final(rng)@ }) == spec_begin(
            scale,
            old(rng)@,
        ),
{
    proof {
        lemma_sides(scale as int);
    }
    let grid = initialize(scale, rng);
    let side = grid.size() as u64;
    let row = rng.below(side);
    let col = rng.below(side);
    let walker = Walker { loc: Location { row: row as usize, col: col as usize }, dir: Dir::Up };
    (grid, walker)
}

/// Arranges the colors of the cube for `scale` on a torus: shuffles them
/// with the stream that belongs to `seed`, then walks `steps` steps over the
/// grid, with hop lengths drawn from the powers of two below `2^max_power`.
///
/// A configuration is refused, before anything else is done, exactly when
/// [`config_error`] names an error for it. Otherwise the grid returned holds
/// every color of the cube exactly once, however many steps were taken.
pub fn run(scale: u64, steps: u64, max_power: usize, seed: u64) -> (outcome: Result<
    Grid,
    ConfigError,
>)
    ensures
        is_run_outcome(outcome, scale, steps, max_power, seed),
        outcome is Err <==> config_error(scale, max_power) is Some,
        outcome matches Ok(grid) ==> {
            &&& grid.wf()
            &&& grid@.scale == scale
            &&& holds_cube_once(grid@.cells, color_side(scale as int))
            &&& grid@.cells.to_multiset() == cube_colors(color_side(scale as int)).to_multiset()
        },
{
    let dists = match validate(scale, max_power) {
        Ok(dists) => dists,
        Err(e) => {
            return Err(e);
        },
    };
    let mut rng = RandomStream::from_seed(seed);
    let (mut grid, mut walker) = begin(scale, &mut rng);
    walk(&mut grid, &mut walker, &mut rng, &dists, steps);
    Ok(grid)
}

/// Two runs with the same configuration and the same seed end alike: in
/// the same error, or in grids that agree on every cell.
pub proof fn lemma_run_deterministic(
    first: Result<Grid, ConfigError>,
    second: Result<Grid, ConfigError>,
    scale: u64,
    steps: u64,
    max_power: usize,
    seed: u64,
)
    requires
        is_run_outcome(first, scale, steps, max_power, seed),
        is_run_outcome(second, scale, steps, max_power, seed),
    ensures
        first is Ok <==> second is Ok,
        first matches Ok(a) ==> second matches Ok(b) && a@ == b@,
        first matches Err(a) ==> second matches Err(b) && a == b,
{
}

/// A run of no steps returns the grid as it was first laid out: the colors
/// of the cube in the order in which the shuffle left them.
pub proof fn lemma_zero_steps(scale: u64, max_power: usize, seed: u64)
    ensures
        spec_arrangement(scale, 0, max_power, seed) == spec_begin(scale, seeded_state(seed)).grid,
        spec_arrangement(scale, 0, max_power, seed).cells == shuffle_outcome(
            seeded_state(seed),
            cube_colors(color_side(scale as int)),
        ).0,
{
}

} // verus!
