//! The walk that smooths the grid: at every step it looks at three cells in
//! a row, swaps two neighbouring ones if that brings similar colors together,
//! moves on by one hop and picks its next direction.

use crate::color::{color_dist, spec_color_dist};
use crate::grid::{lemma_swapped_wf, Grid, GridModel};
use crate::random::{draw_outcome, RandomStream};
use crate::torus::{lemma_apply_within, Dir, Location};
use vstd::prelude::*;

verus! {

/// What a step does to the three cells it looks at.
#[derive(Clone, Copy, Debug, PartialEq, Eq, Structural)]
pub enum Swap {
    /// The walker's cell and the next one change places.
    Behind,
    /// The next cell and the one after it change places.
    Ahead,
    /// Nothing changes.
    Keep,
}

/// The rule of the walk. `d1` is the distance between the colors of the
/// walker's cell and the next, `d2` between the next and the one after it,
/// and `d_new` between the walker's cell and the one after the next. The
/// first test that holds decides.
pub open spec fn spec_decide(d1: int, d2: int, d_new: int) -> Swap {
    if d_new < d2 && d2 >= d1 {
        Swap::Behind
    } else if d_new < d1 {
        Swap::Ahead
    } else {
        Swap::Keep
    }
}

/// Applies the rule of the walk to three distances.
pub fn decide(d1: i64, d2: i64, d_new: i64) -> (swap: Swap)
    ensures
        swap == spec_decide(d1 as int, d2 as int, d_new as int),
{
    if d_new < d2 && d2 >= d1 {
        Swap::Behind
    } else if d_new < d1 {
        Swap::Ahead
    } else {
        Swap::Keep
    }
}

/// The swap that a step from `loc` in the direction `dir` with the hop
/// length `dist` makes on `grid`.
pub open spec fn spec_choice(grid: GridModel, loc: Location, dir: Dir, dist: int) -> Swap {
    let next = dir.spec_apply(loc, grid.size(), dist);
    let after = dir.spec_apply(next, grid.size(), dist);
    spec_decide(
        spec_color_dist(grid.at(loc), grid.at(next)),
        spec_color_dist(grid.at(next), grid.at(after)),
        spec_color_dist(grid.at(loc), grid.at(after)),
    )
}

/// The grid after a step from `loc` in the direction `dir` with the hop
/// length `dist`.
pub open spec fn spec_advance(grid: GridModel, loc: Location, dir: Dir, dist: int) -> GridModel {
    let next = dir.spec_apply(loc, grid.size(), dist);
    let after = dir.spec_apply(next, grid.size(), dist);
    match spec_choice(grid, loc, dir, dist) {
        Swap::Behind => grid.swapped(loc, next),
        Swap::Ahead => grid.swapped(next, after),
        Swap::Keep => grid,
    }
}

/// A step keeps the grid well formed, and keeps every color on it.
pub proof fn lemma_advance_wf(grid: GridModel, loc: Location, dir: Dir, dist: int)
    requires
        grid.wf(),
        loc.within(grid.size()),
    ensures
        spec_advance(grid, loc, dir, dist).wf(),
        spec_advance(grid, loc, dir, dist).scale == grid.scale,
        spec_advance(grid, loc, dir, dist).cells.to_multiset() == grid.cells.to_multiset(),
        dir.spec_apply(loc, grid.size(), dist).within(grid.size()),
{
    crate::grid::lemma_sides(grid.scale);
    let next = dir.spec_apply(loc, grid.size(), dist);
    lemma_apply_within(dir, loc, grid.size(), dist);
    let after = dir.spec_apply(next, grid.size(), dist);
    lemma_apply_within(dir, next, grid.size(), dist);
    lemma_swapped_wf(grid, loc, next);
    lemma_swapped_wf(grid, next, after);
}

/// Makes the swap of one step on `grid` and returns the cell the walker
/// moves to: the next cell in the direction `dir`, whatever was swapped.
pub fn advance(grid: &mut Grid, loc: Location, dir: Dir, dist: usize) -> (next: Location)
    requires
        old(grid).wf(),
        loc.within(old(grid)@.size()),
    ensures
        final(grid).wf(),
        final(grid)@ == spec_advance(old(grid)@, loc, dir, dist as int),
        next == dir.spec_apply(loc, old(grid)@.size(), dist as int),
        next.within(final(grid)@.size()),
{
    proof {
        lemma_advance_wf(grid@, loc, dir, dist as int);
    }
    let size = grid.size();
    let next = dir.apply(loc, size, dist);
    let after = dir.apply(next, size, dist);
    let here_color = grid.at(loc);
    let next_color = grid.at(next);
    let after_color = grid.at(after);
    let d1 = color_dist(here_color, next_color);
    let d2 = color_dist(next_color, after_color);
    let d_new = color_dist(here_color, after_color);
    match decide(d1, d2, d_new) {
        Swap::Behind => {
            grid.swap(loc, next);
        },
        Swap::Ahead => {
            grid.swap(next, after);
        },
        Swap::Keep => {},
    }
    next
}

/// The direction a walker takes after one in the direction `dir`, given the
/// number drawn for the turn.
pub open spec fn spec_turn(dir: Dir, pick: int) -> Dir {
    dir.spec_non_back()[pick]
}

/// Picks the next direction of a walker: one of the three that do not
/// reverse `dir`.
pub fn turn(dir: Dir, pick: u64) -> (next: Dir)
    requires
        pick < 3,
    ensures
        next == spec_turn(dir, pick as int),
        next != dir.opposite(),
{
    let options = dir.non_back();
    options[pick as usize]
}

/// Where a walker stands and which way it faces.
#[derive(Clone, Copy, Debug, PartialEq, Eq, Structural)]
pub struct Walker {
    pub loc: Location,
    pub dir: Dir,
}

/// The whole state of a walk, as proofs see it.
pub struct WalkModel {
    pub grid: GridModel,
    pub walker: Walker,
    pub rng: Seq<u8>,
}

/// One step of the walk. The draws from the stream come in this order: the
/// place of the hop length in `dists`, then, after the swap and the move, the
/// place of the next direction among those that do not reverse the old one.
pub open spec fn spec_step(w: WalkModel, dists: Seq<usize>) -> WalkModel {
    let (k, rng1) = draw_outcome(w.rng, dists.len() as u64);
    let dist = dists[k as int] as int;
    let (t, rng2) = draw_outcome(rng1, 3);
    WalkModel {
        grid: spec_advance(w.grid, w.walker.loc, w.walker.dir, dist),
        walker: Walker {
            loc: w.walker.dir.spec_apply(w.walker.loc, w.grid.size(), dist),
            dir: spec_turn(w.walker.dir, t as int),
        },
        rng: rng2,
    }
}

/// The state of a walk after `steps` steps.
pub open spec fn spec_walk(w: WalkModel, dists: Seq<usize>, steps: nat) -> WalkModel
    decreases steps,
{
    if steps == 0 {
        w
    } else {
        spec_step(spec_walk(w, dists, (steps - 1) as nat), dists)
    }
}

/// Takes one step of the walk.
pub fn step(grid: &mut Grid, walker: &mut Walker, rng: &mut RandomStream, dists: &Vec<usize>)
    requires
        old(grid).wf(),
        old(walker).loc.within(old(grid)@.size()),
        dists@.len() > 0,
    ensures
        final(grid).wf(),
        final(walker).loc.within(final(grid)@.size()),
        final(grid)@.scale == old(grid)@.scale,
        final(grid)@.cells.to_multiset() == old(grid)@.cells.to_multiset(),
        final(walker).dir != old(walker).dir.opposite(),
        (WalkModel { grid: final(grid)@, walker: *final(walker), rng: final(rng)@ }) == spec_step(
            WalkModel { grid: old(grid)@, walker: *old(walker), rng: old(rng)@ },
            dists@,
        ),
{
    let k = rng.below(dists.len() as u64);
    let dist = dists[k as usize];
    let next = advance(grid, walker.loc, walker.dir, dist);
    let t = rng.below(3);
    let dir = turn(walker.dir, t);
    walker.loc = next;
    walker.dir = dir;
}

/// Takes `steps` steps of the walk, one after the other.
pub fn walk(
    grid: &mut Grid,
    walker: &mut Walker,
    rng: &mut RandomStream,
    dists: &Vec<usize>,
    steps: u64,
)
    requires
        old(grid).wf(),
        old(walker).loc.within(old(grid)@.size()),
        steps > 0 ==> dists@.len() > 0,
    ensures
        final(grid).wf(),
        final(walker).loc.within(final(grid)@.size()),
        final(grid)@.scale == old(grid)@.scale,
        final(grid)@.cells.to_multiset() == old(grid)@.cells.to_multiset(),
        (WalkModel { grid: final(grid)@, walker: *final(walker), rng: final(rng)@ }) == spec_walk(
            WalkModel { grid: old(grid)@, walker: *old(walker), rng: old(rng)@ },
            dists@,
            steps as nat,
        ),
{
    let ghost start = WalkModel { grid: grid@, walker: *walker, rng: rng@ };
    let mut done: u64 = 0;
    while done < steps
        invariant
            done <= steps,
            steps > 0 ==> dists@.len() > 0,
            grid.wf(),
            walker.loc.within(grid@.size()),
            grid@.scale == start.grid.scale,
            grid@.cells.to_multiset() == start.grid.cells.to_multiset(),
            (WalkModel { grid: grid@, walker: *walker, rng: rng@ }) == spec_walk(
                start,
                dists@,
                done as nat,
            ),
        decreases steps - done,
    {
        step(grid, walker, rng, dists);
        done = done + 1;
    }
}

} // verus!
