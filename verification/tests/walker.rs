use color_walk::color::{color_dist, ColorBase};
use color_walk::cube::enumerate_cube;
use color_walk::grid::{initialize, Grid};
use color_walk::random::RandomStream;
use color_walk::torus::{Dir, Location};
use color_walk::walker::{advance, decide, step, turn, walk, Swap, Walker};

fn key(c: &ColorBase) -> (u8, u8, u8) {
    (c.b, c.g, c.r)
}

fn holds_cube_once(grid: &Grid) -> bool {
    let mut sorted = grid.cells().clone();
    sorted.sort_by_key(key);
    sorted == enumerate_cube(grid.color_size())
}

fn all() -> [Dir; 4] {
    [Dir::Left, Dir::Right, Dir::Up, Dir::Down]
}

/// The cells after one step, worked out cell by cell.
fn expected_after(grid: &Grid, loc: Location, dir: Dir, dist: usize) -> Vec<ColorBase> {
    let size = grid.size();
    let next = dir.apply(loc, size, dist);
    let after = dir.apply(next, size, dist);
    let (c0, c1, c2) = (grid.at(loc), grid.at(next), grid.at(after));
    let d1 = color_dist(c0, c1);
    let d2 = color_dist(c1, c2);
    let d_new = color_dist(c0, c2);
    let mut cells = grid.cells().clone();
    let index = |l: Location| l.row * size + l.col;
    if d_new < d2 && d2 >= d1 {
        cells[index(loc)] = c1;
        cells[index(next)] = c0;
    } else if d_new < d1 {
        cells[index(next)] = c2;
        cells[index(after)] = c1;
    }
    cells
}

#[test]
fn decide_swaps_behind_when_the_far_pair_is_the_rougher() {
    assert_eq!(decide(1, 3, 2), Swap::Behind);
    assert_eq!(decide(3, 3, 2), Swap::Behind);
    assert_eq!(decide(0, 1, 0), Swap::Behind);
}

#[test]
fn decide_swaps_ahead_when_only_the_near_pair_is_rougher() {
    assert_eq!(decide(5, 3, 4), Swap::Ahead);
    assert_eq!(decide(5, 3, 2), Swap::Ahead);
    assert_eq!(decide(4, 2, 3), Swap::Ahead);
}

#[test]
fn decide_keeps_what_a_swap_would_not_smooth() {
    assert_eq!(decide(1, 1, 1), Swap::Keep);
    assert_eq!(decide(0, 0, 0), Swap::Keep);
    assert_eq!(decide(2, 3, 3), Swap::Keep);
    assert_eq!(decide(3, 2, 3), Swap::Keep);
    assert_eq!(decide(1, 2, 5), Swap::Keep);
}

#[test]
fn decide_tries_the_pair_behind_first() {
    // Both tests hold; the first one wins.
    assert_eq!(decide(4, 4, 1), Swap::Behind);
    // The first test fails on its second half only.
    assert_eq!(decide(4, 3, 1), Swap::Ahead);
}

#[test]
fn decide_matches_the_rule_everywhere() {
    for d1 in 0..=6i64 {
        for d2 in 0..=6i64 {
            for d_new in 0..=6i64 {
                let expected = if d_new < d2 && d2 >= d1 {
                    Swap::Behind
                } else if d_new < d1 {
                    Swap::Ahead
                } else {
                    Swap::Keep
                };
                assert_eq!(decide(d1, d2, d_new), expected);
            }
        }
    }
}

#[test]
fn turn_picks_by_position() {
    assert_eq!(turn(Dir::Up, 0), Dir::Up);
    assert_eq!(turn(Dir::Up, 1), Dir::Left);
    assert_eq!(turn(Dir::Up, 2), Dir::Right);
    assert_eq!(turn(Dir::Down, 0), Dir::Down);
    assert_eq!(turn(Dir::Down, 1), Dir::Left);
    assert_eq!(turn(Dir::Down, 2), Dir::Right);
    assert_eq!(turn(Dir::Left, 0), Dir::Down);
    assert_eq!(turn(Dir::Left, 1), Dir::Left);
    assert_eq!(turn(Dir::Left, 2), Dir::Up);
    assert_eq!(turn(Dir::Right, 0), Dir::Down);
    assert_eq!(turn(Dir::Right, 1), Dir::Right);
    assert_eq!(turn(Dir::Right, 2), Dir::Up);
}

/// The cube of side four in the order of its index, on a grid of side eight:
/// the cell in row `row` and column `col` holds the color with the index
/// `8 * row + col`.
fn ordered_grid() -> Grid {
    Grid::from_cells(2, enumerate_cube(4)).unwrap()
}

fn cb(r: u8, g: u8, b: u8) -> ColorBase {
    ColorBase { r, g, b }
}

#[test]
fn advance_keeps_a_smooth_row() {
    // Row 0 holds (0,0,0) (1,0,0) (2,0,0) ...: from column 0 to the right the
    // distances are 1, 1 and 1 again, since the root of 2 rounds down to 1.
    let mut grid = ordered_grid();
    let next = advance(&mut grid, Location { row: 0, col: 0 }, Dir::Right, 1);
    assert_eq!(next, Location { row: 0, col: 1 });
    assert_eq!(grid.cells(), &enumerate_cube(4));
}

#[test]
fn advance_keeps_what_a_swap_would_not_smooth() {
    let mut grid = ordered_grid();
    // From column 2 to the right with hops of 1: (2,0,0) (3,0,0) (0,1,0).
    // d1 = 1, d2 = 1 + 1 = 2, d_new = 1 + 1 = 2.
    let next = advance(&mut grid, Location { row: 0, col: 2 }, Dir::Right, 1);
    assert_eq!(next, Location { row: 0, col: 3 });
    assert_eq!(grid.cells(), &enumerate_cube(4));
    // From column 3 to the left with hops of 3: the cells in columns 3, 0 and
    // 5 hold (3,0,0) (0,0,0) (1,1,0). d1 = 1, d2 = 1 + 1 = 2, d_new = 1 + 1 = 2.
    let next = advance(&mut grid, Location { row: 0, col: 3 }, Dir::Left, 3);
    assert_eq!(next, Location { row: 0, col: 0 });
    assert_eq!(grid.cells(), &enumerate_cube(4));
}

#[test]
fn advance_swaps_the_pair_ahead() {
    // From row 0, column 0 upwards with hops of 1: the cells in rows 0, 7 and
    // 6 hold (0,0,0) (0,2,3) (0,0,3). d1 = 1 + 1 = 2, d2 = 1, d_new = 1.
    // The first test fails (d_new = d2), the second holds (d_new < d1): the
    // cells in rows 7 and 6 change places.
    let mut grid = ordered_grid();
    let next = advance(&mut grid, Location { row: 0, col: 0 }, Dir::Up, 1);
    assert_eq!(next, Location { row: 7, col: 0 });
    let mut expected = enumerate_cube(4);
    expected.swap(7 * 8, 6 * 8);
    assert_eq!(grid.cells(), &expected);
    assert_eq!(grid.at(Location { row: 0, col: 0 }), cb(0, 0, 0));
    assert_eq!(grid.at(Location { row: 7, col: 0 }), cb(0, 0, 3));
    assert_eq!(grid.at(Location { row: 6, col: 0 }), cb(0, 2, 3));
}

#[test]
fn advance_swaps_the_pair_behind() {
    // From row 1, column 0 upwards with hops of 1: the cells in rows 1, 0 and
    // 7 hold (0,2,0) (0,0,0) (0,2,3). d1 = 1, d2 = 1 + 1 = 2, d_new = 1.
    // The first test holds (d_new < d2 and d2 >= d1): the walker's cell and
    // the next change places.
    let mut grid = ordered_grid();
    let next = advance(&mut grid, Location { row: 1, col: 0 }, Dir::Up, 1);
    assert_eq!(next, Location { row: 0, col: 0 });
    let mut expected = enumerate_cube(4);
    expected.swap(8, 0);
    assert_eq!(grid.cells(), &expected);
    assert_eq!(grid.at(Location { row: 1, col: 0 }), cb(0, 0, 0));
    assert_eq!(grid.at(Location { row: 0, col: 0 }), cb(0, 2, 0));
    assert_eq!(grid.at(Location { row: 7, col: 0 }), cb(0, 2, 3));
}

#[test]
fn advance_moves_to_the_next_cell() {
    let mut rng = RandomStream::from_seed(8);
    let mut grid = initialize(2, &mut rng);
    assert_eq!(advance(&mut grid, Location { row: 0, col: 0 }, Dir::Up, 1), Location { row: 7, col: 0 });
    assert_eq!(advance(&mut grid, Location { row: 7, col: 0 }, Dir::Down, 2), Location { row: 1, col: 0 });
    assert_eq!(advance(&mut grid, Location { row: 1, col: 0 }, Dir::Left, 4), Location { row: 1, col: 4 });
    assert_eq!(advance(&mut grid, Location { row: 1, col: 4 }, Dir::Right, 1), Location { row: 1, col: 5 });
}

#[test]
fn advance_swaps_as_the_rule_says() {
    let mut swaps = 0;
    for seed in 0..4u64 {
        let mut rng = RandomStream::from_seed(seed);
        let mut grid = initialize(2, &mut rng);
        for row in 0..8 {
            for col in 0..8 {
                for dir in all() {
                    for dist in [1usize, 2, 4] {
                        let loc = Location { row, col };
                        let before = grid.cells().clone();
                        let expected = expected_after(&grid, loc, dir, dist);
                        let next = advance(&mut grid, loc, dir, dist);
                        assert_eq!(next, dir.apply(loc, 8, dist));
                        assert_eq!(grid.cells(), &expected);
                        if grid.cells() != &before {
                            swaps += 1;
                        }
                    }
                }
            }
        }
        assert!(holds_cube_once(&grid));
    }
    assert!(swaps > 0);
}

#[test]
fn advance_across_half_the_torus_meets_its_own_cell() {
    // With a hop of half the side the cell after the next is the walker's own.
    let mut rng = RandomStream::from_seed(2);
    let mut grid = initialize(2, &mut rng);
    for row in 0..8 {
        let loc = Location { row, col: 3 };
        let expected = expected_after(&grid, loc, Dir::Down, 4);
        advance(&mut grid, loc, Dir::Down, 4);
        assert_eq!(grid.cells(), &expected);
        assert!(holds_cube_once(&grid));
    }
}

#[test]
fn step_draws_the_hop_then_the_turn() {
    let dists: Vec<usize> = vec![1, 2, 4];
    let mut rng = RandomStream::from_seed(21);
    let mut shadow = RandomStream::from_seed(21);
    let mut grid = initialize(2, &mut rng);
    let mut twin = initialize(2, &mut shadow);
    let mut walker = Walker { loc: Location { row: 2, col: 5 }, dir: Dir::Up };
    for _ in 0..200 {
        let dist = dists[shadow.below(3) as usize];
        let next = advance(&mut twin, walker.loc, walker.dir, dist);
        let dir = turn(walker.dir, shadow.below(3));
        step(&mut grid, &mut walker, &mut rng, &dists);
        assert_eq!(walker, Walker { loc: next, dir });
        assert_eq!(grid.cells(), twin.cells());
    }
    assert_eq!(rng.below(1 << 20), shadow.below(1 << 20));
}

#[test]
fn step_never_turns_back() {
    let dists: Vec<usize> = vec![1];
    let mut rng = RandomStream::from_seed(5);
    let mut grid = initialize(2, &mut rng);
    let mut walker = Walker { loc: Location { row: 0, col: 0 }, dir: Dir::Up };
    for _ in 0..500 {
        let before = walker;
        step(&mut grid, &mut walker, &mut rng, &dists);
        assert_eq!(walker.loc, before.dir.apply(before.loc, 8, 1));
        assert!(before.dir.non_back().contains(&walker.dir));
    }
    assert!(holds_cube_once(&grid));
}

#[test]
fn walk_is_a_row_of_steps() {
    let dists: Vec<usize> = vec![1, 2];
    let mut a = RandomStream::from_seed(77);
    let mut b = RandomStream::from_seed(77);
    let mut walked = initialize(3, &mut a);
    let mut stepped = initialize(3, &mut b);
    let mut walker_a = Walker { loc: Location { row: 13, col: 26 }, dir: Dir::Left };
    let mut walker_b = walker_a;
    walk(&mut walked, &mut walker_a, &mut a, &dists, 1000);
    for _ in 0..1000 {
        step(&mut stepped, &mut walker_b, &mut b, &dists);
    }
    assert_eq!(walked.cells(), stepped.cells());
    assert_eq!(walker_a, walker_b);
    assert!(holds_cube_once(&walked));
}

#[test]
fn walk_of_no_steps_changes_nothing() {
    let mut rng = RandomStream::from_seed(1);
    let mut twin = RandomStream::from_seed(1);
    let mut grid = initialize(2, &mut rng);
    let untouched = initialize(2, &mut twin);
    let mut walker = Walker { loc: Location { row: 1, col: 1 }, dir: Dir::Right };
    walk(&mut grid, &mut walker, &mut rng, &vec![1], 0);
    assert_eq!(grid.cells(), untouched.cells());
    assert_eq!(walker, Walker { loc: Location { row: 1, col: 1 }, dir: Dir::Right });
    assert_eq!(rng.below(1 << 20), twin.below(1 << 20));
    walk(&mut grid, &mut walker, &mut rng, &Vec::new(), 0);
    assert_eq!(grid.cells(), untouched.cells());
}

#[test]
fn walk_smooths_the_grid() {
    // Not a law of the walk, but what it is for: after many steps neighbours
    // are more alike than right after the shuffle.
    fn roughness(grid: &Grid) -> i64 {
        let size = grid.size();
        let mut sum = 0;
        for row in 0..size {
            for col in 0..size {
                let here = grid.at(Location { row, col });
                sum += color_dist(here, grid.at(Location { row, col: (col + 1) % size }));
                sum += color_dist(here, grid.at(Location { row: (row + 1) % size, col }));
            }
        }
        sum
    }
    let mut rng = RandomStream::from_seed(3);
    let mut grid = initialize(3, &mut rng);
    let before = roughness(&grid);
    let mut walker = Walker { loc: Location { row: 0, col: 0 }, dir: Dir::Up };
    walk(&mut grid, &mut walker, &mut rng, &vec![1, 2], 200_000);
    assert!(roughness(&grid) < before);
    assert!(holds_cube_once(&grid));
}
