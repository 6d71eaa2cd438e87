//! The color cube: its colors in a fixed order, and what it means for a
//! list of colors to hold each of them exactly once.

use crate::color::{in_cube, ColorBase};
use vstd::arithmetic::div_mod::{
    lemma_div_denominator, lemma_fundamental_div_mod, lemma_fundamental_div_mod_converse,
    lemma_mod_bound,
};
use vstd::prelude::*;
use vstd::seq_lib::{seq_to_set_is_finite, to_multiset_contains, to_multiset_update};
use vstd::set_lib::lemma_subset_equality;

verus! {

/// The color with the linear index `n` in a cube of side `color_size`: the
/// digits of `n` to the base `color_size`, lowest first, are its red, green
/// and blue channels.
pub open spec fn cube_color(n: int, color_size: int) -> ColorBase {
    ColorBase {
        r: (n % color_size) as u8,
        g: ((n / color_size) % color_size) as u8,
        b: (n / (color_size * color_size)) as u8,
    }
}

/// The linear index of a color in a cube of side `color_size`.
pub open spec fn cube_index(c: ColorBase, color_size: int) -> int {
    c.r + color_size * c.g + color_size * color_size * c.b
}

/// All colors of the cube of side `color_size`, in the order of their index.
pub open spec fn cube_colors(color_size: int) -> Seq<ColorBase> {
    Seq::new((color_size * color_size * color_size) as nat, |n: int| cube_color(n, color_size))
}

/// Whether `cells` holds every color of the cube of side `color_size` exactly
/// once, and nothing else.
pub open spec fn holds_cube_once(cells: Seq<ColorBase>, color_size: int) -> bool {
    forall|c: ColorBase| #[trigger]
        cells.to_multiset().count(c) == (if in_cube(c, color_size) {
            1nat
        } else {
            0nat
        })
}

/// The color at an index of the cube lies in the cube, and its own index is
/// that index.
pub proof fn lemma_cube_color_encodes(n: int, color_size: int)
    requires
        0 < color_size <= 256,
        0 <= n < color_size * color_size * color_size,
    ensures
        in_cube(cube_color(n, color_size), color_size),
        cube_index(cube_color(n, color_size), color_size) == n,
        cube_color(n, color_size).r == n % color_size,
        cube_color(n, color_size).g == (n / color_size) % color_size,
        cube_color(n, color_size).b == n / (color_size * color_size),
{
    let cs = color_size;
    let hi = n / cs;
    lemma_fundamental_div_mod(n, cs);
    lemma_fundamental_div_mod(hi, cs);
    lemma_mod_bound(n, cs);
    lemma_mod_bound(hi, cs);
    lemma_div_denominator(n, cs, cs);
    let b = hi / cs;
    assert(0 <= b < cs) by (nonlinear_arith)
        requires
            0 <= n < cs * cs * cs,
            cs > 0,
            n == cs * hi + n % cs,
            hi == cs * b + hi % cs,
            0 <= n % cs < cs,
            0 <= hi % cs < cs,
    ;
    assert(n % cs + cs * (hi % cs) + cs * cs * b == n) by (nonlinear_arith)
        requires
            n == cs * hi + n % cs,
            hi == cs * b + hi % cs,
    ;
}

/// A color of the cube stands at its own index.
pub proof fn lemma_cube_index_decodes(c: ColorBase, color_size: int)
    requires
        0 < color_size <= 256,
        in_cube(c, color_size),
    ensures
        0 <= cube_index(c, color_size) < color_size * color_size * color_size,
        cube_color(cube_index(c, color_size), color_size) == c,
{
    let cs = color_size;
    let n = cube_index(c, cs);
    let hi = c.g + cs * c.b;
    assert(n == hi * cs + c.r && 0 <= n < cs * cs * cs) by (nonlinear_arith)
        requires
            n == c.r + cs * c.g + cs * cs * c.b,
            hi == c.g + cs * c.b,
            0 <= c.r < cs,
            0 <= c.g < cs,
            0 <= c.b < cs,
    ;
    lemma_fundamental_div_mod_converse(n, cs, hi, c.r as int);
    assert(hi == c.b * cs + c.g) by (nonlinear_arith)
        requires
            hi == c.g + cs * c.b,
    ;
    lemma_fundamental_div_mod_converse(hi, cs, c.b as int, c.g as int);
    lemma_div_denominator(n, cs, cs);
}

/// The enumeration of the cube holds every color of the cube exactly once.
pub proof fn lemma_cube_colors_complete(color_size: int)
    requires
        0 < color_size <= 256,
    ensures
        holds_cube_once(cube_colors(color_size), color_size),
{
    let s = cube_colors(color_size);
    assert forall|i: int, j: int| 0 <= i < s.len() && 0 <= j < s.len() && i != j implies s[i]
        != s[j] by {
        lemma_cube_color_encodes(i, color_size);
        lemma_cube_color_encodes(j, color_size);
    }
    s.lemma_multiset_has_no_duplicates();
    assert forall|c: ColorBase| #[trigger]
        s.to_multiset().count(c) == (if in_cube(c, color_size) {
            1nat
        } else {
            0nat
        }) by {
        to_multiset_contains(s, c);
        if in_cube(c, color_size) {
            lemma_cube_index_decodes(c, color_size);
            assert(s[cube_index(c, color_size)] == c);
        } else if s.contains(c) {
            let i = choose|i: int| 0 <= i < s.len() && s[i] == c;
            lemma_cube_color_encodes(i, color_size);
        }
    }
}

/// Every item of a sequence that holds the cube once lies in the cube.
pub proof fn lemma_cells_in_cube(cells: Seq<ColorBase>, color_size: int, i: int)
    requires
        holds_cube_once(cells, color_size),
        0 <= i < cells.len(),
    ensures
        in_cube(cells[i], color_size),
{
    to_multiset_contains(cells, cells[i]);
}

/// Exchanging two items of a sequence changes nothing about how often each
/// item occurs.
pub proof fn lemma_exchange_keeps_counts(cells: Seq<ColorBase>, i: int, j: int)
    requires
        0 <= i < cells.len(),
        0 <= j < cells.len(),
    ensures
        cells.update(i, cells[j]).update(j, cells[i]).to_multiset() == cells.to_multiset(),
{
    broadcast use vstd::multiset::group_multiset_axioms;

    let first = cells.update(i, cells[j]);
    to_multiset_update(cells, i, cells[j]);
    to_multiset_update(first, j, cells[i]);
    to_multiset_contains(cells, cells[i]);
    to_multiset_contains(cells, cells[j]);
}

/// As many distinct colors of the cube as the cube has colors are all of
/// its colors.
pub proof fn lemma_distinct_cells_fill_cube(cells: Seq<ColorBase>, color_size: int)
    requires
        0 < color_size <= 256,
        cells.len() == color_size * color_size * color_size,
        cells.no_duplicates(),
        forall|i: int| 0 <= i < cells.len() ==> in_cube(#[trigger] cells[i], color_size),
    ensures
        holds_cube_once(cells, color_size),
{
    let cube = cube_colors(color_size);
    lemma_cube_colors_complete(color_size);
    cube.lemma_multiset_has_no_duplicates_conv();
    cells.unique_seq_to_set();
    cube.unique_seq_to_set();
    seq_to_set_is_finite(cells);
    seq_to_set_is_finite(cube);
    assert forall|c: ColorBase| cells.to_set().contains(c) implies cube.to_set().contains(c) by {
        let i = choose|i: int| 0 <= i < cells.len() && cells[i] == c;
        lemma_cube_index_decodes(c, color_size);
        assert(cube[cube_index(c, color_size)] == c);
    }
    lemma_subset_equality(cells.to_set(), cube.to_set());
    cells.lemma_multiset_has_no_duplicates();
    assert forall|c: ColorBase| #[trigger]
        cells.to_multiset().count(c) == (if in_cube(c, color_size) {
            1nat
        } else {
            0nat
        }) by {
        to_multiset_contains(cells, c);
        to_multiset_contains(cube, c);
        assert(cube.contains(c) <==> cube.to_set().contains(c));
    }
}

/// A sequence that holds the cube once is as long as the cube is large, and
/// nothing occurs twice in it.
pub proof fn lemma_cube_once_is_distinct(cells: Seq<ColorBase>, color_size: int)
    requires
        0 < color_size <= 256,
        holds_cube_once(cells, color_size),
    ensures
        cells.len() == color_size * color_size * color_size,
        cells.no_duplicates(),
{
    let cube = cube_colors(color_size);
    lemma_cube_colors_complete(color_size);
    assert(cells.to_multiset() =~= cube.to_multiset());
    cells.to_multiset_ensures();
    cube.to_multiset_ensures();
    cells.lemma_multiset_has_no_duplicates_conv();
}

/// Tells whether `cells` holds every color of the cube of side `color_size`
/// exactly once, and nothing else.
pub fn is_cube_once(cells: &Vec<ColorBase>, color_size: u64) -> (yes: bool)
    requires
        0 < color_size <= 256,
    ensures
        yes <==> holds_cube_once(cells@, color_size as int),
{
    assert(color_size * color_size <= 65536) by (nonlinear_arith)
        requires
            0 < color_size <= 256,
    ;
    let plane: u64 = color_size * color_size;
    assert(plane * color_size <= 16777216) by (nonlinear_arith)
        requires
            0 <= plane <= 65536,
            0 < color_size <= 256,
    ;
    let count: u64 = plane * color_size;
    if cells.len() as u64 != count {
        proof {
            if holds_cube_once(cells@, color_size as int) {
                lemma_cube_once_is_distinct(cells@, color_size as int);
            }
        }
        return false;
    }
    let mut seen: Vec<bool> = Vec::new();
    let mut n: u64 = 0;
    while n < count
        invariant
            n <= count,
            seen@.len() == n,
            forall|k: int| 0 <= k < n ==> !seen@[k],
        decreases count - n,
    {
        seen.push(false);
        n = n + 1;
    }
    let mut i: usize = 0;
    while i < cells.len()
        invariant
            0 < color_size <= 256,
            plane == color_size * color_size,
            plane <= 65536,
            count == color_size * color_size * color_size,
            count <= 16777216,
            cells@.len() == count,
            seen@.len() == count,
            i <= cells@.len(),
            forall|j: int| 0 <= j < i ==> in_cube(#[trigger] cells@[j], color_size as int),
            forall|j: int, k: int| 0 <= j < k < i ==> cells@[j] != cells@[k],
            forall|k: int|
                0 <= k < count ==> (#[trigger] seen@[k] <==> exists|j: int|
                    0 <= j < i && cube_index(#[trigger] cells@[j], color_size as int) == k),
        decreases cells@.len() - i,
    {
        let c = cells[i];
        if c.r as u64 >= color_size || c.g as u64 >= color_size || c.b as u64 >= color_size {
            proof {
                if holds_cube_once(cells@, color_size as int) {
                    lemma_cells_in_cube(cells@, color_size as int, i as int);
                }
            }
            return false;
        }
        proof {
            lemma_cube_index_decodes(c, color_size as int);
            assert(plane * c.b <= 16777216) by (nonlinear_arith)
                requires
                    0 <= plane <= 65536,
                    0 <= c.b <= 256,
            ;
            assert(color_size * c.g <= 65536) by (nonlinear_arith)
                requires
                    0 <= color_size <= 256,
                    0 <= c.g <= 256,
            ;
        }
        let index: u64 = c.r as u64 + color_size * (c.g as u64) + plane * (c.b as u64);
        if seen[index as usize] {
            proof {
                let j = choose|j: int|
                    0 <= j < i && cube_index(#[trigger] cells@[j], color_size as int) == index;
                lemma_cube_index_decodes(cells@[j], color_size as int);
                assert(cells@[j] == cells@[i as int]);
                if holds_cube_once(cells@, color_size as int) {
                    lemma_cube_once_is_distinct(cells@, color_size as int);
                }
            }
            return false;
        }
        seen.set(index as usize, true);
        proof {
            assert forall|j: int| 0 <= j < i implies cells@[j] != cells@[i as int] by {
                if cells@[j] == cells@[i as int] {
                    assert(cube_index(cells@[j], color_size as int) == index);
                }
            }
            assert forall|k: int| 0 <= k < count implies (#[trigger] seen@[k] <==> exists|j: int|
                0 <= j < i + 1 && cube_index(#[trigger] cells@[j], color_size as int) == k) by {
                if k == index {
                    assert(cube_index(cells@[i as int], color_size as int) == k);
                } else if seen@[k] {
                    let j = choose|j: int|
                        0 <= j < i && cube_index(#[trigger] cells@[j], color_size as int) == k;
                    assert(0 <= j < i + 1 && cube_index(cells@[j], color_size as int) == k);
                }
            }
        }
        i = i + 1;
    }
    proof {
        lemma_distinct_cells_fill_cube(cells@, color_size as int);
    }
    true
}

/// Lists every color of the cube of side `color_size` in the order of its
/// index.
pub fn enumerate_cube(color_size: u64) -> (colors: Vec<ColorBase>)
    requires
        0 < color_size <= 256,
    ensures
        colors@ == cube_colors(color_size as int),
{
    assert(color_size * color_size <= 65536) by (nonlinear_arith)
        requires
            0 < color_size <= 256,
    ;
    let plane: u64 = color_size * color_size;
    assert(plane * color_size <= 16777216) by (nonlinear_arith)
        requires
            plane == color_size * color_size,
            0 < color_size <= 256,
    ;
    let count: u64 = plane * color_size;
    let mut colors: Vec<ColorBase> = Vec::new();
    let mut n: u64 = 0;
    while n < count
        invariant
            0 < color_size <= 256,
            plane == color_size * color_size,
            count == color_size * color_size * color_size,
            n <= count,
            colors@.len() == n,
            forall|i: int| 0 <= i < n ==> colors@[i] == cube_color(i, color_size as int),
        decreases count - n,
    {
        proof {
            lemma_cube_color_encodes(n as int, color_size as int);
        }
        let r = n % color_size;
        let g = (n / color_size) % color_size;
        let b = n / plane;
        colors.push(ColorBase { r: r as u8, g: g as u8, b: b as u8 });
        n = n + 1;
    }
    colors
}

} // verus!
