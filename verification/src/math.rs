use vstd::arithmetic::div_mod::{
    lemma_fundamental_div_mod_converse_div, lemma_fundamental_div_mod_converse_mod,
};
use vstd::prelude::*;

verus! {

/// Linear index of the grid cell that the coordinates `(x, y)` reach after
/// wrapping: `x` wraps modulo `width`, `y` modulo `height`, and the grid is
/// stored row-major.
pub open spec fn wrap_to_1d(x: int, y: int, width: int, height: int) -> int {
    (y % height) * width + (x % width)
}

/// Splits a linear row-major index into its `(x, y)` grid coordinates.
pub fn index_1d_to_2d(index: usize, width: usize, height: usize) -> (r: (usize, usize))
    requires
        width > 0,
    ensures
        r.0 == index as int % width as int,
        r.1 == index as int / width as int,
{
    let x = index % width;
    let y = index / width;
    (x, y)
}

/// Joins `(x, y)` grid coordinates into a linear row-major index, wrapping
/// out-of-range coordinates onto the grid instead of rejecting them.
pub fn index_2d_to_1d(x: usize, y: usize, width: usize, height: usize) -> (r: usize)
    requires
        width > 0,
        height > 0,
        width * height <= usize::MAX,
    ensures
        r == wrap_to_1d(x as int, y as int, width as int, height as int),
        r < width * height,
{
    let xw = x % width;
    let yw = y % height;
    proof {
        assert((yw as int) * (width as int) + (xw as int) < (width as int) * (height as int))
            by (nonlinear_arith)
            requires
                (xw as int) < (width as int),
                (yw as int) < (height as int),
                (width as int) > 0,
                (height as int) > 0,
        ;
    }
    yw * width + xw
}

/// Coordinate round trip: an in-bounds `(x, y)` pair survives conversion to a
/// linear index and back unchanged.
pub proof fn lemma_index_round_trip(x: int, y: int, width: int, height: int)
    requires
        0 < width,
        0 < height,
        0 <= x < width,
        0 <= y < height,
    ensures
        wrap_to_1d(x, y, width, height) % width == x,
        wrap_to_1d(x, y, width, height) / width == y,
{
    lemma_small_mod_int(x, width);
    lemma_small_mod_int(y, height);
    assert(wrap_to_1d(x, y, width, height) == y * width + x);
    lemma_fundamental_div_mod_converse_mod(y * width + x, width, y, x);
    lemma_fundamental_div_mod_converse_div(y * width + x, width, y, x);
}

/// A value already below the modulus is its own remainder.
pub proof fn lemma_small_mod_int(x: int, m: int)
    requires
        0 <= x < m,
    ensures
        x % m == x,
{
    lemma_fundamental_div_mod_converse_mod(x, m, 0, x);
}

} // verus!
