//! Flat-array linearization of a cubic grid and the affine mapping between
//! continuous fixed-point coordinates and discrete cell indices.

use vstd::prelude::*;
use vstd::arithmetic::div_mod::{
    lemma_div_denominator, lemma_fundamental_div_mod, lemma_fundamental_div_mod_converse_div,
    lemma_fundamental_div_mod_converse_mod,
};

verus! {

/// Row-major-by-axis linearization of the cell `(i, j, k)` of a cubic grid
/// with side length `res`.
pub open spec fn flat_index(i: int, j: int, k: int, res: int) -> int {
    k * res * res + j * res + i
}

/// First axis coordinate of the flat cell index `n`.
pub open spec fn cell_i(n: int, res: int) -> int {
    n % res
}

/// Second axis coordinate of the flat cell index `n`.
pub open spec fn cell_j(n: int, res: int) -> int {
    (n / res) % res
}

/// Third axis coordinate of the flat cell index `n`.
pub open spec fn cell_k(n: int, res: int) -> int {
    n / (res * res)
}

/// Whether the flat cell index `n` lies strictly inside the grid: every axis
/// coordinate is between `1` and `res - 2`. Cells outside this region form
/// the frozen boundary shell.
pub open spec fn interior_cell(n: int, res: int) -> bool {
    &&& 1 <= cell_i(n, res) <= res - 2
    &&& 1 <= cell_j(n, res) <= res - 2
    &&& 1 <= cell_k(n, res) <= res - 2
}

/// The axis cell index of the fixed-point coordinate `x` on an axis with
/// lower bound `min`, extent `range` and `res` cells: the affine image
/// `(x - min) * (res - 1) / range` rounded half-up to the nearest integer.
pub open spec fn axis_cell(x: int, min: int, range: int, res: int) -> int {
    (2 * (x - min) * (res - 1) + range) / (2 * range)
}

/// The fixed-point coordinate of the axis cell index `i`: the exact inverse
/// affine map `min + i * range / (res - 1)`, rounded half-up to the nearest
/// representable unit.
pub open spec fn axis_position(i: int, min: int, range: int, res: int) -> int {
    min + (2 * i * range + (res - 1)) / (2 * (res - 1))
}

/// The flat index of every in-range cell triple lies in `[0, res^3)`.
pub proof fn lemma_flat_index_bounds(i: int, j: int, k: int, res: int)
    by (nonlinear_arith)
    requires
        0 <= i < res,
        0 <= j < res,
        0 <= k < res,
    ensures
        0 <= flat_index(i, j, k, res) < res * res * res,
{
}

/// Decoding the flat index of an in-range cell triple returns that triple:
/// the linearization is injective on `[0, res)^3`.
pub proof fn lemma_flat_index_decode(i: int, j: int, k: int, res: int)
    requires
        0 <= i < res,
        0 <= j < res,
        0 <= k < res,
    ensures
        cell_i(flat_index(i, j, k, res), res) == i,
        cell_j(flat_index(i, j, k, res), res) == j,
        cell_k(flat_index(i, j, k, res), res) == k,
{
    let n = flat_index(i, j, k, res);
    lemma_flat_index_bounds(i, j, k, res);
    assert(n == (k * res + j) * res + i) by (nonlinear_arith)
        requires
            n == k * res * res + j * res + i,
    ;
    lemma_fundamental_div_mod_converse_mod(n, res, k * res + j, i);
    lemma_fundamental_div_mod_converse_div(n, res, k * res + j, i);
    lemma_fundamental_div_mod_converse_mod(k * res + j, res, k, j);
    lemma_fundamental_div_mod_converse_div(k * res + j, res, k, j);
    lemma_div_denominator(n, res, res);
}

/// Every flat index in `[0, res^3)` decodes to an in-range cell triple, and
/// re-encoding that triple returns the index: the linearization is a
/// bijection between `[0, res)^3` and `[0, res^3)`.
pub proof fn lemma_flat_index_encode(n: int, res: int)
    requires
        res >= 1,
        0 <= n < res * res * res,
    ensures
        0 <= cell_i(n, res) < res,
        0 <= cell_j(n, res) < res,
        0 <= cell_k(n, res) < res,
        flat_index(cell_i(n, res), cell_j(n, res), cell_k(n, res), res) == n,
{
    lemma_fundamental_div_mod(n, res);
    assert(0 <= n % res < res);
    assert(n / res < res * res) by (nonlinear_arith)
        requires
            res >= 1,
            0 <= n < res * res * res,
    ;
    assert(n / res >= 0) by (nonlinear_arith)
        requires
            res >= 1,
            n >= 0,
    ;
    lemma_fundamental_div_mod(n / res, res);
    assert(0 <= (n / res) % res < res);
    lemma_div_denominator(n, res, res);
    assert(cell_k(n, res) == (n / res) / res);
    assert(0 <= (n / res) / res < res) by (nonlinear_arith)
        requires
            res >= 1,
            0 <= n / res < res * res,
    ;
    assert(flat_index(cell_i(n, res), cell_j(n, res), cell_k(n, res), res) == n)
        by (nonlinear_arith)
        requires
            res >= 1,
            n == res * (n / res) + n % res,
            n / res == res * ((n / res) / res) + (n / res) % res,
            cell_k(n, res) == (n / res) / res,
    ;
}

/// Consistency of the two affine maps: the exact position of a grid cell
/// maps back to that same cell. Holds whenever the fixed-point extent of an
/// axis exceeds its cell count, so that rounding the position to a unit
/// cannot cross the midpoint between two cells.
pub proof fn lemma_axis_roundtrip(i: int, min: int, range: int, res: int)
    requires
        2 <= res,
        range > res - 1,
        0 <= i < res,
    ensures
        axis_cell(axis_position(i, min, range, res), min, range, res) == i,
{
    let m = res - 1;
    let x = 2 * i * range + m;
    lemma_fundamental_div_mod(x, 2 * m);
    let p = x / (2 * m);
    let rem = x % (2 * m);
    assert(0 <= rem < 2 * m) by (nonlinear_arith)
        requires
            m >= 1,
            rem == x % (2 * m),
    ;
    assert(axis_position(i, min, range, res) == min + p);
    // the numerator of the return map, written over the division identity
    let y = 2 * ((min + p) - min) * m + range;
    assert(y == 2 * p * m + range);
    assert(2 * p * m == x - rem) by (nonlinear_arith)
        requires
            x == (2 * m) * p + rem,
    ;
    assert(y == i * (2 * range) + (range + m - rem)) by (nonlinear_arith)
        requires
            y == x - rem + range,
            x == 2 * i * range + m,
    ;
    assert(0 <= range + m - rem < 2 * range);
    lemma_fundamental_div_mod_converse_div(y, 2 * range, i, range + m - rem);
    assert(axis_cell(min + p, min, range, res) == y / (2 * range));
}

} // verus!
