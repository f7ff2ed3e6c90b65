//! Integer helpers for grid coordinates.

use vstd::prelude::*;
use vstd::arithmetic::div_mod::{lemma_fundamental_div_mod, lemma_fundamental_div_mod_converse};

verus! {

/// The absolute value of an integer.
pub open spec fn spec_abs(n: int) -> int {
    if n < 0 {
        -n
    } else {
        n
    }
}

/// Whether `(r, c)` lies within Chebyshev distance 1 of `(cr, cc)`: the 3×3
/// block centred on `(cr, cc)`.
pub open spec fn in_safe_zone(r: int, c: int, cr: int, cc: int) -> bool {
    spec_abs(r - cr) < 2 && spec_abs(c - cc) < 2
}

/// Whether two distinct positions touch, by an edge or by a corner.
pub open spec fn adjacent(r1: int, c1: int, r2: int, c2: int) -> bool {
    in_safe_zone(r1, c1, r2, c2) && !(r1 == r2 && c1 == c2)
}

/// The absolute value of `num`. The most negative `i32` has none.
pub fn abs(num: i32) -> (r: i32)
    requires
        num > i32::MIN,
    ensures
        r == spec_abs(num as int),
{
    if num < 0 {
        -num
    } else {
        num
    }
}

/// A position inside a `rows`×`cols` grid has a row-major index inside the
/// grid, and the index gives the position back.
pub proof fn lemma_index_of_position(rows: int, cols: int, r: int, c: int)
    requires
        0 <= r < rows,
        0 <= c < cols,
    ensures
        0 <= r * cols + c < rows * cols,
        (r * cols + c) / cols == r,
        (r * cols + c) % cols == c,
{
    assert(r * cols + c < rows * cols) by (nonlinear_arith)
        requires
            0 <= r < rows,
            0 <= c < cols,
    {
        assert((r + 1) * cols <= rows * cols);
    }
    assert(0 <= r * cols) by (nonlinear_arith)
        requires
            0 <= r,
            0 < cols,
    ;
    lemma_fundamental_div_mod_converse(r * cols + c, cols, r, c);
}

/// A row-major index inside a `rows`×`cols` grid names a position inside the
/// grid, and the position gives the index back.
pub proof fn lemma_position_of_index(rows: int, cols: int, i: int)
    requires
        0 < cols,
        0 <= i < rows * cols,
    ensures
        0 <= i / cols < rows,
        0 <= i % cols < cols,
        (i / cols) * cols + i % cols == i,
{
    lemma_fundamental_div_mod(i, cols);
    let q = i / cols;
    let m = i % cols;
    assert(cols * q == q * cols) by (nonlinear_arith);
    assert(0 <= q < rows) by (nonlinear_arith)
        requires
            0 < cols,
            0 <= m < cols,
            0 <= q * cols + m < rows * cols,
    {
        if q < 0 {
            assert(q * cols <= -cols);
        }
        if q >= rows {
            assert(q * cols >= rows * cols);
        }
    }
}

} // verus!
