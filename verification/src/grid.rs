//! Arithmetic facts about row-major grids.

use vstd::prelude::*;

verus! {

/// A length made of whole rows of width `w` is `w` times the row count.
pub proof fn lemma_whole_rows(n: int, w: int)
    requires
        w > 0,
        n >= 0,
        n % w == 0,
    ensures
        n == w * (n / w),
        n / w >= 0,
{
    vstd::arithmetic::div_mod::lemma_fundamental_div_mod(n, w);
    vstd::arithmetic::div_mod::lemma_div_pos_is_pos(n, w);
}

/// The whole rows of width `w` in a length `n` fit in `n`, and fewer than
/// `w` cells are left over.
pub proof fn lemma_rows_fit(n: int, w: int)
    requires
        w > 0,
        n >= 0,
    ensures
        0 <= w * (n / w) <= n,
        n - w * (n / w) < w,
        n / w >= 0,
{
    vstd::arithmetic::div_mod::lemma_fundamental_div_mod(n, w);
    vstd::arithmetic::div_mod::lemma_div_pos_is_pos(n, w);
    assert(0 <= n % w < w);
    assert(0 <= w * (n / w)) by (nonlinear_arith)
        requires
            w > 0,
            n / w >= 0,
    ;
}

/// A cell at column `x < w` of row `y < h` has an index below `w * h`.
pub proof fn lemma_cell_in_grid(w: int, h: int, x: int, y: int)
    requires
        w > 0,
        0 <= x < w,
        0 <= y < h,
    ensures
        0 <= y * w + x < w * h,
        (y * w + x) % w == x,
        (y * w + x) / w == y,
{
    assert(0 <= y * w + x < w * h) by (nonlinear_arith)
        requires
            w > 0,
            0 <= x < w,
            0 <= y < h,
    ;
    vstd::arithmetic::div_mod::lemma_fundamental_div_mod_converse(y * w + x, w, y, x);
}

/// Column and row of an index inside a `w` by `h` grid.
pub proof fn lemma_index_coords(w: int, h: int, i: int)
    requires
        w > 0,
        0 <= i < w * h,
    ensures
        i == (i / w) * w + i % w,
        0 <= i % w < w,
        0 <= i / w < h,
        i % w > 0 ==> i >= 1,
        i / w > 0 ==> i >= w,
        i % w < w - 1 ==> i + 1 < w * h,
        i / w < h - 1 ==> i + w < w * h,
{
    vstd::arithmetic::div_mod::lemma_fundamental_div_mod(i, w);
    vstd::arithmetic::mul::lemma_mul_is_commutative(w, i / w);
    let x = i % w;
    let y = i / w;
    assert(0 <= x < w);
    assert(y >= 0) by {
        vstd::arithmetic::div_mod::lemma_div_pos_is_pos(i, w);
    }
    assert(y < h) by (nonlinear_arith)
        requires
            i == y * w + x,
            0 <= x,
            i < w * h,
            w > 0,
    ;
    assert(y > 0 ==> i >= w) by (nonlinear_arith)
        requires
            i == y * w + x,
            0 <= x,
            w > 0,
    ;
    assert(x < w - 1 ==> i + 1 < w * h) by (nonlinear_arith)
        requires
            i == y * w + x,
            y < h,
            w > 0,
            0 <= y,
    ;
    assert(y < h - 1 ==> i + w < w * h) by (nonlinear_arith)
        requires
            i == y * w + x,
            x < w,
            w > 0,
            0 <= y,
    ;
}

} // verus!
