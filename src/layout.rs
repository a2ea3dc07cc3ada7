//! Row-major layout: how a linear index and a (row, column) position
//! correspond, and how the linear range is split into contiguous chunks.
use vstd::prelude::*;

verus! {

/// The row of linear index `i` in a grid with `cols` columns.
pub open spec fn row_of(i: int, cols: int) -> int {
    i / cols
}

/// The column of linear index `i` in a grid with `cols` columns.
pub open spec fn col_of(i: int, cols: int) -> int {
    i % cols
}

/// Every linear index below `rows * cols` names a position inside the grid,
/// and every position inside the grid is named by exactly one linear index,
/// `row * cols + col`. A pass over the linear range therefore reaches each
/// cell exactly once.
pub proof fn lemma_index_position_bijection(rows: int, cols: int)
    requires
        rows > 0,
        cols > 0,
    ensures
        forall|i: int|
            0 <= i < rows * cols ==> {
                &&& 0 <= #[trigger] row_of(i, cols) < rows
                &&& 0 <= col_of(i, cols) < cols
                &&& row_of(i, cols) * cols + col_of(i, cols) == i
            },
        forall|r: int, c: int|
            0 <= r < rows && 0 <= c < cols ==> {
                &&& 0 <= #[trigger] (r * cols + c) < rows * cols
                &&& row_of(r * cols + c, cols) == r
                &&& col_of(r * cols + c, cols) == c
            },
        forall|i: int, j: int|
            0 <= i < rows * cols && 0 <= j < rows * cols && #[trigger] row_of(i, cols) == #[trigger] row_of(j, cols)
                && col_of(i, cols) == col_of(j, cols) ==> i == j,
{
    assert forall|i: int| 0 <= i < rows * cols implies {
        &&& 0 <= #[trigger] row_of(i, cols) < rows
        &&& 0 <= col_of(i, cols) < cols
        &&& row_of(i, cols) * cols + col_of(i, cols) == i
    } by {
        lemma_index_in_grid(i, rows, cols);
    }
    assert forall|r: int, c: int| 0 <= r < rows && 0 <= c < cols implies {
        &&& 0 <= #[trigger] (r * cols + c) < rows * cols
        &&& row_of(r * cols + c, cols) == r
        &&& col_of(r * cols + c, cols) == c
    } by {
        lemma_position_in_grid(r, c, rows, cols);
    }
    assert forall|i: int, j: int|
        0 <= i < rows * cols && 0 <= j < rows * cols && #[trigger] row_of(i, cols) == #[trigger] row_of(j, cols)
            && col_of(i, cols) == col_of(j, cols) implies i == j by {
        lemma_index_in_grid(i, rows, cols);
        lemma_index_in_grid(j, rows, cols);
    }
}

proof fn lemma_index_in_grid(i: int, rows: int, cols: int)
    requires
        rows > 0,
        cols > 0,
        0 <= i < rows * cols,
    ensures
        0 <= row_of(i, cols) < rows,
        0 <= col_of(i, cols) < cols,
        row_of(i, cols) * cols + col_of(i, cols) == i,
{
    assert(0 <= i / cols < rows) by (nonlinear_arith)
        requires
            rows > 0,
            cols > 0,
            0 <= i < rows * cols,
    {
        vstd::arithmetic::div_mod::lemma_div_pos_is_pos(i, cols);
        vstd::arithmetic::div_mod::lemma_div_is_ordered(i, rows * cols - 1, cols);
        vstd::arithmetic::div_mod::lemma_div_multiples_vanish_fancy(rows - 1, cols - 1, cols);
    }
    vstd::arithmetic::div_mod::lemma_fundamental_div_mod(i, cols);
    vstd::arithmetic::mul::lemma_mul_is_commutative(cols, i / cols);
}

proof fn lemma_position_in_grid(r: int, c: int, rows: int, cols: int)
    requires
        rows > 0,
        cols > 0,
        0 <= r < rows,
        0 <= c < cols,
    ensures
        0 <= r * cols + c < rows * cols,
        row_of(r * cols + c, cols) == r,
        col_of(r * cols + c, cols) == c,
{
    assert(0 <= r * cols + c < rows * cols) by (nonlinear_arith)
        requires
            0 <= r < rows,
            0 <= c < cols,
    ;
    vstd::arithmetic::div_mod::lemma_fundamental_div_mod_converse(r * cols + c, cols, r, c);
}

/// Splitting `[0, total)` into consecutive chunks of `chunk_len` cells puts
/// every index `i` in exactly one chunk, the one numbered `i / chunk_len`,
/// at offset `i % chunk_len` within it.
pub proof fn lemma_chunk_partition(total: int, chunk_len: int)
    requires
        chunk_len > 0,
        total >= 0,
    ensures
        forall|i: int|
            0 <= i < total ==> {
                &&& #[trigger] (i / chunk_len) * chunk_len <= i < (i / chunk_len + 1) * chunk_len
                &&& i == (i / chunk_len) * chunk_len + i % chunk_len
            },
        forall|i: int, k: int|
            #![trigger (k * chunk_len), (i / chunk_len)]
            0 <= i < total && 0 <= k && k * chunk_len <= i < (k + 1) * chunk_len ==> k == i / chunk_len,
{
    assert forall|i: int| 0 <= i < total implies {
        &&& #[trigger] (i / chunk_len) * chunk_len <= i < (i / chunk_len + 1) * chunk_len
        &&& i == (i / chunk_len) * chunk_len + i % chunk_len
    } by {
        vstd::arithmetic::div_mod::lemma_fundamental_div_mod(i, chunk_len);
        vstd::arithmetic::mul::lemma_mul_is_commutative(chunk_len, i / chunk_len);
        vstd::arithmetic::mul::lemma_mul_is_distributive_add_other_way(chunk_len, i / chunk_len, 1);
    }
    assert forall|i: int, k: int|
        #![trigger (k * chunk_len), (i / chunk_len)]
        0 <= i < total && 0 <= k && k * chunk_len <= i < (k + 1) * chunk_len implies k == i / chunk_len by {
        vstd::arithmetic::mul::lemma_mul_is_distributive_add_other_way(chunk_len, k, 1);
        vstd::arithmetic::div_mod::lemma_fundamental_div_mod_converse(i, chunk_len, k, i - k * chunk_len);
    }
}

} // verus!
