//! Row-major layout of a dense `n`-by-`n` matrix stored in one flat buffer.
use vstd::prelude::*;

verus! {

/// Position of entry `(i, j)` of an `n`-by-`n` matrix in its row-major buffer.
pub open spec fn flat_index(i: int, j: int, n: int) -> int {
    i * n + j
}

/// `buf` is the row-major storage of an `n`-by-`n` matrix.
pub open spec fn is_square_buffer<T>(buf: Seq<T>, n: nat) -> bool {
    buf.len() == n * n
}

/// Every entry `(i, j)` with `i, j < n` has a distinct position inside the buffer.
pub proof fn lemma_flat_index_in_bounds(i: int, j: int, n: int)
    requires
        0 <= i < n,
        0 <= j < n,
    ensures
        0 <= flat_index(i, j, n) < n * n,
        flat_index(i, j, n) / n == i,
        flat_index(i, j, n) % n == j,
{
    assert(0 <= i * n + j < n * n) by (nonlinear_arith)
        requires
            0 <= i < n,
            0 <= j < n,
    ;
    vstd::arithmetic::div_mod::lemma_fundamental_div_mod_converse(i * n + j, n, i, j);
}

/// A row-major buffer of `n * n` cells is an `n`-by-`n` grid: every position
/// is the place of exactly one entry, the one in row `idx / n` and column `idx % n`.
pub proof fn lemma_buffer_is_grid(idx: int, n: int)
    requires
        n > 0,
        0 <= idx < n * n,
    ensures
        0 <= idx / n < n,
        0 <= idx % n < n,
        flat_index(idx / n, idx % n, n) == idx,
        forall|i: int, j: int|
            0 <= i < n && 0 <= j < n && #[trigger] flat_index(i, j, n) == idx ==> i == idx / n
                && j == idx % n,
{
    vstd::arithmetic::div_mod::lemma_fundamental_div_mod(idx, n);
    vstd::arithmetic::div_mod::lemma_div_pos_is_pos(idx, n);
    vstd::arithmetic::div_mod::lemma_mod_pos_bound(idx, n);
    let q = idx / n;
    let r = idx % n;
    assert(q < n) by (nonlinear_arith)
        requires
            idx == n * q + r,
            0 <= r,
            idx < n * n,
            n > 0,
    ;
    assert(flat_index(q, r, n) == idx) by (nonlinear_arith)
        requires
            idx == n * q + r,
    ;
    assert forall|i: int, j: int|
        0 <= i < n && 0 <= j < n && #[trigger] flat_index(i, j, n) == idx implies i == idx / n
            && j == idx % n by {
        lemma_flat_index_in_bounds(i, j, n);
    }
}

/// Reads entry `(i, j)` of the `n`-by-`n` matrix held row-major in `m`.
pub fn entry<T>(m: &Vec<T>, n: usize, i: usize, j: usize) -> (r: &T)
    requires
        is_square_buffer(m@, n as nat),
        i < n,
        j < n,
    ensures
        *r == m@[flat_index(i as int, j as int, n as int)],
{
    proof {
        lemma_flat_index_in_bounds(i as int, j as int, n as int);
        assert(i * n <= i * n + j < m.len());
    }
    &m[i * n + j]
}

} // verus!
