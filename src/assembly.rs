//! Assembly of a dense `n`-by-`n` operator matrix from an entry function.
//!
//! Entry `(i, j)` is the influence of boundary panel `j` on observation
//! point `i`; rows never depend on each other, so they are built in parallel.
use vstd::prelude::*;
use rayon::iter::{IntoParallelIterator, ParallelIterator};
use crate::grid::{flat_index, is_square_buffer, lemma_buffer_is_grid, lemma_flat_index_in_bounds};

verus! {

/// `m` is the row-major matrix whose entry `(i, j)` is a value that
/// `entry(i, j)` may return, for every `i, j < n`.
pub open spec fn is_assembly<T, F: Fn(usize, usize) -> T>(m: Seq<T>, n: nat, entry: F) -> bool {
    &&& is_square_buffer(m, n)
    &&& forall|i: int, j: int|
        0 <= i < n && 0 <= j < n ==> entry.ensures(
            (i as usize, j as usize),
            #[trigger] m[flat_index(i, j, n as int)],
        )
}

/// `entry` may be called on every pair of indices below `n`.
pub open spec fn entry_callable<T, F: Fn(usize, usize) -> T>(n: nat, entry: F) -> bool {
    forall|i: usize, j: usize| i < n && j < n ==> #[trigger] entry.requires((i, j))
}

/// `entry` returns a single possible value for each pair of indices.
pub open spec fn entry_deterministic<T, F: Fn(usize, usize) -> T>(entry: F) -> bool {
    forall|i: usize, j: usize, a: T, b: T|
        #[trigger] entry.ensures((i, j), a) && #[trigger] entry.ensures((i, j), b) ==> a == b
}

/// `row` is row `i` of an `n`-column matrix built from `entry`.
pub open spec fn is_row<T, F: Fn(usize, usize) -> T>(row: Seq<T>, i: usize, n: usize, entry: F) -> bool {
    &&& row.len() == n
    &&& forall|j: int| 0 <= j < n ==> entry.ensures((i, j as usize), #[trigger] row[j])
}

/// Relies on rayon's `IntoParallelIterator::into_par_iter` on `0..n`,
/// `ParallelIterator::map` and `ParallelIterator::collect` into a `Vec`: the
/// range is an indexed parallel iterator, `map` calls `f` once on each index,
/// and collecting an indexed iterator into a `Vec` writes item `i` at
/// position `i`.
#[verifier::external_body]
fn par_map_indices<U: Send, F: Fn(usize) -> U + Sync + Send>(n: usize, f: F) -> (r: Vec<U>)
    requires
        forall|i: usize| i < n ==> #[trigger] f.requires((i,)),
    ensures
        r.len() == n,
        forall|i: int| 0 <= i < n ==> f.ensures((i as usize,), #[trigger] r[i]),
{
    (0..n).into_par_iter().map(f).collect()
}

/// Builds row `i` of the matrix: the values of `entry(i, j)` for `j < n`.
fn build_row<T, F: Fn(usize, usize) -> T>(i: usize, n: usize, entry: &F) -> (row: Vec<T>)
    requires
        i < n,
        entry_callable(n as nat, *entry),
    ensures
        is_row(row@, i, n, *entry),
{
    let mut row: Vec<T> = Vec::with_capacity(n);
    for j in 0..n
        invariant
            i < n,
            entry_callable(n as nat, *entry),
            row.len() == j,
            forall|c: int| 0 <= c < j ==> entry.ensures((i, c as usize), #[trigger] row[c]),
    {
        let v = entry(i, j);
        row.push(v);
    }
    row
}

/// Lays the rows one after another in a single row-major buffer.
fn concat_rows<T, F: Fn(usize, usize) -> T>(rows: Vec<Vec<T>>, n: usize, entry: &F) -> (m: Vec<T>)
    requires
        n * n <= usize::MAX,
        rows.len() == n,
        forall|i: int| 0 <= i < n ==> is_row(#[trigger] rows[i]@, i as usize, n, *entry),
    ensures
        is_assembly(m@, n as nat, *entry),
{
    let ghost all = rows@;
    let mut m: Vec<T> = Vec::new();
    for row in it: rows
        invariant
            it.seq() == all,
            all.len() == n,
            n * n <= usize::MAX,
            forall|i: int| 0 <= i < n ==> is_row(#[trigger] all[i]@, i as usize, n, *entry),
            m.len() == it.index() * n,
            forall|i: int, j: int|
                0 <= i < it.index() && 0 <= j < n ==> #[trigger] m@[flat_index(i, j, n as int)] == all[i][j],
    {
        let ghost k = it.index();
        let ghost before = m@;
        let mut row = row;
        assert(row@ == all[k]@);
        m.append(&mut row);
        proof {
            assert(before.len() == k * n);
            assert forall|i: int, j: int|
                0 <= i < k + 1 && 0 <= j < n implies #[trigger] m@[flat_index(i, j, n as int)] == all[i][j] by {
                if i < k {
                    assert(flat_index(i, j, n as int) < k * n) by (nonlinear_arith)
                        requires
                            0 <= i < k,
                            0 <= j < n,
                            flat_index(i, j, n as int) == i * n + j,
                    ;
                    assert(m@[flat_index(i, j, n as int)] == before[flat_index(i, j, n as int)]);
                } else {
                    assert(flat_index(i, j, n as int) == k * n + j);
                }
            }
            assert(m.len() == (k + 1) * n) by (nonlinear_arith)
                requires
                    m.len() == before.len() + n,
                    before.len() == k * n,
            ;
        }
    }
    m
}

/// Assembles the `n`-by-`n` matrix whose entry `(i, j)` is `entry(i, j)`,
/// computing the rows in parallel.
pub fn assemble_parallel<T: Send, F: Fn(usize, usize) -> T + Sync + Send>(n: usize, entry: F) -> (m: Vec<T>)
    requires
        n * n <= usize::MAX,
        entry_callable(n as nat, entry),
    ensures
        is_assembly(m@, n as nat, entry),
{
    let shared = &entry;
    let make_row = (|i: usize| -> (row: Vec<T>)
        requires
            i < n,
        ensures
            is_row(row@, i, n, *shared),
        { build_row(i, n, shared) });
    let rows = par_map_indices(n, make_row);
    concat_rows(rows, n, &entry)
}

/// Assembles the `n`-by-`n` matrix whose entry `(i, j)` is `entry(i, j)`,
/// one row after another on the calling thread.
pub fn assemble_sequential<T, F: Fn(usize, usize) -> T>(n: usize, entry: F) -> (m: Vec<T>)
    requires
        n * n <= usize::MAX,
        entry_callable(n as nat, entry),
    ensures
        is_assembly(m@, n as nat, entry),
{
    let mut rows: Vec<Vec<T>> = Vec::with_capacity(n);
    for i in 0..n
        invariant
            entry_callable(n as nat, entry),
            rows.len() == i,
            forall|r: int| 0 <= r < i ==> is_row(#[trigger] rows[r]@, r as usize, n, entry),
    {
        let row = build_row(i, n, &entry);
        rows.push(row);
    }
    concat_rows(rows, n, &entry)
}

/// Two assemblies of the same size from the same deterministic entry function
/// are identical, whichever way their rows were scheduled: in particular
/// `assemble_parallel` and `assemble_sequential` agree entry for entry.
pub proof fn lemma_assembly_deterministic<T, F: Fn(usize, usize) -> T>(
    a: Seq<T>,
    b: Seq<T>,
    n: nat,
    entry: F,
)
    requires
        is_assembly(a, n, entry),
        is_assembly(b, n, entry),
        entry_deterministic(entry),
    ensures
        a == b,
{
    assert forall|idx: int| 0 <= idx < a.len() implies a[idx] == b[idx] by {
        lemma_buffer_is_grid(idx, n as int);
        let i = idx / n as int;
        let j = idx % n as int;
        assert(entry.ensures((i as usize, j as usize), a[flat_index(i, j, n as int)]));
        assert(entry.ensures((i as usize, j as usize), b[flat_index(i, j, n as int)]));
    }
    assert(a =~= b);
}

} // verus!
