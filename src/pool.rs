//! The calls into rayon's thread pool.
use vstd::prelude::*;
use rayon::iter::{IndexedParallelIterator, ParallelIterator};
use rayon::slice::ParallelSliceMut;
use crate::grid::{callable_on_grid, fill_chunk, produced_by};

verus! {

/// Relies on `rayon::current_num_threads`: the size of the pool that parallel
/// work runs on. Nothing is promised of the value.
#[verifier::external_body]
pub(crate) fn pool_size() -> (r: usize) {
    rayon::current_num_threads()
}

/// Relies on rayon's `par_chunks_mut(chunk_len).enumerate().for_each(..)`:
/// the slice is cut into consecutive, non-overlapping chunks of `chunk_len`
/// cells (the last one possibly shorter), chunk number `k` starting at cell
/// `k * chunk_len`; the closure runs once on each chunk, with its number, and
/// the call returns after all of them have finished. Chunk `k` therefore
/// ends at or before cell `rows * cols`, which is what `fill_chunk` asks of
/// it, and the contract of `fill_chunk` on each chunk gives every cell its
/// value.
#[verifier::external_body]
pub(crate) fn fill_chunks_in_pool<T: Send, F: Fn(usize, usize) -> T + Sync>(
    cells: &mut Vec<T>,
    rows: usize,
    cols: usize,
    chunk_len: usize,
    f: &F,
)
    requires
        rows > 0,
        cols > 0,
        chunk_len > 0,
        old(cells)@.len() == rows * cols,
        rows * cols <= usize::MAX,
        callable_on_grid(*f, rows as nat, cols as nat),
    ensures
        final(cells)@.len() == old(cells)@.len(),
        produced_by(final(cells)@, cols as nat, *f),
{
    cells.par_chunks_mut(chunk_len).enumerate().for_each(
        |(k, chunk)| fill_chunk(f, rows, cols, chunk_len, k, chunk),
    );
}

} // verus!
