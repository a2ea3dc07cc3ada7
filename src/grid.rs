//! The grid itself: a row-major buffer of `rows * cols` cells, and the two
//! ways of recomputing every cell from its position.
use vstd::prelude::*;
use crate::layout::{col_of, row_of};
use crate::seed::SeedSequence;
use crate::pool::{fill_chunks_in_pool, pool_size};

verus! {

/// Why a grid operation was refused.
#[derive(Debug, Clone, Copy, PartialEq, Eq, Structural)]
pub enum GridError {
    /// A dimension is zero, the cell count does not fit in `usize`, or the
    /// supplied cells are not `rows * cols` in number.
    InvalidDimensions,
    /// A worker count of zero was asked for.
    InvalidWorkerCount,
}

/// `cells` is what a transform by `f` leaves in a grid with `cols` columns:
/// each cell holds a result of `f` at that cell's (row, column).
pub open spec fn produced_by<T, F: Fn(usize, usize) -> T>(cells: Seq<T>, cols: nat, f: F) -> bool {
    forall|i: int|
        0 <= i < cells.len() ==> f.ensures(
            (row_of(i, cols as int) as usize, col_of(i, cols as int) as usize),
            #[trigger] cells[i],
        )
}

/// `f` may be called at every position of a `rows` by `cols` grid.
pub open spec fn callable_on_grid<T, F: Fn(usize, usize) -> T>(f: F, rows: nat, cols: nat) -> bool {
    forall|r: usize, c: usize| r < rows && c < cols ==> #[trigger] f.requires((r, c))
}

/// `f` is a pure function: one argument pair has at most one result.
pub open spec fn deterministic<T, F: Fn(usize, usize) -> T>(f: F) -> bool {
    forall|r: usize, c: usize, x: T, y: T|
        #[trigger] f.ensures((r, c), x) && #[trigger] f.ensures((r, c), y) ==> x == y
}

/// A `rows` by `cols` grid stored row by row: the cell at linear index `i`
/// stands at row `i / cols`, column `i % cols`.
pub struct Grid<T> {
    rows: usize,
    cols: usize,
    cells: Vec<T>,
}

impl<T> View for Grid<T> {
    type V = Seq<T>;

    /// The cells in linear order.
    closed spec fn view(&self) -> Seq<T> {
        self.cells@
    }
}

impl<T> Grid<T> {
    pub closed spec fn spec_rows(&self) -> nat {
        self.rows as nat
    }

    pub closed spec fn spec_cols(&self) -> nat {
        self.cols as nat
    }

    /// Both dimensions are positive and there is one cell per position.
    pub open spec fn wf(&self) -> bool {
        &&& self.spec_rows() > 0
        &&& self.spec_cols() > 0
        &&& self@.len() == self.spec_rows() * self.spec_cols()
        &&& self.spec_rows() * self.spec_cols() <= usize::MAX
    }

    /// A grid over caller-supplied cells, given in row-major order.
    pub fn from_cells(rows: usize, cols: usize, cells: Vec<T>) -> (r: Result<Grid<T>, GridError>)
        ensures
            r is Ok <==> rows > 0 && cols > 0 && cells@.len() == rows * cols,
            r is Err ==> r == Err::<Grid<T>, GridError>(GridError::InvalidDimensions),
            r matches Ok(g) ==> {
                &&& g.wf()
                &&& g.spec_rows() == rows
                &&& g.spec_cols() == cols
                &&& g@ == cells@
            },
    {
        if rows == 0 || cols == 0 {
            return Err(GridError::InvalidDimensions);
        }
        let len = cells.len();
        match rows.checked_mul(cols) {
            Some(n) if n == len => Ok(Grid { rows, cols, cells }),
            _ => Err(GridError::InvalidDimensions),
        }
    }

    pub fn rows(&self) -> (r: usize)
        ensures
            r == self.spec_rows(),
    {
        self.rows
    }

    pub fn cols(&self) -> (r: usize)
        ensures
            r == self.spec_cols(),
    {
        self.cols
    }

    /// The number of cells, `rows * cols`.
    pub fn len(&self) -> (r: usize)
        ensures
            r == self@.len(),
    {
        self.cells.len()
    }

    /// The cell at linear index `i`.
    pub fn get(&self, i: usize) -> (r: &T)
        requires
            i < self@.len(),
        ensures
            *r == self@[i as int],
    {
        &self.cells[i]
    }

    /// The cell at (`row`, `col`).
    pub fn get_at(&self, row: usize, col: usize) -> (r: &T)
        requires
            self.wf(),
            row < self.spec_rows(),
            col < self.spec_cols(),
        ensures
            *r == self@[row * self.spec_cols() + col],
    {
        proof {
            crate::layout::lemma_index_position_bijection(self.rows as int, self.cols as int);
            assert(0 <= (row as int) * (self.cols as int) + (col as int) < (self.rows as int) * (self.cols as int));
        }
        &self.cells[row * self.cols + col]
    }

    /// A read-only view of the cells in row-major order.
    pub fn as_slice(&self) -> (r: &[T])
        ensures
            r@ == self@,
    {
        self.cells.as_slice()
    }

    /// Gives up the grid, handing its cells over in row-major order.
    pub fn into_cells(self) -> (r: Vec<T>)
        ensures
            r@ == self@,
    {
        self.cells
    }

    /// Overwrites every cell, in ascending linear order, with `f(row, col)`
    /// of its position.
    pub fn transform_sequential<F: Fn(usize, usize) -> T>(&mut self, f: F)
        requires
            old(self).wf(),
            callable_on_grid(f, old(self).spec_rows(), old(self).spec_cols()),
        ensures
            final(self).wf(),
            final(self).spec_rows() == old(self).spec_rows(),
            final(self).spec_cols() == old(self).spec_cols(),
            final(self)@.len() == old(self)@.len(),
            produced_by(final(self)@, final(self).spec_cols(), f),
    {
        let n = self.cells.len();
        let cols = self.cols;
        proof {
            crate::layout::lemma_index_position_bijection(self.rows as int, cols as int);
        }
        let mut i: usize = 0;
        while i < n
            invariant
                self.wf(),
                self.rows == old(self).rows,
                self.cols == cols,
                n == self.cells@.len(),
                i <= n,
                callable_on_grid(f, self.rows as nat, cols as nat),
                forall|i: int|
                    0 <= i < self.rows * cols ==> {
                        &&& 0 <= #[trigger] row_of(i, cols as int) < self.rows
                        &&& 0 <= col_of(i, cols as int) < cols
                    },
                forall|j: int|
                    0 <= j < i ==> f.ensures(
                        (row_of(j, cols as int) as usize, col_of(j, cols as int) as usize),
                        #[trigger] self.cells@[j],
                    ),
            decreases n - i,
        {
            assert(0 <= row_of(i as int, cols as int) < self.rows);
            let v = f(i / cols, i % cols);
            self.cells.set(i, v);
            i = i + 1;
        }
    }

    /// Overwrites every cell with `f(row, col)` of its position, the cells
    /// split into at most `worker_count` contiguous chunks (by default as
    /// many as the thread pool has threads) that are filled concurrently.
    /// A worker count of zero is refused and leaves the grid as it was.
    pub fn transform_parallel<F: Fn(usize, usize) -> T + Sync>(
        &mut self,
        f: F,
        worker_count: Option<usize>,
    ) -> (r: Result<(), GridError>)
        where
            T: Send,
        requires
            old(self).wf(),
            callable_on_grid(f, old(self).spec_rows(), old(self).spec_cols()),
        ensures
            r is Err <==> worker_count == Some(0usize),
            r is Err ==> r == Err::<(), GridError>(GridError::InvalidWorkerCount) && *final(self) == *old(self),
            final(self).wf(),
            final(self).spec_rows() == old(self).spec_rows(),
            final(self).spec_cols() == old(self).spec_cols(),
            final(self)@.len() == old(self)@.len(),
            r is Ok ==> produced_by(final(self)@, final(self).spec_cols(), f),
    {
        let workers = match worker_count {
            Some(0) => return Err(GridError::InvalidWorkerCount),
            Some(w) => w,
            None => {
                let w = pool_size();
                if w == 0 { 1 } else { w }
            },
        };
        let len = chunk_len(self.cells.len(), workers);
        fill_chunks_in_pool(&mut self.cells, self.rows, self.cols, len, &f);
        Ok(())
    }
}

/// The length of each chunk when `total` cells are shared among `workers`
/// workers: the least length for which `workers` chunks cover every cell.
pub fn chunk_len(total: usize, workers: usize) -> (r: usize)
    requires
        workers > 0,
    ensures
        r >= 1,
        r * workers >= total,
        r == 1 || (r - 1) * workers < total,
{
    let q = total / workers;
    let rem = total % workers;
    proof {
        vstd::arithmetic::div_mod::lemma_fundamental_div_mod(total as int, workers as int);
        assert(workers * q == q * workers) by (nonlinear_arith);
        if rem > 0 {
            assert(q <= total) by (nonlinear_arith)
                requires
                    total == q * workers + rem,
                    workers >= 1,
            ;
            assert(q < usize::MAX) by (nonlinear_arith)
                requires
                    total == q * workers + rem,
                    workers >= 2,
                    total <= usize::MAX,
            ;
        }
    }
    let r = if rem == 0 { q } else { q + 1 };
    let r = if r == 0 { 1 } else { r };
    proof {
        assert(r * workers >= total && (r == 1 || (r - 1) * workers < total)) by (nonlinear_arith)
            requires
                total == q * workers + rem,
                0 <= rem < workers,
                rem == 0 ==> (q == 0 ==> r == 1) && (q > 0 ==> r == q),
                rem > 0 ==> r == q + 1,
        ;
    }
    r
}

/// Fills one chunk of a grid's cells: `chunk` is chunk number `k` when the
/// cells are split into consecutive chunks of `chunk_len`, and each of its
/// cells gets `f(row, col)` of the position it stands for.
pub fn fill_chunk<T, F: Fn(usize, usize) -> T>(
    f: &F,
    rows: usize,
    cols: usize,
    chunk_len: usize,
    k: usize,
    chunk: &mut [T],
)
    requires
        rows > 0,
        cols > 0,
        rows * cols <= usize::MAX,
        k * chunk_len + old(chunk)@.len() <= rows * cols,
        callable_on_grid(*f, rows as nat, cols as nat),
    ensures
        final(chunk)@.len() == old(chunk)@.len(),
        forall|j: int|
            0 <= j < final(chunk)@.len() ==> f.ensures(
                (
                    row_of(k * chunk_len + j, cols as int) as usize,
                    col_of(k * chunk_len + j, cols as int) as usize,
                ),
                #[trigger] final(chunk)@[j],
            ),
{
    let n = chunk.len();
    if n == 0 {
        return;
    }
    proof {
        assert(k * chunk_len <= rows * cols);
        crate::layout::lemma_index_position_bijection(rows as int, cols as int);
    }
    let start = k * chunk_len;
    let mut j: usize = 0;
    while j < n
        invariant
            n == chunk@.len(),
            j <= n,
            cols > 0,
            start == k * chunk_len,
            start + n <= rows * cols,
            rows > 0,
            rows * cols <= usize::MAX,
            callable_on_grid(*f, rows as nat, cols as nat),
            forall|i: int|
                0 <= i < rows * cols ==> {
                    &&& 0 <= #[trigger] row_of(i, cols as int) < rows
                    &&& 0 <= col_of(i, cols as int) < cols
                },
            forall|m: int|
                0 <= m < j ==> f.ensures(
                    (
                        row_of(k * chunk_len + m, cols as int) as usize,
                        col_of(k * chunk_len + m, cols as int) as usize,
                    ),
                    #[trigger] chunk@[m],
                ),
        decreases n - j,
    {
        let i = start + j;
        assert(0 <= row_of(i as int, cols as int) < rows);
        let v = f(i / cols, i % cols);
        chunk[j] = v;
        j = j + 1;
    }
}

impl Grid<usize> {
    /// A `rows` by `cols` grid seeded with `1, 2, ..., rows * cols` in
    /// row-major order.
    pub fn new(rows: usize, cols: usize) -> (r: Result<Grid<usize>, GridError>)
        ensures
            r is Ok <==> rows > 0 && cols > 0 && rows * cols <= usize::MAX,
            r is Err ==> r == Err::<Grid<usize>, GridError>(GridError::InvalidDimensions),
            r matches Ok(g) ==> {
                &&& g.wf()
                &&& g.spec_rows() == rows
                &&& g.spec_cols() == cols
                &&& g@ == Seq::new((rows * cols) as nat, |i: int| (i + 1) as usize)
            },
    {
        if rows == 0 || cols == 0 {
            return Err(GridError::InvalidDimensions);
        }
        let n = match rows.checked_mul(cols) {
            Some(n) => n,
            None => return Err(GridError::InvalidDimensions),
        };
        let mut seed = SeedSequence::new(n);
        let mut cells: Vec<usize> = Vec::new();
        loop
            invariant
                seed.wf(),
                seed@.1 == n,
                cells@.len() == seed@.0,
                forall|j: int| 0 <= j < cells@.len() ==> #[trigger] cells@[j] == (j + 1) as usize,
            ensures
                cells@.len() == n,
                forall|j: int| 0 <= j < cells@.len() ==> #[trigger] cells@[j] == (j + 1) as usize,
            decreases n - seed@.0,
        {
            match seed.next() {
                Some(v) => cells.push(v),
                None => break,
            }
        }
        assert(cells@ =~= Seq::new(n as nat, |i: int| (i + 1) as usize));
        Ok(Grid { rows, cols, cells })
    }
}


/// Sequential and parallel transforms agree: two grids of the same
/// dimensions that were each transformed by the same pure `f`, in either
/// mode and with any chunking, hold the same cells.
pub proof fn lemma_transform_modes_agree<T, F: Fn(usize, usize) -> T>(a: Grid<T>, b: Grid<T>, f: F)
    requires
        a.wf(),
        b.wf(),
        a.spec_rows() == b.spec_rows(),
        a.spec_cols() == b.spec_cols(),
        produced_by(a@, a.spec_cols(), f),
        produced_by(b@, b.spec_cols(), f),
        deterministic(f),
    ensures
        a@ == b@,
{
    assert forall|i: int| 0 <= i < a@.len() implies a@[i] == b@[i] by {
        let p = (row_of(i, a.spec_cols() as int) as usize, col_of(i, a.spec_cols() as int) as usize);
        assert(f.ensures(p, a@[i]));
        assert(f.ensures(p, b@[i]));
    }
    assert(a@ =~= b@);
}

/// After a transform by `f`, every position (`row`, `col`) of the grid holds
/// a result of `f(row, col)`, at linear index `row * cols + col`.
pub proof fn lemma_every_position_transformed<T, F: Fn(usize, usize) -> T>(g: Grid<T>, f: F, row: usize, col: usize)
    requires
        g.wf(),
        produced_by(g@, g.spec_cols(), f),
        row < g.spec_rows(),
        col < g.spec_cols(),
    ensures
        f.ensures((row, col), g@[row * g.spec_cols() + col]),
{
    crate::layout::lemma_index_position_bijection(g.spec_rows() as int, g.spec_cols() as int);
    let i = row * g.spec_cols() + col;
    assert(0 <= i < g@.len());
    assert(row_of(i, g.spec_cols() as int) == row);
    assert(col_of(i, g.spec_cols() as int) == col);
}

} // verus!
