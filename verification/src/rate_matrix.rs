use vstd::prelude::*;
use crate::grid::{grid_rows, grid_width, shape_fits, Grid};

verus! {

/// A table of transition rates: the entry in row `i` and column `j` is the
/// rate of the move from state `i` to state `j`, and the entry on the
/// diagonal is minus the total rate of leaving the state.
#[derive(Debug)]
pub struct RateMatrix {
    grid: Grid,
}

/// Why no matrix was made: the cells do not fill the shape, or the shape
/// cannot be addressed.
#[derive(Debug, Clone, Copy, PartialEq, Eq)]
pub struct ShapeMismatch {
    /// The number of rows that was asked for.
    pub rows: usize,
    /// The number of columns that was asked for.
    pub cols: usize,
    /// The number of cells that was handed in.
    pub cells: usize,
}

/// The rows that `cells` make when they are read row by row, `cols` to a row.
pub open spec fn rate_rows_of(cells: Seq<i64>, rows: usize, cols: usize) -> Seq<Seq<i64>> {
    Seq::new(rows as nat, |i: int| cells.subrange(i * cols, i * cols + cols))
}

/// The rows of a grid, each cell cut to sixty-four bits.
pub open spec fn narrowed(rows: Seq<Seq<i128>>) -> Seq<Seq<i64>> {
    Seq::new(rows.len(), |i: int| Seq::new(rows[i].len(), |j: int| rows[i][j] as i64))
}

/// Whether every cell of every row fits in sixty-four bits.
pub open spec fn narrow_cells(rows: Seq<Seq<i128>>) -> bool {
    forall|i: int, j: int|
        0 <= i < rows.len() && 0 <= j < rows[i].len() ==> i64::MIN <= #[trigger] rows[i][j] <= i64::MAX
}

/// Whether every row is `width` long.
pub open spec fn all_rows_wide(rows: Seq<Seq<i128>>, width: nat) -> bool {
    forall|i: int| 0 <= i < rows.len() ==> (#[trigger] rows[i]).len() == width
}

proof fn lemma_row_lies_within(i: int, j: int, rows: int, cols: int)
    by (nonlinear_arith)
    requires
        0 <= i < rows,
        0 <= j <= cols,
    ensures
        0 <= i * cols <= i * cols + j <= rows * cols,
{
}

impl RateMatrix {
    #[verifier::type_invariant]
    pub closed spec fn well_formed(self) -> bool {
        &&& all_rows_wide(grid_rows(self.grid), grid_width(self.grid))
        &&& narrow_cells(grid_rows(self.grid))
    }

    /// The rates, row by row.
    pub closed spec fn rows(&self) -> Seq<Seq<i64>> {
        narrowed(grid_rows(self.grid))
    }

    /// The number of columns.
    pub closed spec fn width(&self) -> nat {
        grid_width(self.grid)
    }

    /// Whether the matrix has as many rows as columns.
    pub open spec fn square(&self) -> bool {
        self.rows().len() == self.width()
    }

    /// Whether every row has the width of the matrix.
    pub open spec fn rectangular(&self) -> bool {
        forall|i: int| 0 <= i < self.rows().len() ==> (#[trigger] self.rows()[i]).len() == self.width()
    }

    /// The matrix of `rows` rows and `cols` columns that holds `cells` row
    /// by row, where the shape fits the cells; the mismatch where it does
    /// not.
    pub fn from_shape_vec(rows: usize, cols: usize, cells: Vec<i64>) -> (made: Result<
        RateMatrix,
        ShapeMismatch,
    >)
        ensures
            made is Ok <==> shape_fits(rows, cols, cells@.len()),
            made matches Ok(matrix) ==> {
                &&& matrix.rows() == rate_rows_of(cells@, rows, cols)
                &&& matrix.width() == cols
                &&& matrix.rectangular()
            },
            made matches Err(mismatch) ==> mismatch == (ShapeMismatch {
                rows,
                cols,
                cells: cells@.len() as usize,
            }),
    {
        let count = cells.len();
        let mut wide: Vec<i128> = Vec::new();
        let mut k: usize = 0;
        while k < cells.len()
            invariant
                k <= cells.len(),
                wide@.len() == k,
                forall|c: int| 0 <= c < k ==> #[trigger] wide@[c] == cells@[c],
            decreases cells.len() - k,
        {
            wide.push(cells[k] as i128);
            k += 1;
        }
        match Grid::from_shape_vec(rows, cols, wide) {
            Ok(grid) => {
                proof {
                    let built = grid_rows(grid);
                    assert forall|i: int| 0 <= i < built.len() implies (#[trigger] built[i]).len()
                        == cols by {
                        lemma_row_lies_within(i, cols as int, rows as int, cols as int);
                    }
                    assert forall|i: int, j: int|
                        0 <= i < built.len() && 0 <= j < built[i].len() implies i64::MIN
                        <= #[trigger] built[i][j] <= i64::MAX && built[i][j] == cells@[i * cols + j] by {
                        lemma_row_lies_within(i, cols as int, rows as int, cols as int);
                        lemma_row_lies_within(i, j, rows as int, cols as int);
                    }
                    let wanted = rate_rows_of(cells@, rows, cols);
                    assert forall|i: int| 0 <= i < built.len() implies #[trigger] narrowed(built)[i]
                        =~= wanted[i] by {
                        lemma_row_lies_within(i, cols as int, rows as int, cols as int);
                        assert forall|j: int| 0 <= j < cols implies narrowed(built)[i][j]
                            == wanted[i][j] by {
                            assert(built[i][j] == cells@[i * cols + j]);
                        }
                    }
                    assert(narrowed(built) =~= wanted);
                }
                Ok(RateMatrix { grid })
            },
            Err(_) => Err(ShapeMismatch { rows, cols, cells: count }),
        }
    }

    /// The grid that holds the rates, handed over.
    pub(crate) fn into_grid(self) -> (grid: Grid)
        ensures
            grid_width(grid) == self.width(),
            all_rows_wide(grid_rows(grid), grid_width(grid)),
            narrow_cells(grid_rows(grid)),
            narrowed(grid_rows(grid)) == self.rows(),
    {
        proof {
            use_type_invariant(&self);
        }
        self.grid
    }

    /// The number of rows.
    pub fn nrows(&self) -> (rows: usize)
        ensures
            rows == self.rows().len(),
    {
        self.grid.nrows()
    }

    /// The number of columns, which is the length of every row.
    pub fn ncols(&self) -> (cols: usize)
        ensures
            cols == self.width(),
            self.rectangular(),
    {
        self.grid.ncols()
    }

    /// Whether the matrix has as many rows as columns.
    pub fn is_square(&self) -> (square: bool)
        ensures
            square == self.square(),
    {
        self.grid.nrows() == self.grid.ncols()
    }

    /// The rate in row `i` and column `j`.
    pub fn get(&self, i: usize, j: usize) -> (rate: i64)
        requires
            i < self.rows().len(),
            j < self.width(),
        ensures
            j < self.rows()[i as int].len(),
            rate == self.rows()[i as int][j as int],
    {
        proof {
            use_type_invariant(self);
        }
        let cell = self.grid.get(i, j);
        assert(cell == grid_rows(self.grid)[i as int][j as int]);
        cell as i64
    }
}

impl Clone for RateMatrix {
    /// A matrix of the same shape that holds the same rates.
    fn clone(&self) -> (copy: Self)
        ensures
            copy.rows() == self.rows(),
            copy.width() == self.width(),
    {
        proof {
            use_type_invariant(self);
        }
        RateMatrix { grid: self.grid.clone() }
    }
}

} // verus!
