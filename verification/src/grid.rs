use vstd::prelude::*;

verus! {

#[verifier::external_type_specification]
#[verifier::external_body]
pub struct ExShapeError(ndarray::ShapeError);

/// A rectangular table of integers, stored as a two-dimensional array of
/// `ndarray`.
#[verifier::external_body]
#[derive(Debug)]
pub struct Grid {
    cells: ndarray::Array2<i128>,
}

/// What a grid holds, row by row.
pub uninterp spec fn grid_rows(grid: Grid) -> Seq<Seq<i128>>;

/// The number of columns of a grid.
pub uninterp spec fn grid_width(grid: Grid) -> nat;

/// The product of those among the two lengths that are not zero.
pub open spec fn nonzero_extent(rows: usize, cols: usize) -> int {
    (if rows == 0 { 1int } else { rows as int }) * (if cols == 0 { 1int } else { cols as int })
}

/// Whether `len` cells fill a table of `rows` rows and `cols` columns that
/// can be addressed.
pub open spec fn shape_fits(rows: usize, cols: usize, len: nat) -> bool {
    &&& nonzero_extent(rows, cols) <= isize::MAX
    &&& rows * cols == len
}

/// The rows that `cells` make when they are read row by row, `cols` to a row.
pub open spec fn rows_of(cells: Seq<i128>, rows: usize, cols: usize) -> Seq<Seq<i128>> {
    Seq::new(rows as nat, |i: int| cells.subrange(i * cols, i * cols + cols))
}

impl Grid {
    /// Calls `from_shape_vec` of `ndarray` with the shape `(rows, cols)`. It
    /// succeeds exactly where the shape fits the cells, and the array then
    /// holds the cells row by row.
    #[verifier::external_body]
    pub(crate) fn from_shape_vec(rows: usize, cols: usize, cells: Vec<i128>) -> (made: Result<
        Grid,
        ndarray::ShapeError,
    >)
        ensures
            made is Ok <==> shape_fits(rows, cols, cells@.len()),
            made matches Ok(grid) ==> {
                &&& grid_rows(grid) == rows_of(cells@, rows, cols)
                &&& grid_width(grid) == cols
            },
    {
        match ndarray::Array2::from_shape_vec((rows, cols), cells) {
            Ok(cells) => Ok(Grid { cells }),
            Err(error) => Err(error),
        }
    }

    /// Calls `nrows` of `ndarray`: the number of rows.
    #[verifier::external_body]
    pub(crate) fn nrows(&self) -> (rows: usize)
        ensures
            rows == grid_rows(*self).len(),
    {
        self.cells.nrows()
    }

    /// Calls `ncols` of `ndarray`: the number of columns, which is the length
    /// of every row.
    #[verifier::external_body]
    pub(crate) fn ncols(&self) -> (cols: usize)
        ensures
            cols == grid_width(*self),
            forall|i: int|
                0 <= i < grid_rows(*self).len() ==> (#[trigger] grid_rows(*self)[i]).len() == cols,
    {
        self.cells.ncols()
    }

    /// Reads the cell in row `i` and column `j`, by the index operator of
    /// `ndarray`.
    #[verifier::external_body]
    pub(crate) fn get(&self, i: usize, j: usize) -> (cell: i128)
        requires
            i < grid_rows(*self).len(),
            j < grid_width(*self),
        ensures
            cell == grid_rows(*self)[i as int][j as int],
    {
        self.cells[[i, j]]
    }

    /// Writes `value` to the cell in row `i` and column `j`, by the index
    /// operator of `ndarray`. No other cell changes, nor the shape.
    #[verifier::external_body]
    pub(crate) fn set(&mut self, i: usize, j: usize, value: i128)
        requires
            i < grid_rows(*old(self)).len(),
            j < grid_width(*old(self)),
        ensures
            grid_rows(*final(self)) == grid_rows(*old(self)).update(
                i as int,
                grid_rows(*old(self))[i as int].update(j as int, value),
            ),
            grid_width(*final(self)) == grid_width(*old(self)),
    {
        self.cells[[i, j]] = value;
    }
}

impl Clone for Grid {
    /// Calls `clone` of `ndarray`: a grid of the same shape that holds the
    /// same cells.
    #[verifier::external_body]
    fn clone(&self) -> (copy: Self)
        ensures
            grid_rows(copy) == grid_rows(*self),
            grid_width(copy) == grid_width(*self),
    {
        Grid { cells: self.cells.clone() }
    }
}

} // verus!
