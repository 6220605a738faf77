use vstd::prelude::*;
use crate::generator::{uniform_below, ExperimentRng};
use crate::grid::{grid_rows, grid_width, Grid};
use crate::rate_matrix::{narrowed, RateMatrix};
use crate::transitions::ContinuousMarkovTransitions;

verus! {

/// The sum of the first `count` entries of `row`.
pub open spec fn partial_sum(row: Seq<int>, count: int) -> int
    decreases count,
{
    if count <= 0 {
        0
    } else {
        partial_sum(row, count - 1) + row[count - 1]
    }
}

/// The rates of a row with the entry on the diagonal set to zero.
pub open spec fn off_diagonal(row: Seq<i64>, diagonal: int) -> Seq<int> {
    Seq::new(
        row.len(),
        |j: int|
            if j == diagonal {
                0int
            } else {
                row[j] as int
            },
    )
}

/// The total rate of leaving the state of a row: minus the entry on the
/// diagonal.
pub open spec fn total_rate_of(row: Seq<i64>, diagonal: int) -> int {
    -(row[diagonal] as int)
}

/// Entry `j` of the cumulative form of a row. A row whose total rate is zero
/// stays as it is; in any other row the entry is the sum of the rates up to
/// column `j`, the diagonal left out. Over the total rate it is the
/// probability that the next state is at most `j`.
pub open spec fn cumulative_cell(row: Seq<i64>, diagonal: int, j: int) -> int {
    if row[diagonal] == 0 {
        row[j] as int
    } else {
        partial_sum(off_diagonal(row, diagonal), j + 1)
    }
}

/// The cumulative form of a row.
pub open spec fn cumulative_row(row: Seq<i64>, diagonal: int) -> Seq<int> {
    Seq::new(row.len(), |j: int| cumulative_cell(row, diagonal, j))
}

/// The total rate of each row of a matrix.
pub open spec fn total_rates_of(rows: Seq<Seq<i64>>) -> Seq<int> {
    Seq::new(rows.len(), |k: int| total_rate_of(rows[k], k))
}

/// The cumulative form of each row of a matrix.
pub open spec fn cumulative_rows_of(rows: Seq<Seq<i64>>) -> Seq<Seq<int>> {
    Seq::new(rows.len(), |k: int| cumulative_row(rows[k], k))
}

/// Whether `column` is the column that `draw` selects in a cumulative row:
/// the first whose entry is greater than the draw, or the last column where
/// no entry is.
pub open spec fn is_chosen_column(cumulative: Seq<int>, draw: int, column: int) -> bool {
    &&& 0 <= column < cumulative.len()
    &&& forall|j: int| 0 <= j < column ==> cumulative[j] <= draw
    &&& cumulative[column] > draw || column == cumulative.len() - 1
}

/// A draw selects one column and no other.
pub proof fn lemma_chosen_column_is_unique(cumulative: Seq<int>, draw: int, first: int, second: int)
    requires
        is_chosen_column(cumulative, draw, first),
        is_chosen_column(cumulative, draw, second),
    ensures
        first == second,
{
}

/// Whether `row` is row `diagonal` of a generator matrix: no rate is
/// negative, and the entry on the diagonal is minus the sum of the others.
pub open spec fn is_generator_row(row: Seq<i64>, diagonal: int) -> bool {
    &&& 0 <= diagonal < row.len()
    &&& forall|j: int| 0 <= j < row.len() && j != diagonal ==> row[j] >= 0
    &&& row[diagonal] == -partial_sum(off_diagonal(row, diagonal), row.len() as int)
}

/// Whether `rows` are the rows of a generator matrix.
pub open spec fn is_generator(rows: Seq<Seq<i64>>) -> bool {
    forall|k: int|
        0 <= k < rows.len() ==> (#[trigger] rows[k]).len() == rows.len() && is_generator_row(
            rows[k],
            k,
        )
}

/// The partial sums of entries that are not negative do not fall.
pub proof fn lemma_partial_sum_climbs(row: Seq<int>, shorter: int, longer: int)
    requires
        0 <= shorter <= longer <= row.len(),
        forall|j: int| 0 <= j < row.len() ==> row[j] >= 0,
    ensures
        0 <= partial_sum(row, shorter) <= partial_sum(row, longer),
    decreases longer,
{
    if longer > 0 {
        if shorter < longer {
            lemma_partial_sum_climbs(row, shorter, longer - 1);
        } else {
            lemma_partial_sum_climbs(row, shorter - 1, longer - 1);
        }
    }
}

/// The partial sums of entries between two bounds lie between the multiples
/// of the bounds.
pub proof fn lemma_partial_sum_is_bounded(row: Seq<int>, count: int, low: int, high: int)
    requires
        0 <= count <= row.len(),
        forall|j: int| 0 <= j < row.len() ==> low <= #[trigger] row[j] <= high,
    ensures
        count * low <= partial_sum(row, count) <= count * high,
    decreases count,
{
    if count > 0 {
        lemma_partial_sum_is_bounded(row, count - 1, low, high);
        assert(low <= row[count - 1] <= high);
        assert(count * low == (count - 1) * low + low) by (nonlinear_arith);
        assert(count * high == (count - 1) * high + high) by (nonlinear_arith);
    } else {
        assert(count * low == 0 && count * high == 0) by (nonlinear_arith)
            requires
                count == 0,
        ;
    }
}

/// In a row of a generator matrix whose total rate is not zero, the
/// cumulative entries start at zero or above, never fall, and end at the
/// total rate: over the total rate they are probabilities that climb to one.
pub proof fn lemma_cumulative_row_climbs_to_total(row: Seq<i64>, diagonal: int)
    requires
        is_generator_row(row, diagonal),
        total_rate_of(row, diagonal) != 0,
    ensures
        total_rate_of(row, diagonal) > 0,
        forall|i: int, j: int|
            0 <= i <= j < row.len() ==> 0 <= #[trigger] cumulative_row(row, diagonal)[i]
                <= #[trigger] cumulative_row(row, diagonal)[j],
        cumulative_row(row, diagonal).last() == total_rate_of(row, diagonal),
{
    let rates = off_diagonal(row, diagonal);
    let cumulative = cumulative_row(row, diagonal);
    assert forall|i: int, j: int| 0 <= i <= j < row.len() implies 0 <= #[trigger] cumulative[i]
        <= #[trigger] cumulative[j] by {
        lemma_partial_sum_climbs(rates, i + 1, j + 1);
    }
    lemma_partial_sum_climbs(rates, 0, row.len() as int);
}

/// In a row of a generator matrix, a draw below the total rate selects a
/// column whose cumulative entry is above the draw: a state other than the
/// present one, reached at a positive rate. The last column is never taken
/// for want of another.
pub proof fn lemma_draw_selects_positive_rate(row: Seq<i64>, diagonal: int, draw: int, column: int)
    requires
        is_generator_row(row, diagonal),
        0 <= draw < total_rate_of(row, diagonal),
        is_chosen_column(cumulative_row(row, diagonal), draw, column),
    ensures
        cumulative_row(row, diagonal)[column] > draw,
        column != diagonal,
        row[column] > 0,
{
    lemma_cumulative_row_climbs_to_total(row, diagonal);
    let rates = off_diagonal(row, diagonal);
    let cumulative = cumulative_row(row, diagonal);
    assert(cumulative[column] == partial_sum(rates, column) + rates[column]);
    if column > 0 {
        assert(cumulative[column - 1] == partial_sum(rates, column));
    }
}

/// In a generator matrix, every state whose total rate is not zero has a
/// cumulative row that starts at zero or above, never falls, and ends at the
/// total rate of the state.
pub proof fn lemma_generator_rows_climb_to_total(rates: Seq<Seq<i64>>, state: int)
    requires
        is_generator(rates),
        0 <= state < rates.len(),
        total_rates_of(rates)[state] != 0,
    ensures
        total_rates_of(rates)[state] > 0,
        forall|i: int, j: int|
            0 <= i <= j < rates.len() ==> 0 <= #[trigger] cumulative_rows_of(rates)[state][i]
                <= #[trigger] cumulative_rows_of(rates)[state][j],
        cumulative_rows_of(rates)[state].last() == total_rates_of(rates)[state],
{
    assert(rates[state].len() == rates.len());
    lemma_cumulative_row_climbs_to_total(rates[state], state);
}

/// In a generator matrix no total rate is negative.
pub proof fn lemma_generator_rates_are_not_negative(rates: Seq<Seq<i64>>, state: int)
    requires
        is_generator(rates),
        0 <= state < rates.len(),
    ensures
        total_rates_of(rates)[state] >= 0,
{
    assert(rates[state].len() == rates.len());
    lemma_partial_sum_climbs(off_diagonal(rates[state], state), 0, rates.len() as int);
}

/// A rate model given by a full matrix: for each state the total rate of
/// leaving it, and the cumulative form of its row, both worked out once when
/// the model is made.
#[derive(Debug)]
pub struct MatrixTransitions {
    total_rates: Vec<i128>,
    cumulative_rows: Grid,
}

impl MatrixTransitions {
    #[verifier::type_invariant]
    pub closed spec fn well_formed(self) -> bool {
        &&& grid_rows(self.cumulative_rows).len() == self.total_rates@.len()
        &&& grid_width(self.cumulative_rows) == self.total_rates@.len()
        &&& forall|i: int|
            0 <= i < grid_rows(self.cumulative_rows).len() ==> (#[trigger] grid_rows(
                self.cumulative_rows,
            )[i]).len() == self.total_rates@.len()
        &&& forall|k: int|
            0 <= k < self.total_rates@.len() ==> -i64::MAX <= #[trigger] self.total_rates@[k]
                <= -i64::MIN
    }

    /// The number of states.
    pub closed spec fn state_count(&self) -> nat {
        self.total_rates@.len()
    }

    /// The total rate of leaving each state.
    pub closed spec fn total_rates(&self) -> Seq<int> {
        Seq::new(self.total_rates@.len(), |k: int| self.total_rates@[k] as int)
    }

    /// The cumulative form of each row.
    pub closed spec fn cumulative_rows(&self) -> Seq<Seq<int>> {
        Seq::new(
            grid_rows(self.cumulative_rows).len(),
            |i: int|
                Seq::new(
                    grid_rows(self.cumulative_rows)[i].len(),
                    |j: int| grid_rows(self.cumulative_rows)[i][j] as int,
                ),
        )
    }

    /// The model of a square matrix of rates. The total rate of a state is
    /// minus the entry on the diagonal of its row. A row whose total rate is
    /// zero is kept as it is; every other row is replaced by the running sums
    /// of its rates, the diagonal counted as zero.
    pub fn new(transitions: RateMatrix) -> (model: Self)
        requires
            transitions.square(),
        ensures
            model.state_count() == transitions.width(),
            model.total_rates() == total_rates_of(transitions.rows()),
            model.cumulative_rows() == cumulative_rows_of(transitions.rows()),
    {
        let ghost rates = transitions.rows();
        let n = transitions.ncols();
        let mut grid = transitions.into_grid();
        let ghost given = grid_rows(grid);
        assert(narrowed(given).len() == given.len());
        assert forall|i: int| 0 <= i < n implies (#[trigger] rates[i]).len() == n by {
            assert(narrowed(given)[i].len() == given[i].len());
        }
        assert forall|i: int, j: int| 0 <= i < n && 0 <= j < n implies #[trigger] given[i][j]
            == rates[i][j] by {
            assert(narrowed(given)[i][j] == given[i][j] as i64);
        }
        let mut total_rates: Vec<i128> = Vec::new();
        let mut k: usize = 0;
        while k < n
            invariant
                k <= n,
                grid_rows(grid) == given,
                grid_width(grid) == n,
                given.len() == n,
                forall|i: int| 0 <= i < n ==> (#[trigger] given[i]).len() == n,
                forall|i: int, j: int|
                    0 <= i < n && 0 <= j < n ==> i64::MIN <= #[trigger] given[i][j] <= i64::MAX,
                total_rates@.len() == k,
                forall|i: int| 0 <= i < k ==> #[trigger] total_rates@[i] == -given[i][i],
            decreases n - k,
        {
            let cell = grid.get(k, k);
            total_rates.push(-cell);
            k += 1;
        }
        k = 0;
        while k < n
            invariant
                k <= n,
                grid_width(grid) == n,
                grid_rows(grid).len() == n,
                given.len() == n,
                rates.len() == n,
                forall|i: int| 0 <= i < n ==> (#[trigger] grid_rows(grid)[i]).len() == n,
                forall|i: int| 0 <= i < n ==> (#[trigger] rates[i]).len() == n,
                forall|i: int, j: int|
                    0 <= i < n && 0 <= j < n ==> #[trigger] given[i][j] == rates[i][j],
                forall|i: int, j: int|
                    0 <= i < k && 0 <= j < n ==> #[trigger] grid_rows(grid)[i][j]
                        == cumulative_cell(rates[i], i, j),
                forall|i: int, j: int|
                    k <= i < n && 0 <= j < n ==> #[trigger] grid_rows(grid)[i][j] == given[i][j],
                total_rates@.len() == n,
                forall|i: int| 0 <= i < n ==> #[trigger] total_rates@[i] == -given[i][i],
            decreases n - k,
        {
            let total_rate = total_rates[k];
            if total_rate != 0 {
                let ghost row = off_diagonal(rates[k as int], k as int);
                grid.set(k, k, 0);
                let mut running: i128 = 0;
                let mut j: usize = 0;
                while j < n
                    invariant
                        j <= n,
                        k < n,
                        grid_width(grid) == n,
                        grid_rows(grid).len() == n,
                        given.len() == n,
                        rates.len() == n,
                        row == off_diagonal(rates[k as int], k as int),
                        rates[k as int][k as int] != 0,
                        forall|i: int| 0 <= i < n ==> (#[trigger] grid_rows(grid)[i]).len() == n,
                        forall|i: int| 0 <= i < n ==> (#[trigger] rates[i]).len() == n,
                        forall|i: int, c: int|
                            0 <= i < n && 0 <= c < n ==> #[trigger] given[i][c] == rates[i][c],
                        forall|i: int, c: int|
                            0 <= i < k && 0 <= c < n ==> #[trigger] grid_rows(grid)[i][c]
                                == cumulative_cell(rates[i], i, c),
                        forall|i: int, c: int|
                            k < i < n && 0 <= c < n ==> #[trigger] grid_rows(grid)[i][c]
                                == given[i][c],
                        forall|c: int|
                            0 <= c < j ==> #[trigger] grid_rows(grid)[k as int][c] == partial_sum(
                                row,
                                c + 1,
                            ),
                        forall|c: int|
                            j <= c < n ==> #[trigger] grid_rows(grid)[k as int][c] == row[c],
                        running == partial_sum(row, j as int),
                    decreases n - j,
                {
                    let rate = grid.get(k, j);
                    proof {
                        lemma_partial_sum_is_bounded(
                            row,
                            j as int,
                            i64::MIN as int,
                            i64::MAX as int,
                        );
                        assert(j * (i64::MIN as int) >= usize::MAX * (i64::MIN as int))
                            by (nonlinear_arith)
                            requires
                                0 <= j <= usize::MAX,
                        ;
                        assert(j * (i64::MAX as int) <= usize::MAX * (i64::MAX as int))
                            by (nonlinear_arith)
                            requires
                                0 <= j <= usize::MAX,
                        ;
                    }
                    running = running + rate;
                    grid.set(k, j, running);
                    j += 1;
                }
            }
            k += 1;
        }
        let model = MatrixTransitions { total_rates, cumulative_rows: grid };
        proof {
            let wanted = cumulative_rows_of(rates);
            assert forall|i: int| 0 <= i < n implies #[trigger] model.cumulative_rows()[i]
                =~= wanted[i] by {
                assert forall|j: int| 0 <= j < n implies model.cumulative_rows()[i][j]
                    == wanted[i][j] by {
                    assert(grid_rows(grid)[i][j] == cumulative_cell(rates[i], i, j));
                }
            }
            assert(model.cumulative_rows() =~= wanted);
            assert(model.total_rates() =~= total_rates_of(rates));
        }
        model
    }

    /// The number of states, which is also the state that stands for "already
    /// finished".
    pub fn dimension(&self) -> (states: usize)
        ensures
            states == self.state_count(),
            self.total_rates().len() == states,
            self.cumulative_rows().len() == states,
            forall|i: int| 0 <= i < states ==> (#[trigger] self.cumulative_rows()[i]).len() == states,
    {
        proof {
            use_type_invariant(self);
        }
        self.total_rates.len()
    }

    /// The total rate of leaving `from_state`.
    pub fn total_rate(&self, from_state: u64) -> (rate: i128)
        requires
            from_state < self.state_count(),
        ensures
            rate == self.total_rates()[from_state as int],
            -i64::MAX <= rate <= -i64::MIN,
    {
        proof {
            use_type_invariant(self);
        }
        let n = self.total_rates.len();
        assert(from_state < n);
        self.total_rates[from_state as usize]
    }

    /// The column that `draw` selects in the cumulative row of `row`.
    fn select_column(&self, row: usize, draw: u64) -> (column: usize)
        requires
            row < self.state_count(),
        ensures
            is_chosen_column(self.cumulative_rows()[row as int], draw as int, column as int),
    {
        proof {
            use_type_invariant(self);
        }
        let n = self.total_rates.len();
        let ghost cumulative = self.cumulative_rows()[row as int];
        let mut j: usize = 0;
        while j < n
            invariant
                j <= n,
                row < n,
                n == self.total_rates@.len(),
                n == grid_width(self.cumulative_rows),
                n == grid_rows(self.cumulative_rows).len(),
                cumulative == self.cumulative_rows()[row as int],
                cumulative.len() == n,
                forall|c: int| 0 <= c < j ==> cumulative[c] <= draw,
            decreases n - j,
        {
            let entry = self.cumulative_rows.get(row, j);
            if entry > draw as i128 {
                return j;
            }
            j += 1;
        }
        n - 1
    }

    /// The state that follows `from_state` on `draw`: nothing where
    /// `from_state` is the number of states or its total rate is zero, else
    /// the column that the draw selects in the cumulative row of the state.
    pub fn next_state(&self, from_state: u64, draw: u64) -> (to_state: Option<u64>)
        requires
            from_state <= self.state_count(),
        ensures
            to_state is None <==> from_state == self.state_count() || self.total_rates()[from_state as int]
                == 0,
            to_state matches Some(column) ==> is_chosen_column(
                self.cumulative_rows()[from_state as int],
                draw as int,
                column as int,
            ),
    {
        let n = self.total_rates.len();
        if from_state == n as u64 {
            None
        } else if self.total_rates[from_state as usize] == 0 {
            None
        } else {
            Some(self.select_column(from_state as usize, draw) as u64)
        }
    }
}

/// The model of a generator matrix admits every state up to the number of
/// states, and every transition leads to a state that it admits, other than
/// the one it leaves, at a positive rate.
pub proof fn lemma_generator_model_is_closed(
    model: MatrixTransitions,
    rates: Seq<Seq<i64>>,
    from_state: u64,
    unit_wait: u64,
    to_state: u64,
    elapsed: u64,
)
    requires
        is_generator(rates),
        model.state_count() == rates.len(),
        model.total_rates() == total_rates_of(rates),
        model.cumulative_rows() == cumulative_rows_of(rates),
        from_state <= model.state_count(),
    ensures
        model.admits(from_state),
        model.leads(from_state, unit_wait, to_state, elapsed) ==> {
            &&& to_state < model.state_count()
            &&& to_state != from_state
            &&& rates[from_state as int][to_state as int] > 0
            &&& model.admits(to_state)
        },
{
    if from_state < rates.len() {
        lemma_generator_rates_are_not_negative(rates, from_state as int);
    }
    if model.leads(from_state, unit_wait, to_state, elapsed) {
        let row = rates[from_state as int];
        assert(row.len() == rates.len());
        let draw = choose|draw: int|
            0 <= draw < model.total_rates()[from_state as int] && #[trigger] is_chosen_column(
                model.cumulative_rows()[from_state as int],
                draw,
                to_state as int,
            );
        lemma_draw_selects_positive_rate(row, from_state as int, draw, to_state as int);
        lemma_generator_rates_are_not_negative(rates, to_state as int);
    }
}

impl Clone for MatrixTransitions {
    /// A model of the same total rates and cumulative rows.
    fn clone(&self) -> (copy: Self)
        ensures
            copy.state_count() == self.state_count(),
            copy.total_rates() == self.total_rates(),
            copy.cumulative_rows() == self.cumulative_rows(),
    {
        proof {
            use_type_invariant(self);
        }
        let total_rates = self.total_rates.clone();
        assert(total_rates@ =~= self.total_rates@);
        MatrixTransitions { total_rates, cumulative_rows: self.cumulative_rows.clone() }
    }
}

impl ContinuousMarkovTransitions for MatrixTransitions {
    /// A state up to the number of states, whose total rate is not negative.
    open spec fn admits(&self, from_state: u64) -> bool {
        &&& from_state <= self.state_count()
        &&& from_state < self.state_count() ==> self.total_rates()[from_state as int] >= 0
    }

    open spec fn halts(&self, from_state: u64) -> bool {
        from_state >= self.state_count() || self.total_rates()[from_state as int] == 0
    }

    open spec fn leads(&self, from_state: u64, unit_wait: u64, to_state: u64, elapsed: u64) -> bool {
        &&& from_state < self.state_count()
        &&& self.total_rates()[from_state as int] > 0
        &&& exists|draw: int|
            0 <= draw < self.total_rates()[from_state as int] && #[trigger] is_chosen_column(
                self.cumulative_rows()[from_state as int],
                draw,
                to_state as int,
            )
        &&& elapsed == unit_wait as int / self.total_rates()[from_state as int]
    }

    fn accepts(&self, from_state: u64) -> (accepted: bool) {
        let n = self.dimension();
        if from_state > n as u64 {
            false
        } else if from_state == n as u64 {
            true
        } else {
            self.total_rate(from_state) >= 0
        }
    }

    /// Nothing from the state that equals the number of states, nor from one
    /// whose total rate is zero. From any other, the column that a draw
    /// below the total rate selects, after the waiting time of that rate.
    fn next_transition(&self, from_state: u64, rng: &mut ExperimentRng, unit_wait: u64) -> (transition:
        Option<(u64, u64)>) {
        let n = self.dimension();
        if from_state == n as u64 {
            return None;
        }
        let total_rate = self.total_rate(from_state);
        if total_rate == 0 {
            return None;
        }
        let bound = total_rate as u64;
        let draw = uniform_below(rng, bound);
        let to_state = self.select_column(from_state as usize, draw) as u64;
        assert(is_chosen_column(
            self.cumulative_rows()[from_state as int],
            draw as int,
            to_state as int,
        ));
        Some((to_state, unit_wait / bound))
    }
}

} // verus!
