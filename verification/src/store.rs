//! The query executor: what becomes of a statement that is run against the
//! store. The program makes the store's calls; it hands each step's outcome
//! over as plain values and is told here what follows.

use crate::row::{cell_views, row_of, row_views, RawRow};
use vstd::prelude::*;

verus! {

/// A statement that the store refused or failed to run: the store's error
/// code and message, as far as it gave them.
#[derive(Clone, Debug)]
pub struct QueryError {
    pub code: Option<isize>,
    pub message: Option<String>,
}

/// What one step of a statement gave.
#[derive(Debug)]
pub enum Stepped {
    /// A row: each result column's name, in the columns' order, with the
    /// column's text, or none where the column cannot be read as text.
    Row(Vec<(String, Option<String>)>),
    /// The statement has run to its end.
    Done,
    /// The step failed.
    Failed(QueryError),
}

/// A statement that is being run: the rows that it has given so far.
#[derive(Debug)]
pub struct Execution {
    pub rows: Vec<RawRow>,
}

/// What follows in the run of a statement.
#[derive(Debug)]
pub enum Next {
    /// One more step is to be made.
    Step(Execution),
    /// The run is over: the statement's rows in the order in which the
    /// store gave them, or the error that ended it.
    Finished(Result<Vec<RawRow>, QueryError>),
}

/// A store's part in a statement whose rows do not matter: what is left to
/// do is to see whether the statement failed.
#[derive(Debug)]
pub struct Plain {}

impl View for Execution {
    type V = Seq<Map<Seq<char>, Seq<char>>>;

    open spec fn view(&self) -> Seq<Map<Seq<char>, Seq<char>>> {
        row_views(self.rows@)
    }
}

/// What a step's outcome is in contracts.
pub ghost enum SteppedView {
    Row(Seq<(Seq<char>, Option<Seq<char>>)>),
    Done,
    Failed(QueryError),
}

impl View for Stepped {
    type V = SteppedView;

    open spec fn view(&self) -> SteppedView {
        match self {
            Stepped::Row(cells) => SteppedView::Row(cell_views(cells@)),
            Stepped::Done => SteppedView::Done,
            Stepped::Failed(e) => SteppedView::Failed(*e),
        }
    }
}

/// What a run comes to that has given `rows` so far and whose further steps
/// have the outcomes of `steps`, one after the other: each row is put behind
/// the rows given before, the end of the statement ends the run with all
/// rows, and a step that failed ends it with its error. A run is not over
/// while no step has ended it.
pub open spec fn run_of(rows: Seq<Map<Seq<char>, Seq<char>>>, steps: Seq<SteppedView>) -> Option<
    Result<Seq<Map<Seq<char>, Seq<char>>>, QueryError>,
>
    decreases steps.len(),
{
    if steps.len() == 0 {
        None
    } else {
        match steps[0] {
            SteppedView::Row(cells) => run_of(rows.push(row_of(cells)), steps.skip(1)),
            SteppedView::Done => Some(Ok(rows)),
            SteppedView::Failed(e) => Some(Err(e)),
        }
    }
}

/// The rows that are made of the cells of `given`: one row for each, in
/// their order.
pub open spec fn rows_given(given: Seq<Seq<(Seq<char>, Option<Seq<char>>)>>) -> Seq<
    Map<Seq<char>, Seq<char>>,
> {
    Seq::new(given.len(), |i: int| row_of(given[i]))
}

/// The steps that give the rows of `given`, one after the other.
pub open spec fn row_steps(given: Seq<Seq<(Seq<char>, Option<Seq<char>>)>>) -> Seq<SteppedView> {
    Seq::new(given.len(), |i: int| SteppedView::Row(given[i]))
}

/// A run whose steps give rows and then the end of the statement ends well,
/// with one row for each row that a step gave, in the order of the steps.
pub proof fn lemma_run_to_the_end(
    rows: Seq<Map<Seq<char>, Seq<char>>>,
    given: Seq<Seq<(Seq<char>, Option<Seq<char>>)>>,
)
    ensures
        run_of(rows, row_steps(given).push(SteppedView::Done)) == Some(
            Ok::<Seq<Map<Seq<char>, Seq<char>>>, QueryError>(rows + rows_given(given)),
        ),
    decreases given.len(),
{
    let steps = row_steps(given).push(SteppedView::Done);
    if given.len() == 0 {
        assert(rows + rows_given(given) =~= rows);
    } else {
        let rest = given.skip(1);
        lemma_run_to_the_end(rows.push(row_of(given[0])), rest);
        assert(steps.skip(1) =~= row_steps(rest).push(SteppedView::Done));
        assert(rows.push(row_of(given[0])) + rows_given(rest) =~= rows + rows_given(given));
    }
}

/// A run in which a step fails ends with that step's error, however many
/// rows the steps before it gave: a failing statement never ends well with
/// the rows read so far.
pub proof fn lemma_run_that_fails(
    rows: Seq<Map<Seq<char>, Seq<char>>>,
    given: Seq<Seq<(Seq<char>, Option<Seq<char>>)>>,
    e: QueryError,
)
    ensures
        run_of(rows, row_steps(given).push(SteppedView::Failed(e))) == Some(
            Err::<Seq<Map<Seq<char>, Seq<char>>>, QueryError>(e),
        ),
    decreases given.len(),
{
    let steps = row_steps(given).push(SteppedView::Failed(e));
    if given.len() > 0 {
        let rest = given.skip(1);
        lemma_run_that_fails(rows.push(row_of(given[0])), rest, e);
        assert(steps.skip(1) =~= row_steps(rest).push(SteppedView::Failed(e)));
    }
}

impl Execution {
    /// Begins the run of a statement, given what its preparation gave: a
    /// statement that could be prepared is stepped, with no rows yet, and one
    /// that could not ends the run with its error.
    pub fn start(prepared: Result<(), QueryError>) -> (r: Next)
        ensures
            match prepared {
                Ok(_) => r matches Next::Step(execution) && execution@.len() == 0,
                Err(e) => r == Next::Finished(Err::<Vec<RawRow>, QueryError>(e)),
            },
    {
        match prepared {
            Ok(_) => Next::Step(Execution { rows: Vec::new() }),
            Err(e) => Next::Finished(Err(e)),
        }
    }

    /// Takes the outcome of one step. A row is made of its cells and put
    /// behind the rows given before, and one more step follows; a column
    /// without text is left out of its row, which keeps its place. The end
    /// of the statement ends the run with all rows, in their order. A step
    /// that failed ends the run with its error, and the rows given before it
    /// are dropped.
    pub fn take(self, outcome: Stepped) -> (r: Next)
        ensures
            match outcome {
                Stepped::Row(cells) => r matches Next::Step(execution) && execution@ == self@.push(
                    row_of(cell_views(cells@)),
                ),
                Stepped::Done => r matches Next::Finished(Ok(rows)) && row_views(rows@) == self@,
                Stepped::Failed(e) => r == Next::Finished(Err::<Vec<RawRow>, QueryError>(e)),
            },
            match r {
                Next::Step(_) => run_of(self@, seq![outcome@]) is None,
                Next::Finished(Ok(rows)) => run_of(self@, seq![outcome@]) == Some(
                    Ok::<Seq<Map<Seq<char>, Seq<char>>>, QueryError>(row_views(rows@)),
                ),
                Next::Finished(Err(e)) => run_of(self@, seq![outcome@]) == Some(
                    Err::<Seq<Map<Seq<char>, Seq<char>>>, QueryError>(e),
                ),
            },
    {
        proof {
            reveal_with_fuel(run_of, 2);
            assert(seq![outcome@].skip(1) =~= Seq::<SteppedView>::empty());
        }
        match outcome {
            Stepped::Row(cells) => {
                let mut rows = self.rows;
                let ghost before = row_views(rows@);
                rows.push(RawRow::from_cells(&cells));
                proof {
                    assert(row_views(rows@) =~= before.push(row_of(cell_views(cells@))));
                }
                Next::Step(Execution { rows })
            },
            Stepped::Done => Next::Finished(Ok(self.rows)),
            Stepped::Failed(e) => Next::Finished(Err(e)),
        }
    }
}

impl Plain {
    /// What became of a statement whose rows do not matter: its error if it
    /// failed, and nothing otherwise.
    pub fn done(self, answer: Result<Vec<RawRow>, QueryError>) -> (r: Result<(), QueryError>)
        ensures
            match answer {
                Ok(_) => r is Ok,
                Err(e) => r == Err::<(), QueryError>(e),
            },
    {
        match answer {
            Ok(_) => Ok(()),
            Err(e) => Err(e),
        }
    }
}

} // verus!
