//! What a filter needs of the engine that runs it: batches of rows,
//! evaluators of expressions, and a parser for the statistics of a file.

use vstd::prelude::*;
use crate::expressions::Expr;
use crate::schema::{DataType, StructType};

verus! {

/// The step of applying a filter at which something went wrong.
#[derive(Clone, Copy, Debug, PartialEq, Eq, Structural)]
pub enum Stage {
    /// Selecting the statistics string of each file.
    SelectStats,
    /// Parsing the statistics strings into records.
    ParseStats,
    /// Evaluating the rewritten predicate on the records.
    Skipping,
    /// Turning the three-valued results into keep or skip.
    Selection,
    /// Reading the results out of the engine.
    Extraction,
}

/// Why a filter could not be applied.
#[derive(Debug, PartialEq, Eq)]
pub enum Error {
    /// The data does not have the shape that an evaluator or the parser was
    /// made for; reported by the engine.
    SchemaMismatch(String),
    /// A step handed back `actual` rows for a batch of `expected` rows.
    LengthMismatch { stage: Stage, expected: usize, actual: usize },
    /// The row `row` of the results is NULL where keep or skip is due.
    MissingSelection { row: usize },
    /// Another failure that the engine reports.
    Engine(String),
}

/// Collects the keep-or-skip result of each row as the engine hands them
/// out.
#[derive(Debug)]
pub struct SelectionVectorVisitor {
    /// The results so far, in the order of the rows.
    pub selection_vector: Vec<bool>,
}

impl Default for SelectionVectorVisitor {
    fn default() -> (r: Self)
        ensures
            r.selection_vector@ == Seq::<bool>::empty(),
    {
        SelectionVectorVisitor::new()
    }
}

impl SelectionVectorVisitor {
    /// A visitor that has seen no row.
    pub fn new() -> (r: Self)
        ensures
            r.selection_vector@ == Seq::<bool>::empty(),
    {
        SelectionVectorVisitor { selection_vector: Vec::new() }
    }

    /// Takes the result of the next row: a NULL is an error and leaves the
    /// visitor as it was.
    pub fn visit_row(&mut self, value: Option<bool>) -> (r: Result<(), Error>)
        ensures
            match value {
                Some(keep) => r is Ok && final(self).selection_vector@ == old(
                    self,
                ).selection_vector@.push(keep),
                None => r == Err::<(), Error>(
                    Error::MissingSelection { row: old(self).selection_vector.len() },
                ) && final(self).selection_vector@ == old(self).selection_vector@,
            },
    {
        match value {
            Some(keep) => {
                self.selection_vector.push(keep);
                Ok(())
            },
            None => Err(Error::MissingSelection { row: self.selection_vector.len() }),
        }
    }

    /// Takes the results of the next rows, in order, up to the first NULL,
    /// which is an error.
    pub fn visit(&mut self, values: &Vec<Option<bool>>) -> (r: Result<(), Error>)
        ensures
            r is Ok <==> first_null(values@) == values@.len(),
            final(self).selection_vector@ == old(self).selection_vector@ + kept_before(
                values@,
                first_null(values@),
            ),
            r matches Err(e) ==> e == (Error::MissingSelection {
                row: final(self).selection_vector.len(),
            }),
    {
        let mut k: usize = 0;
        proof {
            lemma_first_null(values@);
        }
        assert(self.selection_vector@ =~= old(self).selection_vector@ + kept_before(values@, 0));
        while k < values.len()
            invariant
                k <= values.len(),
                k <= first_null(values@),
                self.selection_vector@ == old(self).selection_vector@ + kept_before(
                    values@,
                    k as int,
                ),
            decreases values.len() - k,
        {
            proof {
                lemma_first_null(values@);
            }
            match self.visit_row(values[k]) {
                Ok(()) => {
                    assert(self.selection_vector@ =~= old(self).selection_vector@ + kept_before(
                        values@,
                        k + 1,
                    ));
                },
                Err(e) => {
                    return Err(e);
                },
            }
            k = k + 1;
        }
        proof {
            lemma_first_null(values@);
        }
        Ok(())
    }
}

/// The place of the first NULL among the values, or their number where none
/// is NULL.
pub open spec fn first_null(values: Seq<Option<bool>>) -> int
    decreases values.len(),
{
    if values.len() == 0 {
        0
    } else if first_null(values.drop_last()) < values.len() - 1 {
        first_null(values.drop_last())
    } else if values.last() is None {
        values.len() - 1
    } else {
        values.len() as int
    }
}

/// The first `n` values, none of which is NULL.
pub open spec fn kept_before(values: Seq<Option<bool>>, n: int) -> Seq<bool> {
    Seq::new(n as nat, |i: int| values[i].unwrap())
}

/// No value before the first NULL is NULL, and the value at that place is.
pub proof fn lemma_first_null(values: Seq<Option<bool>>)
    ensures
        0 <= first_null(values) <= values.len(),
        forall|i: int| 0 <= i < first_null(values) ==> (#[trigger] values[i]) is Some,
        first_null(values) < values.len() ==> values[first_null(values)] is None,
    decreases values.len(),
{
    if values.len() > 0 {
        lemma_first_null(values.drop_last());
        assert forall|i: int| 0 <= i < first_null(values) implies (#[trigger] values[i])
            is Some by {
            if i < values.len() - 1 {
                assert(values.drop_last()[i] is Some);
            }
        }
    }
}

/// A batch of rows that the engine holds.
pub trait EngineData: Sized {
    /// The number of rows.
    fn len(&self) -> usize;

    /// Hands the rows of the batch, read as records of the shape `schema`,
    /// to the visitor, in order, and gives the visitor back.
    fn extract(&self, schema: StructType, visitor: SelectionVectorVisitor) -> Result<
        SelectionVectorVisitor,
        Error,
    >;
}

/// Evaluates one expression on batches of one shape.
pub trait ExpressionEvaluator {
    type Data: EngineData;

    /// The value of the expression on each row of the batch.
    fn evaluate(&self, batch: &Self::Data) -> Result<Self::Data, Error>;
}

/// Parses JSON strings into records.
pub trait JsonHandler {
    type Data: EngineData;

    /// One record of the shape `output_schema` for each string of the
    /// batch; a row that is NULL or cannot be parsed gives a record of
    /// NULLs.
    fn parse_json(&self, json_strings: Self::Data, output_schema: &StructType) -> Result<
        Self::Data,
        Error,
    >;
}

/// An engine: the maker of evaluators and of the parser.
pub trait Engine {
    type Data: EngineData;

    type Evaluator: ExpressionEvaluator<Data = Self::Data>;

    type Json: JsonHandler<Data = Self::Data>;

    /// An evaluator of `expression` on batches of the shape `schema`, with
    /// results of the type `output_type`.
    fn get_evaluator(
        &self,
        schema: StructType,
        expression: Expr,
        output_type: DataType,
    ) -> Self::Evaluator;

    /// The parser of the engine.
    fn get_json_handler(&self) -> Self::Json;
}

} // verus!
