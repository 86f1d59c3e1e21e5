//! The data skipping filter: made once for a scan from the table's schema
//! and the query predicate, then applied to batches of file metadata. For
//! each file it says whether the file is kept or skipped.

use vstd::prelude::*;
use crate::engine::{
    Engine, EngineData, Error, ExpressionEvaluator, JsonHandler, SelectionVectorVisitor, Stage,
};
use crate::expressions::{ColumnName, Expr, ExprView, SharedExpression};
use crate::operators::BinaryOperator;
use crate::scalars::{Datum, PrimitiveType, Scalar};
use crate::schema::{
    assemble_stats_schema, nullable_field, referenced_fields, stats_schema, DataType, FieldView,
    StructField, StructType, TypeView,
};
use crate::skipping::{as_data_skipping_predicate_in, skipping_predicate, top_column_expr, Scope};

verus! {

/// What an evaluator is asked for, as contracts see it.
pub ghost struct RequestView {
    pub input_schema: Seq<FieldView>,
    pub expression: ExprView,
    pub output_type: TypeView,
}

/// What an evaluator is asked for: the shape of its input, the expression
/// and the type of its results.
#[derive(Debug, PartialEq, Eq)]
pub struct EvaluatorRequest {
    pub input_schema: StructType,
    pub expression: Expr,
    pub output_type: DataType,
}

impl View for EvaluatorRequest {
    type V = RequestView;

    open spec fn view(&self) -> RequestView {
        RequestView {
            input_schema: self.input_schema@,
            expression: self.expression@,
            output_type: self.output_type@,
        }
    }
}

/// The plan of a filter, as contracts see it.
pub ghost struct PlanView {
    pub stats_schema: Seq<FieldView>,
    pub select_stats: RequestView,
    pub skipping: RequestView,
    pub selection: RequestView,
}

/// The plan of a filter: the shape of the statistics that are parsed, and
/// the three evaluators that it runs.
#[derive(Debug, PartialEq, Eq)]
pub struct SkippingPlan {
    /// The shape of the statistics record of a file.
    pub stats_schema: StructType,
    /// Selects the statistics string of each file.
    pub select_stats: EvaluatorRequest,
    /// Evaluates the rewritten predicate on the statistics of each file.
    pub skipping: EvaluatorRequest,
    /// Turns the three-valued result into keep (TRUE or NULL) or skip
    /// (FALSE).
    pub selection: EvaluatorRequest,
}

impl View for SkippingPlan {
    type V = PlanView;

    open spec fn view(&self) -> PlanView {
        PlanView {
            stats_schema: self.stats_schema@,
            select_stats: self.select_stats@,
            skipping: self.skipping@,
            selection: self.selection@,
        }
    }
}

/// The shape of a row of file metadata as far as the filter reads it: the
/// record `add` with the statistics of the file, a JSON string, as `stats`.
pub open spec fn log_add_fields() -> Seq<FieldView> {
    seq![
        nullable_field(
            "add"@,
            TypeView::Struct(
                seq![nullable_field("stats"@, TypeView::Primitive(PrimitiveType::String))],
            ),
        ),
    ]
}

/// The shape of the result of the rewritten predicate: a record with the
/// one nullable Boolean field `predicate`.
pub open spec fn predicate_fields() -> Seq<FieldView> {
    seq![nullable_field("predicate"@, TypeView::Primitive(PrimitiveType::Boolean))]
}

/// The shape in which the selection is read out: a record with the one
/// Boolean field `output`, which is never NULL.
pub open spec fn selection_fields() -> Seq<FieldView> {
    seq![
        FieldView {
            name: "output"@,
            data_type: TypeView::Primitive(PrimitiveType::Boolean),
            nullable: false,
        },
    ]
}

/// The plan for a predicate on a table with the given fields: `None` where
/// the predicate refers to no field of the table, or the statistics of the
/// fields it refers to cannot decide it.
pub open spec fn skipping_plan(table: Seq<FieldView>, predicate: ExprView) -> Option<PlanView> {
    let minmax = referenced_fields(table, predicate.references());
    match (
        stats_schema(table, predicate.references()),
        skipping_predicate(predicate, false, Scope::Fields(minmax)),
    ) {
        (Some(stats), Some(rewritten)) => Some(
            PlanView {
                stats_schema: stats,
                select_stats: RequestView {
                    input_schema: log_add_fields(),
                    expression: ExprView::Column(seq!["add"@, "stats"@]),
                    output_type: TypeView::Primitive(PrimitiveType::String),
                },
                skipping: RequestView {
                    input_schema: stats,
                    expression: ExprView::Struct(seq![rewritten]),
                    output_type: TypeView::Struct(predicate_fields()),
                },
                selection: RequestView {
                    input_schema: predicate_fields(),
                    expression: ExprView::binary(
                        BinaryOperator::Distinct,
                        ExprView::Column(seq!["predicate"@]),
                        ExprView::Literal(Datum::Boolean(false)),
                    ),
                    output_type: TypeView::Primitive(PrimitiveType::Boolean),
                },
            },
        ),
        _ => None,
    }
}

/// The shape of a row of file metadata as far as the filter reads it.
pub fn get_log_add_schema() -> (r: StructType)
    ensures
        r@ == log_add_fields(),
{
    let mut add: Vec<StructField> = Vec::new();
    add.push(StructField::new("stats", DataType::Primitive(PrimitiveType::String), true));
    let add = StructType::new(add);
    assert(add@ =~= seq![nullable_field("stats"@, TypeView::Primitive(PrimitiveType::String))]);
    let mut fields: Vec<StructField> = Vec::new();
    fields.push(StructField::new("add", DataType::struct_type(add), true));
    let schema = StructType::new(fields);
    assert(schema@ =~= log_add_fields());
    schema
}

/// The shape in which the selection is read out: a record with the one
/// Boolean field `output`, which is never NULL.
pub fn get_selection_schema() -> (r: StructType)
    ensures
        r@ == selection_fields(),
{
    let mut fields: Vec<StructField> = Vec::new();
    fields.push(StructField::new("output", DataType::Primitive(PrimitiveType::Boolean), false));
    let schema = StructType::new(fields);
    assert(schema@ =~= selection_fields());
    schema
}

/// The shape of the result of the rewritten predicate.
pub fn get_predicate_schema() -> (r: StructType)
    ensures
        r@ == predicate_fields(),
{
    let mut fields: Vec<StructField> = Vec::new();
    fields.push(StructField::new("predicate", DataType::Primitive(PrimitiveType::Boolean), true));
    let schema = StructType::new(fields);
    assert(schema@ =~= predicate_fields());
    schema
}

impl SkippingPlan {
    /// Plans the filter for `predicate` on a table of the shape
    /// `table_schema`.
    pub fn new(table_schema: &StructType, predicate: &Expr) -> (r: Option<SkippingPlan>)
        ensures
            match r {
                Some(plan) => skipping_plan(table_schema@, predicate@) == Some(plan@),
                None => skipping_plan(table_schema@, predicate@) is None,
            },
    {
        let field_names = predicate.references();
        let data_fields = table_schema.referenced_fields(&field_names);
        if data_fields.len() == 0 {
            return None;
        }
        let minmax_schema = StructType::new(data_fields);
        let rewritten = match as_data_skipping_predicate_in(predicate, Some(&minmax_schema)) {
            Some(rewritten) => rewritten,
            None => {
                return None;
            },
        };
        let stats_schema = assemble_stats_schema(minmax_schema);
        let mut add_stats: Vec<String> = Vec::new();
        add_stats.push("add".to_owned());
        add_stats.push("stats".to_owned());
        let add_stats = ColumnName::new(add_stats);
        assert(add_stats@ =~= seq!["add"@, "stats"@]);
        let mut record: Vec<Expr> = Vec::new();
        record.push(rewritten);
        let record = Expr::struct_from(record);
        assert(record@->Struct_0 =~= seq![rewritten@]);
        Some(
            SkippingPlan {
                stats_schema: stats_schema.duplicate(),
                select_stats: EvaluatorRequest {
                    input_schema: get_log_add_schema(),
                    expression: Expr::column(add_stats),
                    output_type: DataType::Primitive(PrimitiveType::String),
                },
                skipping: EvaluatorRequest {
                    input_schema: stats_schema,
                    expression: record,
                    output_type: DataType::struct_type(get_predicate_schema()),
                },
                selection: EvaluatorRequest {
                    input_schema: get_predicate_schema(),
                    expression: top_column_expr("predicate").distinct(
                        Expr::literal(Scalar::Boolean(false)),
                    ),
                    output_type: DataType::Primitive(PrimitiveType::Boolean),
                },
            },
        )
    }
}

/// The outcome of a step that handed back `actual` rows for a batch of
/// `expected` rows: an error unless the numbers agree.
pub fn check_len(stage: Stage, expected: usize, actual: usize) -> (r: Result<(), Error>)
    ensures
        r == if expected == actual {
            Ok::<(), Error>(())
        } else {
            Err::<(), Error>(Error::LengthMismatch { stage, expected, actual })
        },
{
    if expected == actual {
        Ok(())
    } else {
        Err(Error::LengthMismatch { stage, expected, actual })
    }
}

/// The selection vector for a batch of `expected` rows, from what the
/// extraction came to: its error as it is, an error where the visitor did
/// not collect one result for each row, or else what it collected.
pub fn finish_selection(expected: usize, extracted: Result<SelectionVectorVisitor, Error>) -> (r:
    Result<Vec<bool>, Error>)
    ensures
        r == match extracted {
            Err(e) => Err::<Vec<bool>, Error>(e),
            Ok(visitor) => if visitor.selection_vector.len() == expected {
                Ok::<Vec<bool>, Error>(visitor.selection_vector)
            } else {
                Err::<Vec<bool>, Error>(
                    Error::LengthMismatch {
                        stage: Stage::Extraction,
                        expected,
                        actual: visitor.selection_vector.len(),
                    },
                )
            },
        },
{
    match extracted {
        Err(e) => Err(e),
        Ok(visitor) => {
            let actual = visitor.selection_vector.len();
            if actual == expected {
                Ok(visitor.selection_vector)
            } else {
                Err(Error::LengthMismatch { stage: Stage::Extraction, expected, actual })
            }
        },
    }
}

/// A filter that tells, from the statistics of data files, which files may
/// hold a row that matches a predicate.
pub struct DataSkippingFilter<E: Engine> {
    stats_schema: StructType,
    select_stats_evaluator: E::Evaluator,
    skipping_evaluator: E::Evaluator,
    filter_evaluator: E::Evaluator,
    json_handler: E::Json,
}

impl<E: Engine> DataSkippingFilter<E> {
    /// The record type that the statistics are parsed into.
    pub closed spec fn parsed_schema(&self) -> StructType {
        self.stats_schema
    }

    /// The shape of the statistics record that the filter parses.
    pub open spec fn stats_fields(&self) -> Seq<FieldView> {
        self.parsed_schema()@
    }

    /// The shape of the statistics record that the filter parses.
    pub fn stats_schema(&self) -> (r: &StructType)
        ensures
            *r == self.parsed_schema(),
    {
        &self.stats_schema
    }

    /// The evaluator that selects the statistics string of each file.
    pub closed spec fn select_stats_evaluator(&self) -> E::Evaluator {
        self.select_stats_evaluator
    }

    /// The evaluator of the rewritten predicate.
    pub closed spec fn skipping_evaluator(&self) -> E::Evaluator {
        self.skipping_evaluator
    }

    /// The evaluator that turns the result into keep or skip.
    pub closed spec fn filter_evaluator(&self) -> E::Evaluator {
        self.filter_evaluator
    }

    /// The parser of the statistics strings.
    pub closed spec fn json_handler(&self) -> E::Json {
        self.json_handler
    }

    /// Whether the filter is what `engine` made of `plan`: it parses the
    /// statistics in the shape of the plan, its evaluators are what the
    /// engine gave for the three requests of the plan, and its parser is the
    /// engine's.
    pub open spec fn made_of(&self, engine: &E, plan: SkippingPlan) -> bool {
        &&& self.stats_fields() == plan.stats_schema@
        &&& call_ensures(
            E::get_evaluator,
            (
                engine,
                plan.select_stats.input_schema,
                plan.select_stats.expression,
                plan.select_stats.output_type,
            ),
            self.select_stats_evaluator(),
        )
        &&& call_ensures(
            E::get_evaluator,
            (
                engine,
                plan.skipping.input_schema,
                plan.skipping.expression,
                plan.skipping.output_type,
            ),
            self.skipping_evaluator(),
        )
        &&& call_ensures(
            E::get_evaluator,
            (
                engine,
                plan.selection.input_schema,
                plan.selection.expression,
                plan.selection.output_type,
            ),
            self.filter_evaluator(),
        )
        &&& call_ensures(E::get_json_handler, (engine,), self.json_handler())
    }

    /// Makes the filter for a scan of a table of the shape `table_schema`
    /// with `predicate`. `None` stands for the filter that keeps every file:
    /// there is no predicate, it refers to no field of the table, or the
    /// statistics cannot decide it. Otherwise the engine makes the three
    /// evaluators of the plan.
    pub fn new(engine: &E, table_schema: &StructType, predicate: Option<SharedExpression>) -> (r:
        Option<Self>)
        ensures
            r is Some <==> (predicate matches Some(p) && skipping_plan(table_schema@, p@) is Some),
            r is Some ==> exists|plan: SkippingPlan|
                skipping_plan(table_schema@, predicate.unwrap()@) == Some(plan@)
                    && #[trigger] r.unwrap().made_of(engine, plan),
    {
        let shared = match predicate {
            Some(shared) => shared,
            None => {
                return None;
            },
        };
        let plan = match SkippingPlan::new(table_schema, shared.as_ref()) {
            Some(plan) => plan,
            None => {
                return None;
            },
        };
        let ghost planned = plan;
        let select_stats_evaluator = engine.get_evaluator(
            plan.select_stats.input_schema,
            plan.select_stats.expression,
            plan.select_stats.output_type,
        );
        let skipping_evaluator = engine.get_evaluator(
            plan.skipping.input_schema,
            plan.skipping.expression,
            plan.skipping.output_type,
        );
        let filter_evaluator = engine.get_evaluator(
            plan.selection.input_schema,
            plan.selection.expression,
            plan.selection.output_type,
        );
        let filter = DataSkippingFilter {
            stats_schema: plan.stats_schema,
            select_stats_evaluator,
            skipping_evaluator,
            filter_evaluator,
            json_handler: engine.get_json_handler(),
        };
        let r = Some(filter);
        assert(predicate.unwrap()@ == shared@);
        assert(r.unwrap().made_of(engine, planned));
        r
    }

    /// Whether `extracted` is what the engine gave when it was asked to hand
    /// the rows of `selection`, in the shape of the selection, to a visitor
    /// that had seen no row.
    pub open spec fn read_out(
        selection: E::Data,
        extracted: Result<SelectionVectorVisitor, Error>,
    ) -> bool {
        exists|schema: StructType, visitor: SelectionVectorVisitor|
            schema@ == selection_fields() && visitor.selection_vector@ == Seq::<bool>::empty()
                && #[trigger] call_ensures(
                <E::Data as EngineData>::extract,
                (&selection, schema, visitor),
                extracted,
            )
    }

    /// Whether `trace` records what the engine answered while the filter
    /// was applied to `actions`: each step was asked what the step before
    /// it handed on, as long as no step failed.
    pub open spec fn follows(&self, actions: &E::Data, trace: Trace<E::Data>) -> bool {
        &&& call_ensures(<E::Data as EngineData>::len, (actions,), trace.rows)
        &&& call_ensures(
            <E::Evaluator as ExpressionEvaluator>::evaluate,
            (&self.select_stats_evaluator(), actions),
            trace.stats.answer,
        )
        &&& trace.stats.measured()
        &&& trace.stats.passed(trace.rows) matches Some(stats) ==> {
            &&& call_ensures(
                <E::Json as JsonHandler>::parse_json,
                (&self.json_handler(), stats, &self.parsed_schema()),
                trace.parsed.answer,
            )
            &&& trace.parsed.measured()
            &&& trace.parsed.passed(trace.rows) matches Some(parsed) ==> {
                &&& call_ensures(
                    <E::Evaluator as ExpressionEvaluator>::evaluate,
                    (&self.skipping_evaluator(), &parsed),
                    trace.skipped.answer,
                )
                &&& trace.skipped.measured()
                &&& trace.skipped.passed(trace.rows) matches Some(skipped) ==> {
                    &&& call_ensures(
                        <E::Evaluator as ExpressionEvaluator>::evaluate,
                        (&self.filter_evaluator(), &skipped),
                        trace.selected.answer,
                    )
                    &&& trace.selected.measured()
                    &&& trace.selected.passed(trace.rows) matches Some(selected)
                        ==> Self::read_out(selected, trace.extracted)
                }
            }
        }
    }

    /// Applies the filter to a batch of file metadata: for each row, in
    /// order, `true` where the file is kept and `false` where it is skipped,
    /// the rewritten predicate being FALSE on its statistics.
    ///
    /// The statistics strings are selected and parsed, the rewritten
    /// predicate is evaluated on them, and its result is turned into keep
    /// or skip. An error of the engine is handed on as it is; a step that
    /// hands back another number of rows than the batch has is an error.
    /// The result has one entry for each row of the batch.
    pub fn apply(&self, actions: &E::Data) -> (r: Result<Vec<bool>, Error>)
        ensures
            exists|trace: Trace<E::Data>| #[trigger]
                self.follows(actions, trace) && outcome_view(r) == trace.outcome(),
            r matches Ok(selection) ==> call_ensures(
                <E::Data as EngineData>::len,
                (actions,),
                selection.len(),
            ),
    {
        let rows = actions.len();
        let ghost mut trace: Trace<E::Data> = arbitrary();
        let stats_answer = self.select_stats_evaluator.evaluate(actions);
        let ghost stats = Step { answer: stats_answer, len: 0 };
        proof {
            trace = Trace { rows, stats, ..trace };
        }
        let stats = match stats_answer {
            Ok(stats) => stats,
            Err(e) => {
                assert(self.follows(actions, trace));
                return Err(e);
            },
        };
        let stats_len = stats.len();
        proof {
            trace = Trace { stats: Step { len: stats_len, ..trace.stats }, ..trace };
        }
        match check_len(Stage::SelectStats, rows, stats_len) {
            Ok(()) => {},
            Err(e) => {
                assert(self.follows(actions, trace));
                return Err(e);
            },
        }
        let parsed_answer = self.json_handler.parse_json(stats, &self.stats_schema);
        proof {
            trace = Trace { parsed: Step { answer: parsed_answer, len: 0 }, ..trace };
        }
        let parsed_stats = match parsed_answer {
            Ok(parsed) => parsed,
            Err(e) => {
                assert(self.follows(actions, trace));
                return Err(e);
            },
        };
        let parsed_len = parsed_stats.len();
        proof {
            trace = Trace { parsed: Step { len: parsed_len, ..trace.parsed }, ..trace };
        }
        match check_len(Stage::ParseStats, rows, parsed_len) {
            Ok(()) => {},
            Err(e) => {
                assert(self.follows(actions, trace));
                return Err(e);
            },
        }
        let skipped_answer = self.skipping_evaluator.evaluate(&parsed_stats);
        proof {
            trace = Trace { skipped: Step { answer: skipped_answer, len: 0 }, ..trace };
        }
        let skipping_predicate = match skipped_answer {
            Ok(results) => results,
            Err(e) => {
                assert(self.follows(actions, trace));
                return Err(e);
            },
        };
        let skipped_len = skipping_predicate.len();
        proof {
            trace = Trace { skipped: Step { len: skipped_len, ..trace.skipped }, ..trace };
        }
        match check_len(Stage::Skipping, rows, skipped_len) {
            Ok(()) => {},
            Err(e) => {
                assert(self.follows(actions, trace));
                return Err(e);
            },
        }
        let selected_answer = self.filter_evaluator.evaluate(&skipping_predicate);
        proof {
            trace = Trace { selected: Step { answer: selected_answer, len: 0 }, ..trace };
        }
        let selection_vector = match selected_answer {
            Ok(selection) => selection,
            Err(e) => {
                assert(self.follows(actions, trace));
                return Err(e);
            },
        };
        let selected_len = selection_vector.len();
        proof {
            trace = Trace { selected: Step { len: selected_len, ..trace.selected }, ..trace };
        }
        match check_len(Stage::Selection, rows, selected_len) {
            Ok(()) => {},
            Err(e) => {
                assert(self.follows(actions, trace));
                return Err(e);
            },
        }
        let visitor = SelectionVectorVisitor::new();
        let schema = get_selection_schema();
        let ghost handed = (schema, visitor);
        let extracted = selection_vector.extract(schema, visitor);
        proof {
            trace = Trace { extracted, ..trace };
            assert(trace.selected.passed(trace.rows) == Some(selection_vector));
            assert(handed.0@ == selection_fields());
            assert(handed.1.selection_vector@ == Seq::<bool>::empty());
            assert(call_ensures(
                <E::Data as EngineData>::extract,
                (&selection_vector, handed.0, handed.1),
                trace.extracted,
            ));
            assert(Self::read_out(selection_vector, trace.extracted));
        }
        let r = finish_selection(rows, extracted);
        assert(self.follows(actions, trace));
        r
    }
}

/// What the engine answered at one step: the batch or the error, and the
/// number of rows that the batch said it has.
pub ghost struct Step<D> {
    pub answer: Result<D, Error>,
    pub len: usize,
}

impl<D: EngineData> Step<D> {
    /// Whether `len` is what the batch of the answer gave as its length.
    pub open spec fn measured(self) -> bool {
        self.answer matches Ok(batch) ==> call_ensures(D::len, (&batch,), self.len)
    }

    /// The batch that the step hands on for a batch of `rows` rows, if it
    /// does.
    pub open spec fn passed(self, rows: usize) -> Option<D> {
        match self.answer {
            Ok(batch) => if self.len == rows {
                Some(batch)
            } else {
                None
            },
            Err(_) => None,
        }
    }

    /// The error that the step at `stage` ends with for a batch of `rows`
    /// rows, if it does: the error of the engine, or the mismatch of the
    /// lengths.
    pub open spec fn failed(self, stage: Stage, rows: usize) -> Option<Error> {
        match self.answer {
            Ok(batch) => if self.len == rows {
                None
            } else {
                Some(Error::LengthMismatch { stage, expected: rows, actual: self.len })
            },
            Err(e) => Some(e),
        }
    }
}

/// What the engine answered while a filter was applied to a batch.
pub ghost struct Trace<D> {
    /// The number of rows that the batch said it has.
    pub rows: usize,
    /// The statistics strings.
    pub stats: Step<D>,
    /// The parsed statistics.
    pub parsed: Step<D>,
    /// The values of the rewritten predicate.
    pub skipped: Step<D>,
    /// The selection.
    pub selected: Step<D>,
    /// The visitor after the extraction of the selection.
    pub extracted: Result<SelectionVectorVisitor, Error>,
}

impl<D: EngineData> Trace<D> {
    /// What applying the filter comes to: the error of the first step that
    /// failed, or what the visitor collected.
    pub open spec fn outcome(self) -> Result<Seq<bool>, Error> {
        if let Some(e) = self.stats.failed(Stage::SelectStats, self.rows) {
            Err(e)
        } else if let Some(e) = self.parsed.failed(Stage::ParseStats, self.rows) {
            Err(e)
        } else if let Some(e) = self.skipped.failed(Stage::Skipping, self.rows) {
            Err(e)
        } else if let Some(e) = self.selected.failed(Stage::Selection, self.rows) {
            Err(e)
        } else {
            match self.extracted {
                Err(e) => Err(e),
                Ok(visitor) => if visitor.selection_vector.len() == self.rows {
                    Ok(visitor.selection_vector@)
                } else {
                    Err(
                        Error::LengthMismatch {
                            stage: Stage::Extraction,
                            expected: self.rows,
                            actual: visitor.selection_vector.len(),
                        },
                    )
                },
            }
        }
    }
}

/// The view of the result of applying a filter.
pub open spec fn outcome_view(r: Result<Vec<bool>, Error>) -> Result<Seq<bool>, Error> {
    match r {
        Ok(selection) => Ok(selection@),
        Err(e) => Err(e),
    }
}

} // verus!
