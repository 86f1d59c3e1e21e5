use data_skipping::engine::{
    Engine, EngineData, Error, ExpressionEvaluator, JsonHandler, SelectionVectorVisitor, Stage,
};
use data_skipping::evaluation::{evaluate, Row};
use data_skipping::expressions::{ColumnName, Expr, SharedExpression};
use data_skipping::filter::{
    check_len, finish_selection, get_log_add_schema, get_predicate_schema, get_selection_schema,
    DataSkippingFilter, EvaluatorRequest, SkippingPlan,
};
use data_skipping::scalars::{PrimitiveType, Scalar};
use data_skipping::schema::{DataType, StructField, StructType};

fn name(path: &[&str]) -> ColumnName {
    ColumnName::new(path.iter().map(|s| s.to_string()).collect())
}

fn col(path: &[&str]) -> Expr {
    Expr::column(name(path))
}

fn lit(value: i32) -> Expr {
    Expr::literal(Scalar::Integer(value))
}

fn table() -> StructType {
    StructType::new(vec![
        StructField::new("a", DataType::Primitive(PrimitiveType::Integer), true),
        StructField::new("b", DataType::Primitive(PrimitiveType::String), true),
    ])
}

/// A batch of rows held in memory.
#[derive(Debug, Clone, PartialEq)]
struct Batch(Vec<Row>);

impl EngineData for Batch {
    fn len(&self) -> usize {
        self.0.len()
    }

    fn extract(
        &self,
        schema: StructType,
        mut visitor: SelectionVectorVisitor,
    ) -> Result<SelectionVectorVisitor, Error> {
        let column = name(&[schema.fields[0].name.as_str()]);
        let values: Vec<Option<bool>> = self
            .0
            .iter()
            .map(|row| match row.get(&column) {
                Scalar::Boolean(b) => Some(b),
                _ => None,
            })
            .collect();
        visitor.visit(&values)?;
        Ok(visitor)
    }
}

/// What a step of the test engine does besides its work.
#[derive(Debug, Clone, PartialEq)]
enum Fault {
    Nothing,
    Fail(String),
    DropLastRow,
}

struct Evaluator {
    request: EvaluatorRequest,
    fault: Fault,
}

impl ExpressionEvaluator for Evaluator {
    type Data = Batch;

    fn evaluate(&self, batch: &Batch) -> Result<Batch, Error> {
        if let Fault::Fail(message) = &self.fault {
            return Err(Error::SchemaMismatch(message.clone()));
        }
        let mut rows: Vec<Row> = batch
            .0
            .iter()
            .map(|row| match (&self.request.expression, &self.request.output_type) {
                (Expr::Struct(exprs), DataType::Struct(record)) => Row::new(
                    exprs
                        .iter()
                        .zip(record.fields.iter())
                        .map(|(e, f)| (name(&[f.name.as_str()]), evaluate(e, row)))
                        .collect(),
                ),
                (e, _) => Row::new(vec![(name(&["output"]), evaluate(e, row))]),
            })
            .collect();
        if self.fault == Fault::DropLastRow {
            rows.pop();
        }
        Ok(Batch(rows))
    }
}

struct Parser {
    known: Vec<(String, Row)>,
    fault: Fault,
}

impl JsonHandler for Parser {
    type Data = Batch;

    fn parse_json(&self, json_strings: Batch, _output_schema: &StructType) -> Result<Batch, Error> {
        if let Fault::Fail(message) = &self.fault {
            return Err(Error::Engine(message.clone()));
        }
        let mut rows: Vec<Row> = json_strings
            .0
            .iter()
            .map(|row| match row.get(&name(&["output"])) {
                Scalar::String(s) => self
                    .known
                    .iter()
                    .find(|(k, _)| *k == s)
                    .map(|(_, r)| r.clone())
                    .unwrap_or(Row::new(vec![])),
                _ => Row::new(vec![]),
            })
            .collect();
        if self.fault == Fault::DropLastRow {
            rows.pop();
        }
        Ok(Batch(rows))
    }
}

struct TestEngine {
    known: Vec<(String, Row)>,
    /// The fault of each evaluator, in the order in which they are made,
    /// and of the parser.
    faults: [Fault; 4],
    made: std::cell::Cell<usize>,
}

impl TestEngine {
    fn new(known: Vec<(String, Row)>) -> Self {
        TestEngine {
            known,
            faults: [Fault::Nothing, Fault::Nothing, Fault::Nothing, Fault::Nothing],
            made: std::cell::Cell::new(0),
        }
    }

    fn with_fault(mut self, step: usize, fault: Fault) -> Self {
        self.faults[step] = fault;
        self
    }
}

impl Engine for TestEngine {
    type Data = Batch;
    type Evaluator = Evaluator;
    type Json = Parser;

    fn get_evaluator(
        &self,
        schema: StructType,
        expression: Expr,
        output_type: DataType,
    ) -> Evaluator {
        let n = self.made.get();
        self.made.set(n + 1);
        Evaluator {
            request: EvaluatorRequest {
                input_schema: schema,
                expression,
                output_type,
            },
            fault: self.faults[n].clone(),
        }
    }

    fn get_json_handler(&self) -> Parser {
        Parser {
            known: self.known.clone(),
            fault: self.faults[3].clone(),
        }
    }
}

fn stats(min: Option<i32>, max: Option<i32>, nc: i64, nr: i64, tb: bool) -> Row {
    let value = |v: Option<i32>| match v {
        Some(v) => Scalar::Integer(v),
        None => Scalar::Null,
    };
    Row::new(vec![
        (name(&["numRecords"]), Scalar::Long(nr)),
        (name(&["tightBounds"]), Scalar::Boolean(tb)),
        (name(&["nullCount", "a"]), Scalar::Long(nc)),
        (name(&["minValues", "a"]), value(min)),
        (name(&["maxValues", "a"]), value(max)),
    ])
}

fn three_files() -> Vec<(String, Row)> {
    vec![
        ("file1".to_string(), stats(Some(0), Some(10), 0, 100, true)),
        ("file2".to_string(), stats(Some(20), Some(30), 0, 50, true)),
        ("file3".to_string(), stats(None, None, 5, 5, false)),
    ]
}

fn actions(files: &[&str]) -> Batch {
    Batch(
        files
            .iter()
            .map(|f| {
                Row::new(vec![(
                    name(&["add", "stats"]),
                    Scalar::String(f.to_string()),
                )])
            })
            .collect(),
    )
}

fn shared(e: Expr) -> Option<SharedExpression> {
    Some(SharedExpression::new(e))
}

#[test]
fn three_files_equality() {
    let engine = TestEngine::new(three_files());
    let filter =
        DataSkippingFilter::new(&engine, &table(), shared(col(&["a"]).eq(lit(5)))).unwrap();
    assert_eq!(
        filter.apply(&actions(&["file1", "file2", "file3"])),
        Ok(vec![true, false, true])
    );
}

#[test]
fn selection_keeps_the_order_of_the_batch() {
    let engine = TestEngine::new(three_files());
    let filter =
        DataSkippingFilter::new(&engine, &table(), shared(col(&["a"]).eq(lit(5)))).unwrap();
    assert_eq!(
        filter.apply(&actions(&["file2", "file1", "file2", "file3", "file1"])),
        Ok(vec![false, true, false, true, true])
    );
    assert_eq!(filter.apply(&actions(&[])), Ok(vec![]));
}

#[test]
fn file_without_statistics_is_kept() {
    let engine = TestEngine::new(three_files());
    let filter =
        DataSkippingFilter::new(&engine, &table(), shared(col(&["a"]).gt(lit(100)))).unwrap();
    assert_eq!(
        filter.apply(&actions(&["file1", "unknown", "file2"])),
        Ok(vec![false, true, false])
    );
}

#[test]
fn null_tests_on_three_files() {
    let engine = TestEngine::new(three_files());
    let is_null =
        DataSkippingFilter::new(&engine, &table(), shared(col(&["a"]).is_null())).unwrap();
    assert_eq!(
        is_null.apply(&actions(&["file1", "file2", "file3"])),
        Ok(vec![false, false, true])
    );
    let engine = TestEngine::new(three_files());
    let not_null =
        DataSkippingFilter::new(&engine, &table(), shared(col(&["a"]).is_null().not())).unwrap();
    assert_eq!(
        not_null.apply(&actions(&["file1", "file2", "file3"])),
        Ok(vec![true, true, false])
    );
}

#[test]
fn no_predicate_no_filter() {
    let engine = TestEngine::new(three_files());
    assert!(DataSkippingFilter::new(&engine, &table(), None).is_none());
    assert_eq!(engine.made.get(), 0);
}

#[test]
fn predicate_without_a_column_of_the_table_gives_no_filter() {
    let engine = TestEngine::new(three_files());
    assert!(DataSkippingFilter::new(&engine, &table(), shared(col(&["z"]).lt(lit(1)))).is_none());
    assert!(DataSkippingFilter::new(&engine, &table(), shared(lit(1).lt(lit(2)))).is_none());
    assert!(
        DataSkippingFilter::new(&engine, &table(), shared(col(&["a", "x"]).lt(lit(1)))).is_none()
    );
}

#[test]
fn undecidable_predicate_gives_no_filter() {
    let engine = TestEngine::new(three_files());
    assert!(DataSkippingFilter::new(&engine, &table(), shared(col(&["a"]))).is_none());
    let poisoned = Expr::or(col(&["a"]).lt(lit(1)), col(&["a"]).distinct(lit(1)));
    assert!(DataSkippingFilter::new(&engine, &table(), shared(poisoned)).is_none());
    let mistyped = col(&["b"]).lt(lit(1));
    assert!(DataSkippingFilter::new(&engine, &table(), shared(mistyped)).is_none());
}

#[test]
fn filter_reads_the_statistics_of_the_referenced_columns() {
    let engine = TestEngine::new(three_files());
    let filter =
        DataSkippingFilter::new(&engine, &table(), shared(col(&["a"]).lt(lit(5)))).unwrap();
    let minmax = StructType::new(vec![StructField::new(
        "a",
        DataType::Primitive(PrimitiveType::Integer),
        true,
    )]);
    let counts = StructType::new(vec![StructField::new(
        "a",
        DataType::Primitive(PrimitiveType::Long),
        true,
    )]);
    let expected = StructType::new(vec![
        StructField::new("numRecords", DataType::Primitive(PrimitiveType::Long), true),
        StructField::new(
            "tightBounds",
            DataType::Primitive(PrimitiveType::Boolean),
            true,
        ),
        StructField::new("nullCount", DataType::struct_type(counts), true),
        StructField::new("minValues", DataType::struct_type(minmax.clone()), true),
        StructField::new("maxValues", DataType::struct_type(minmax), true),
    ]);
    assert_eq!(filter.stats_schema(), &expected);
}

#[test]
fn plan_of_a_comparison() {
    let plan = SkippingPlan::new(&table(), &col(&["a"]).lt(lit(5))).unwrap();
    assert_eq!(plan.select_stats.input_schema, get_log_add_schema());
    assert_eq!(plan.select_stats.expression, col(&["add", "stats"]));
    assert_eq!(
        plan.select_stats.output_type,
        DataType::Primitive(PrimitiveType::String)
    );
    assert_eq!(plan.skipping.input_schema, plan.stats_schema);
    assert_eq!(
        plan.skipping.expression,
        Expr::struct_from(vec![col(&["minValues", "a"]).lt(lit(5))])
    );
    assert_eq!(
        plan.skipping.output_type,
        DataType::struct_type(get_predicate_schema())
    );
    assert_eq!(plan.selection.input_schema, get_predicate_schema());
    assert_eq!(
        plan.selection.expression,
        col(&["predicate"]).distinct(Expr::literal(Scalar::Boolean(false)))
    );
    assert_eq!(
        plan.selection.output_type,
        DataType::Primitive(PrimitiveType::Boolean)
    );
}

#[test]
fn plan_drops_the_conjunct_on_an_unknown_column() {
    let predicate = Expr::and(
        col(&["a"]).lt(lit(1)),
        col(&["c"]).gt(Expr::literal(Scalar::String("x".to_string()))),
    );
    let plan = SkippingPlan::new(&table(), &predicate).unwrap();
    assert_eq!(
        plan.skipping.expression,
        Expr::struct_from(vec![col(&["minValues", "a"]).lt(lit(1))])
    );
    assert_eq!(SkippingPlan::new(&table(), &col(&["c"]).lt(lit(1))), None);
}

#[test]
fn schemas_of_the_plan() {
    let add = StructType::new(vec![StructField::new(
        "stats",
        DataType::Primitive(PrimitiveType::String),
        true,
    )]);
    assert_eq!(
        get_log_add_schema(),
        StructType::new(vec![StructField::new(
            "add",
            DataType::struct_type(add),
            true
        )])
    );
    assert_eq!(
        get_predicate_schema(),
        StructType::new(vec![StructField::new(
            "predicate",
            DataType::Primitive(PrimitiveType::Boolean),
            true
        )])
    );
    assert_eq!(
        get_selection_schema(),
        StructType::new(vec![StructField::new(
            "output",
            DataType::Primitive(PrimitiveType::Boolean),
            false
        )])
    );
}

#[test]
fn engine_error_is_handed_on() {
    for step in 0..3 {
        let engine = TestEngine::new(three_files())
            .with_fault(step, Fault::Fail(format!("step {}", step)));
        let filter =
            DataSkippingFilter::new(&engine, &table(), shared(col(&["a"]).eq(lit(5)))).unwrap();
        assert_eq!(
            filter.apply(&actions(&["file1"])),
            Err(Error::SchemaMismatch(format!("step {}", step)))
        );
    }
    let engine = TestEngine::new(three_files()).with_fault(3, Fault::Fail("json".to_string()));
    let filter =
        DataSkippingFilter::new(&engine, &table(), shared(col(&["a"]).eq(lit(5)))).unwrap();
    assert_eq!(
        filter.apply(&actions(&["file1"])),
        Err(Error::Engine("json".to_string()))
    );
}

#[test]
fn length_mismatch_names_the_stage() {
    let stages = [
        (0, Stage::SelectStats),
        (3, Stage::ParseStats),
        (1, Stage::Skipping),
        (2, Stage::Selection),
    ];
    for (step, stage) in stages {
        let engine = TestEngine::new(three_files()).with_fault(step, Fault::DropLastRow);
        let filter =
            DataSkippingFilter::new(&engine, &table(), shared(col(&["a"]).eq(lit(5)))).unwrap();
        assert_eq!(
            filter.apply(&actions(&["file1", "file2"])),
            Err(Error::LengthMismatch {
                stage,
                expected: 2,
                actual: 1
            })
        );
    }
}

#[test]
fn check_len_compares() {
    assert_eq!(check_len(Stage::Skipping, 3, 3), Ok(()));
    assert_eq!(
        check_len(Stage::Skipping, 3, 2),
        Err(Error::LengthMismatch {
            stage: Stage::Skipping,
            expected: 3,
            actual: 2
        })
    );
    assert_eq!(check_len(Stage::SelectStats, 0, 0), Ok(()));
}

#[test]
fn finish_selection_decides() {
    let mut visitor = SelectionVectorVisitor::new();
    visitor.visit(&vec![Some(true), Some(false)]).unwrap();
    assert_eq!(finish_selection(2, Ok(visitor)), Ok(vec![true, false]));
    let mut visitor = SelectionVectorVisitor::new();
    visitor.visit(&vec![Some(true)]).unwrap();
    assert_eq!(
        finish_selection(2, Ok(visitor)),
        Err(Error::LengthMismatch {
            stage: Stage::Extraction,
            expected: 2,
            actual: 1
        })
    );
    assert_eq!(
        finish_selection(0, Err(Error::MissingSelection { row: 0 })),
        Err(Error::MissingSelection { row: 0 })
    );
    assert_eq!(
        finish_selection(0, Ok(SelectionVectorVisitor::default())),
        Ok(vec![])
    );
}

#[test]
fn visitor_collects_in_order() {
    let mut visitor = SelectionVectorVisitor::new();
    assert_eq!(visitor.selection_vector, Vec::<bool>::new());
    assert_eq!(visitor.visit_row(Some(true)), Ok(()));
    assert_eq!(visitor.visit(&vec![Some(false), Some(true)]), Ok(()));
    assert_eq!(visitor.selection_vector, vec![true, false, true]);
}

#[test]
fn visitor_stops_at_a_null() {
    let mut visitor = SelectionVectorVisitor::new();
    assert_eq!(
        visitor.visit(&vec![Some(false), None, Some(true)]),
        Err(Error::MissingSelection { row: 1 })
    );
    assert_eq!(visitor.selection_vector, vec![false]);
    assert_eq!(
        visitor.visit_row(None),
        Err(Error::MissingSelection { row: 1 })
    );
    assert_eq!(visitor.selection_vector, vec![false]);
}

#[test]
fn null_in_the_selection_is_an_error() {
    let batch = Batch(vec![
        Row::new(vec![(name(&["output"]), Scalar::Boolean(true))]),
        Row::new(vec![(name(&["output"]), Scalar::Null)]),
    ]);
    let extracted = batch.extract(get_selection_schema(), SelectionVectorVisitor::new());
    assert_eq!(
        finish_selection(2, extracted),
        Err(Error::MissingSelection { row: 1 })
    );
    let engine = TestEngine::new(vec![(
        "odd".to_string(),
        Row::new(vec![(name(&["minValues", "a"]), Scalar::Boolean(true))]),
    )]);
    let filter =
        DataSkippingFilter::new(&engine, &table(), shared(col(&["a"]).lt(lit(5)))).unwrap();
    assert_eq!(filter.apply(&actions(&["odd"])), Ok(vec![true]));
}
