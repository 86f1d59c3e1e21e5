use data_skipping::expressions::{ColumnName, Expr};
use data_skipping::operators::{BinaryOperator, UnaryOperator};
use data_skipping::scalars::{PrimitiveType, Scalar};
use data_skipping::schema::{DataType, StructField, StructType};
use data_skipping::skipping::{
    as_data_skipping_predicate, as_data_skipping_predicate_in,
    as_inverted_data_skipping_predicate, get_tight_not_null_expr, get_tight_null_expr,
    get_wide_not_null_expr, get_wide_null_expr,
};

fn col(path: &[&str]) -> Expr {
    Expr::column(ColumnName::new(path.iter().map(|s| s.to_string()).collect()))
}

fn lit(value: i32) -> Expr {
    Expr::literal(Scalar::Integer(value))
}

fn long(value: i64) -> Expr {
    Expr::literal(Scalar::Long(value))
}

fn text(value: &str) -> Expr {
    Expr::literal(Scalar::String(value.to_string()))
}

fn lit_false() -> Expr {
    Expr::literal(Scalar::Boolean(false))
}

fn table_a() -> StructType {
    StructType::new(vec![StructField::new(
        "a",
        DataType::Primitive(PrimitiveType::Integer),
        true,
    )])
}

#[test]
fn test_rewrite_basic_comparison() {
    let column = col(&["a"]);
    let lit_int = lit(1);
    let min_col = col(&["minValues", "a"]);
    let max_col = col(&["maxValues", "a"]);

    let cases = [
        (
            column.clone().lt(lit_int.clone()),
            Expr::lt(min_col.clone(), lit_int.clone()),
        ),
        (
            lit_int.clone().lt(column.clone()),
            Expr::gt(max_col.clone(), lit_int.clone()),
        ),
        (
            column.clone().gt(lit_int.clone()),
            Expr::gt(max_col.clone(), lit_int.clone()),
        ),
        (
            lit_int.clone().gt(column.clone()),
            Expr::lt(min_col.clone(), lit_int.clone()),
        ),
        (
            column.clone().lt_eq(lit_int.clone()),
            Expr::le(min_col.clone(), lit_int.clone()),
        ),
        (
            lit_int.clone().lt_eq(column.clone()),
            Expr::ge(max_col.clone(), lit_int.clone()),
        ),
        (
            column.clone().gt_eq(lit_int.clone()),
            Expr::ge(max_col.clone(), lit_int.clone()),
        ),
        (
            lit_int.clone().gt_eq(column.clone()),
            Expr::le(min_col.clone(), lit_int.clone()),
        ),
        (
            column.clone().eq(lit_int.clone()),
            Expr::and_from(vec![
                Expr::le(min_col.clone(), lit_int.clone()),
                Expr::ge(max_col.clone(), lit_int.clone()),
            ]),
        ),
        (
            lit_int.clone().eq(column.clone()),
            Expr::and_from(vec![
                Expr::le(min_col.clone(), lit_int.clone()),
                Expr::ge(max_col.clone(), lit_int.clone()),
            ]),
        ),
        (
            column.clone().ne(lit_int.clone()),
            Expr::or_from(vec![
                Expr::gt(min_col.clone(), lit_int.clone()),
                Expr::lt(max_col.clone(), lit_int.clone()),
            ]),
        ),
        (
            lit_int.clone().ne(column.clone()),
            Expr::or_from(vec![
                Expr::gt(min_col.clone(), lit_int.clone()),
                Expr::lt(max_col.clone(), lit_int.clone()),
            ]),
        ),
    ];

    for (input, expected) in cases {
        let rewritten = as_data_skipping_predicate(&input).unwrap();
        assert_eq!(rewritten, expected)
    }
}

#[test]
fn less_than_uses_the_minimum() {
    assert_eq!(
        as_data_skipping_predicate(&col(&["a"]).lt(lit(1))),
        Some(col(&["minValues", "a"]).lt(lit(1)))
    );
}

#[test]
fn literal_first_is_commuted() {
    assert_eq!(
        as_data_skipping_predicate(&lit(1).lt(col(&["a"]))),
        Some(col(&["maxValues", "a"]).gt(lit(1)))
    );
}

#[test]
fn equality_tests_both_bounds() {
    assert_eq!(
        as_data_skipping_predicate(&col(&["a"]).eq(lit(1))),
        Some(Expr::and(
            col(&["minValues", "a"]).le(lit(1)),
            col(&["maxValues", "a"]).ge(lit(1))
        ))
    );
}

#[test]
fn inequality_tests_either_bound() {
    assert_eq!(
        as_data_skipping_predicate(&col(&["a"]).ne(lit(1))),
        Some(Expr::or(
            col(&["minValues", "a"]).gt(lit(1)),
            col(&["maxValues", "a"]).lt(lit(1))
        ))
    );
}

fn expected_null_test() -> Expr {
    let nc = col(&["nullCount", "a"]);
    Expr::or(
        Expr::and(
            col(&["tightBounds"]).distinct(lit_false()),
            nc.clone().gt(long(0)),
        ),
        Expr::and(
            col(&["tightBounds"]).eq(lit_false()),
            col(&["numRecords"]).eq(nc),
        ),
    )
}

fn expected_not_null_test() -> Expr {
    let nc = col(&["nullCount", "a"]);
    Expr::or(
        Expr::and(
            col(&["tightBounds"]).distinct(lit_false()),
            nc.clone().lt(col(&["numRecords"])),
        ),
        Expr::and(
            col(&["tightBounds"]).eq(lit_false()),
            col(&["numRecords"]).ne(nc),
        ),
    )
}

#[test]
fn is_null_tests_the_null_count() {
    assert_eq!(
        as_data_skipping_predicate(&col(&["a"]).is_null()),
        Some(expected_null_test())
    );
}

#[test]
fn not_is_null_tests_for_a_value() {
    assert_eq!(
        as_data_skipping_predicate(&col(&["a"]).is_null().not()),
        Some(expected_not_null_test())
    );
    assert_eq!(
        as_inverted_data_skipping_predicate(&col(&["a"]).is_null()),
        Some(expected_not_null_test())
    );
}

#[test]
fn is_null_of_anything_but_a_column_is_undecided() {
    assert_eq!(as_data_skipping_predicate(&lit(1).is_null()), None);
    assert_eq!(
        as_data_skipping_predicate(&col(&["a"]).lt(lit(1)).is_null()),
        None
    );
    assert_eq!(as_inverted_data_skipping_predicate(&lit(1).is_null()), None);
}

#[test]
fn null_test_helpers() {
    let nc = col(&["nullCount", "a"]);
    assert_eq!(
        get_tight_null_expr(nc.clone()),
        Expr::and(
            col(&["tightBounds"]).distinct(lit_false()),
            nc.clone().gt(long(0))
        )
    );
    assert_eq!(
        get_wide_null_expr(nc.clone()),
        Expr::and(
            col(&["tightBounds"]).eq(lit_false()),
            col(&["numRecords"]).eq(nc.clone())
        )
    );
    assert_eq!(
        get_tight_not_null_expr(nc.clone()),
        Expr::and(
            col(&["tightBounds"]).distinct(lit_false()),
            nc.clone().lt(col(&["numRecords"]))
        )
    );
    assert_eq!(
        get_wide_not_null_expr(nc.clone()),
        Expr::and(
            col(&["tightBounds"]).eq(lit_false()),
            col(&["numRecords"]).ne(nc)
        )
    );
}

#[test]
fn negated_comparison_is_inverted() {
    assert_eq!(
        as_data_skipping_predicate(&col(&["a"]).lt(lit(1)).not()),
        Some(col(&["maxValues", "a"]).ge(lit(1)))
    );
    assert_eq!(
        as_data_skipping_predicate(&col(&["a"]).ne(lit(1)).not()),
        as_data_skipping_predicate(&col(&["a"]).eq(lit(1)))
    );
    assert_eq!(
        as_inverted_data_skipping_predicate(&col(&["a"]).gt_eq(lit(1))),
        Some(col(&["minValues", "a"]).lt(lit(1)))
    );
}

#[test]
fn negation_without_an_inverse_is_undecided() {
    let sum = Expr::binary(BinaryOperator::Plus, col(&["a"]), lit(1));
    assert_eq!(as_data_skipping_predicate(&sum.clone().not()), None);
    let distinct = col(&["a"]).distinct(lit(1));
    assert_eq!(as_data_skipping_predicate(&distinct.not()), None);
}

#[test]
fn double_negation_is_dropped() {
    let e = col(&["a"]).lt(lit(1));
    assert_eq!(
        as_data_skipping_predicate(&e.clone().not().not()),
        as_data_skipping_predicate(&e)
    );
    let n = col(&["a"]).is_null();
    assert_eq!(
        as_data_skipping_predicate(&n.clone().not().not()),
        as_data_skipping_predicate(&n)
    );
}

#[test]
fn de_morgan_pushes_negation_down() {
    let a = col(&["a"]).lt(lit(1));
    let b = col(&["b"]).gt(lit(2));
    let not_and = Expr::and(a.clone(), b.clone()).not();
    assert_eq!(
        as_data_skipping_predicate(&not_and),
        Some(Expr::or(
            col(&["maxValues", "a"]).ge(lit(1)),
            col(&["minValues", "b"]).le(lit(2))
        ))
    );
    let not_or = Expr::or(a.clone(), b.clone()).not();
    assert_eq!(
        as_data_skipping_predicate(&not_or),
        Some(Expr::and(
            col(&["maxValues", "a"]).ge(lit(1)),
            col(&["minValues", "b"]).le(lit(2))
        ))
    );
    assert_eq!(
        as_data_skipping_predicate(&not_or),
        as_data_skipping_predicate(&Expr::and(a.not(), b.not()))
    );
}

#[test]
fn and_drops_what_cannot_be_decided() {
    let e = col(&["a"]).lt(lit(1));
    let u = col(&["a"]);
    assert_eq!(as_data_skipping_predicate(&u), None);
    assert_eq!(
        as_data_skipping_predicate(&Expr::and(e.clone(), u.clone())),
        as_data_skipping_predicate(&e)
    );
    assert_eq!(
        as_data_skipping_predicate(&Expr::and(u.clone(), e.clone())),
        Some(col(&["minValues", "a"]).lt(lit(1)))
    );
    let three = Expr::and_from(vec![e.clone(), u.clone(), col(&["b"]).gt(lit(2))]);
    assert_eq!(
        as_data_skipping_predicate(&three),
        Some(Expr::and(
            col(&["minValues", "a"]).lt(lit(1)),
            col(&["maxValues", "b"]).gt(lit(2))
        ))
    );
}

#[test]
fn and_without_a_decided_operand_is_undecided() {
    assert_eq!(as_data_skipping_predicate(&Expr::and_from(vec![])), None);
    assert_eq!(
        as_data_skipping_predicate(&Expr::and(col(&["a"]), lit(1))),
        None
    );
}

#[test]
fn or_is_poisoned_by_what_cannot_be_decided() {
    let e = col(&["a"]).lt(lit(1));
    let unknown = Expr::binary(BinaryOperator::In, col(&["a"]), lit(1));
    assert_eq!(as_data_skipping_predicate(&unknown), None);
    assert_eq!(
        as_data_skipping_predicate(&Expr::or(e.clone(), unknown.clone())),
        None
    );
    assert_eq!(as_data_skipping_predicate(&Expr::or(unknown, e)), None);
}

#[test]
fn or_of_decided_operands() {
    let e = Expr::or(col(&["a"]).lt(lit(1)), col(&["b"]).gt(lit(2)));
    assert_eq!(
        as_data_skipping_predicate(&e),
        Some(Expr::or(
            col(&["minValues", "a"]).lt(lit(1)),
            col(&["maxValues", "b"]).gt(lit(2))
        ))
    );
    assert_eq!(
        as_data_skipping_predicate(&Expr::or_from(vec![])),
        Some(Expr::or_from(vec![]))
    );
    assert_eq!(
        as_data_skipping_predicate(&Expr::or_from(vec![col(&["a"]).lt(lit(1))])),
        Some(Expr::or_from(vec![col(&["minValues", "a"]).lt(lit(1))]))
    );
}

#[test]
fn commutation() {
    let ops = [
        BinaryOperator::LessThan,
        BinaryOperator::LessThanOrEqual,
        BinaryOperator::GreaterThan,
        BinaryOperator::GreaterThanOrEqual,
        BinaryOperator::Equal,
        BinaryOperator::NotEqual,
        BinaryOperator::Distinct,
        BinaryOperator::Plus,
        BinaryOperator::Multiply,
    ];
    for op in ops {
        let commuted = op.commute().unwrap();
        assert_eq!(
            as_data_skipping_predicate(&Expr::binary(op, col(&["a"]), lit(1))),
            as_data_skipping_predicate(&Expr::binary(commuted, lit(1), col(&["a"])))
        );
    }
}

#[test]
fn other_shapes_are_undecided() {
    assert_eq!(as_data_skipping_predicate(&col(&["a"])), None);
    assert_eq!(as_data_skipping_predicate(&lit(1)), None);
    assert_eq!(
        as_data_skipping_predicate(&Expr::struct_from(vec![col(&["a"]).lt(lit(1))])),
        None
    );
    assert_eq!(
        as_data_skipping_predicate(&col(&["a"]).lt(col(&["b"]))),
        None
    );
    assert_eq!(as_data_skipping_predicate(&lit(1).lt(lit(2))), None);
    assert_eq!(
        as_data_skipping_predicate(&col(&["a"]).lt(lit(1)).lt(lit(2))),
        None
    );
    assert_eq!(
        as_data_skipping_predicate(&col(&["a"]).distinct(lit(1))),
        None
    );
    assert_eq!(
        as_data_skipping_predicate(&Expr::binary(BinaryOperator::Minus, lit(1), col(&["a"]))),
        None
    );
    assert_eq!(
        as_data_skipping_predicate(&Expr::unary(UnaryOperator::IsNull, lit(1))),
        None
    );
    assert_eq!(as_inverted_data_skipping_predicate(&col(&["a"])), None);
}

#[test]
fn conjunct_on_a_column_without_statistics_is_dropped() {
    let e = Expr::and(col(&["a"]).lt(lit(1)), col(&["b"]).gt(text("x")));
    assert_eq!(
        as_data_skipping_predicate_in(&e, Some(&table_a())),
        Some(col(&["minValues", "a"]).lt(lit(1)))
    );
}

#[test]
fn disjunct_that_cannot_be_decided_suppresses_the_filter() {
    let unknown = Expr::binary(BinaryOperator::In, col(&["a"]), lit(1));
    let e = Expr::or(col(&["a"]).lt(lit(1)), unknown);
    assert_eq!(as_data_skipping_predicate_in(&e, Some(&table_a())), None);
    assert_eq!(as_data_skipping_predicate(&e), None);
}

#[test]
fn literal_of_another_type_is_undecided() {
    let schema = table_a();
    assert_eq!(
        as_data_skipping_predicate_in(&col(&["a"]).lt(text("x")), Some(&schema)),
        None
    );
    assert_eq!(
        as_data_skipping_predicate_in(&col(&["a"]).lt(long(1)), Some(&schema)),
        None
    );
    assert_eq!(
        as_data_skipping_predicate_in(
            &col(&["a"]).lt(Expr::literal(Scalar::Null)),
            Some(&schema)
        ),
        None
    );
    assert_eq!(
        as_data_skipping_predicate_in(&col(&["a"]).lt(lit(1)), Some(&schema)),
        Some(col(&["minValues", "a"]).lt(lit(1)))
    );
}

#[test]
fn nested_column_has_no_statistics() {
    let nested = StructType::new(vec![StructField::new(
        "s",
        DataType::struct_type(table_a()),
        true,
    )]);
    assert_eq!(
        as_data_skipping_predicate_in(&col(&["s", "a"]).lt(lit(1)), Some(&nested)),
        None
    );
    assert_eq!(
        as_data_skipping_predicate_in(&col(&["s"]).is_null(), Some(&nested)),
        None
    );
    assert_eq!(
        as_data_skipping_predicate_in(&col(&["a"]).is_null(), Some(&table_a())),
        Some(expected_null_test())
    );
    assert_eq!(
        as_data_skipping_predicate_in(&col(&["b"]).is_null(), Some(&table_a())),
        None
    );
}

#[test]
fn rewrite_reads_statistics_only() {
    let schema = StructType::new(vec![
        StructField::new("a", DataType::Primitive(PrimitiveType::Integer), true),
        StructField::new("b", DataType::Primitive(PrimitiveType::String), true),
    ]);
    let e = Expr::and_from(vec![
        col(&["a"]).lt(lit(1)),
        Expr::or(col(&["b"]).is_null(), text("x").ge(col(&["b"]))).not(),
        col(&["c"]).eq(lit(3)),
        col(&["a"]).ne(lit(7)),
    ]);
    let rewritten = as_data_skipping_predicate_in(&e, Some(&schema)).unwrap();
    let allowed: Vec<Vec<&str>> = vec![
        vec!["numRecords"],
        vec!["tightBounds"],
        vec!["nullCount", "a"],
        vec!["minValues", "a"],
        vec!["maxValues", "a"],
        vec!["nullCount", "b"],
        vec!["minValues", "b"],
        vec!["maxValues", "b"],
    ];
    let found = rewritten.references();
    assert!(!found.is_empty());
    for reference in found {
        let path: Vec<&str> = reference.path.iter().map(|s| s.as_str()).collect();
        assert!(allowed.contains(&path));
    }
}
