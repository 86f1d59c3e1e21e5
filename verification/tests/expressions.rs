use data_skipping::expressions::{ColumnName, Expr, SharedExpression};
use data_skipping::operators::BinaryOperator::{
    Distinct, Divide, Equal, GreaterThan, GreaterThanOrEqual, In, LessThan, LessThanOrEqual, Minus,
    Multiply, NotEqual, NotIn, Plus,
};
use data_skipping::operators::{BinaryOperator, UnaryOperator, VariadicOperator};
use data_skipping::scalars::{PrimitiveType, Scalar};

fn name(path: &[&str]) -> ColumnName {
    ColumnName::new(path.iter().map(|s| s.to_string()).collect())
}

fn col(path: &[&str]) -> Expr {
    Expr::column(name(path))
}

fn lit(value: i32) -> Expr {
    Expr::literal(Scalar::Integer(value))
}

#[test]
fn commute_swaps_the_operands() {
    assert_eq!(LessThan.commute(), Some(GreaterThan));
    assert_eq!(GreaterThan.commute(), Some(LessThan));
    assert_eq!(LessThanOrEqual.commute(), Some(GreaterThanOrEqual));
    assert_eq!(GreaterThanOrEqual.commute(), Some(LessThanOrEqual));
    assert_eq!(Equal.commute(), Some(Equal));
    assert_eq!(NotEqual.commute(), Some(NotEqual));
    assert_eq!(Distinct.commute(), Some(Distinct));
    assert_eq!(Plus.commute(), Some(Plus));
    assert_eq!(Multiply.commute(), Some(Multiply));
    assert_eq!(Minus.commute(), None);
    assert_eq!(Divide.commute(), None);
    assert_eq!(In.commute(), None);
    assert_eq!(NotIn.commute(), None);
}

#[test]
fn invert_negates_the_operator() {
    assert_eq!(LessThan.invert(), Some(GreaterThanOrEqual));
    assert_eq!(GreaterThanOrEqual.invert(), Some(LessThan));
    assert_eq!(LessThanOrEqual.invert(), Some(GreaterThan));
    assert_eq!(GreaterThan.invert(), Some(LessThanOrEqual));
    assert_eq!(Equal.invert(), Some(NotEqual));
    assert_eq!(NotEqual.invert(), Some(Equal));
    assert_eq!(In.invert(), Some(NotIn));
    assert_eq!(NotIn.invert(), Some(In));
    assert_eq!(Distinct.invert(), None);
    assert_eq!(Plus.invert(), None);
    assert_eq!(Minus.invert(), None);
    assert_eq!(Multiply.invert(), None);
    assert_eq!(Divide.invert(), None);
}

#[test]
fn connectives_are_dual() {
    assert_eq!(VariadicOperator::And.invert(), VariadicOperator::Or);
    assert_eq!(VariadicOperator::Or.invert(), VariadicOperator::And);
}

#[test]
fn involutions() {
    let ops = [
        BinaryOperator::Plus,
        BinaryOperator::Minus,
        BinaryOperator::Multiply,
        BinaryOperator::Divide,
        BinaryOperator::LessThan,
        BinaryOperator::LessThanOrEqual,
        BinaryOperator::GreaterThan,
        BinaryOperator::GreaterThanOrEqual,
        BinaryOperator::Equal,
        BinaryOperator::NotEqual,
        BinaryOperator::Distinct,
        BinaryOperator::In,
        BinaryOperator::NotIn,
    ];
    for op in ops {
        if let Some(c) = op.commute() {
            assert_eq!(c.commute(), Some(op));
        }
        if let Some(n) = op.invert() {
            assert_eq!(n.invert(), Some(op));
        }
    }
}

#[test]
fn constructors_build_the_variants() {
    assert_eq!(lit(1), Expr::Literal(Scalar::Integer(1)));
    assert_eq!(col(&["a"]), Expr::Column(name(&["a"])));
    assert_eq!(
        col(&["a"]).lt(lit(1)),
        Expr::BinaryOperation {
            op: BinaryOperator::LessThan,
            left: Box::new(col(&["a"])),
            right: Box::new(lit(1)),
        }
    );
    assert_eq!(col(&["a"]).le(lit(1)), col(&["a"]).lt_eq(lit(1)));
    assert_eq!(col(&["a"]).ge(lit(1)), col(&["a"]).gt_eq(lit(1)));
    assert_eq!(
        col(&["a"]).gt(lit(1)),
        Expr::binary(BinaryOperator::GreaterThan, col(&["a"]), lit(1))
    );
    assert_eq!(
        col(&["a"]).eq(lit(1)),
        Expr::binary(BinaryOperator::Equal, col(&["a"]), lit(1))
    );
    assert_eq!(
        col(&["a"]).ne(lit(1)),
        Expr::binary(BinaryOperator::NotEqual, col(&["a"]), lit(1))
    );
    assert_eq!(
        col(&["a"]).distinct(lit(1)),
        Expr::binary(BinaryOperator::Distinct, col(&["a"]), lit(1))
    );
    assert_eq!(
        col(&["a"]).not(),
        Expr::UnaryOperation {
            op: UnaryOperator::Not,
            expr: Box::new(col(&["a"])),
        }
    );
    assert_eq!(
        col(&["a"]).is_null(),
        Expr::unary(UnaryOperator::IsNull, col(&["a"]))
    );
    assert_eq!(
        Expr::and(col(&["a"]), col(&["b"])),
        Expr::VariadicOperation {
            op: VariadicOperator::And,
            exprs: vec![col(&["a"]), col(&["b"])],
        }
    );
    assert_eq!(
        Expr::or(col(&["a"]), col(&["b"])),
        Expr::variadic(VariadicOperator::Or, vec![col(&["a"]), col(&["b"])])
    );
    assert_eq!(
        Expr::and_from(vec![]),
        Expr::variadic(VariadicOperator::And, vec![])
    );
    assert_eq!(
        Expr::or_from(vec![lit(1)]),
        Expr::variadic(VariadicOperator::Or, vec![lit(1)])
    );
    assert_eq!(
        Expr::struct_from(vec![lit(1), lit(2)]),
        Expr::Struct(vec![lit(1), lit(2)])
    );
}

#[test]
fn equality_is_structural() {
    assert_eq!(col(&["a"]).lt(lit(1)), col(&["a"]).lt(lit(1)));
    assert_ne!(col(&["a"]).lt(lit(1)), col(&["a"]).lt(lit(2)));
    assert_ne!(col(&["a"]).lt(lit(1)), col(&["b"]).lt(lit(1)));
    assert_ne!(col(&["a"]).lt(lit(1)), col(&["a"]).le(lit(1)));
    assert_ne!(col(&["a"]).lt(lit(1)), lit(1).lt(col(&["a"])));
    assert_ne!(col(&["a"]), col(&["a", "b"]));
    assert_ne!(col(&["a", "b"]), col(&["a", "c"]));
    assert_ne!(lit(1), Expr::literal(Scalar::Long(1)));
    assert_ne!(lit(1), col(&["a"]));
    assert_ne!(col(&["a"]).not(), col(&["a"]).is_null());
    assert_ne!(
        Expr::and(col(&["a"]), col(&["b"])),
        Expr::or(col(&["a"]), col(&["b"]))
    );
    assert_ne!(
        Expr::and(col(&["a"]), col(&["b"])),
        Expr::and(col(&["b"]), col(&["a"]))
    );
    assert_ne!(
        Expr::and_from(vec![col(&["a"])]),
        Expr::and_from(vec![col(&["a"]), col(&["a"])])
    );
    assert_ne!(
        Expr::struct_from(vec![col(&["a"])]),
        Expr::and_from(vec![col(&["a"])])
    );
    assert!(col(&["a"]).same_as(&col(&["a"])));
    assert!(!col(&["a"]).same_as(&col(&["b"])));
}

#[test]
fn scalars_compare_by_type_and_value() {
    assert_eq!(Scalar::Null, Scalar::Null);
    assert_ne!(Scalar::Null, Scalar::Integer(0));
    assert_ne!(Scalar::Integer(1), Scalar::Date(1));
    assert_ne!(Scalar::Timestamp(1), Scalar::TimestampNtz(1));
    assert_eq!(
        Scalar::String("x".to_string()),
        Scalar::String("x".to_string())
    );
    assert_ne!(
        Scalar::String("x".to_string()),
        Scalar::String("y".to_string())
    );
    assert_eq!(Scalar::Binary(vec![1, 2]), Scalar::Binary(vec![1, 2]));
    assert_ne!(Scalar::Binary(vec![1, 2]), Scalar::Binary(vec![1]));
    assert_ne!(Scalar::Binary(vec![1, 2]), Scalar::Binary(vec![1, 3]));
    assert_eq!(Scalar::Boolean(true), Scalar::Boolean(true));
    assert_ne!(Scalar::Byte(1), Scalar::Short(1));
}

#[test]
fn scalar_types() {
    assert_eq!(Scalar::Null.data_type(), None);
    assert_eq!(Scalar::Boolean(true).data_type(), Some(PrimitiveType::Boolean));
    assert_eq!(Scalar::Byte(1).data_type(), Some(PrimitiveType::Byte));
    assert_eq!(Scalar::Short(1).data_type(), Some(PrimitiveType::Short));
    assert_eq!(Scalar::Integer(1).data_type(), Some(PrimitiveType::Integer));
    assert_eq!(Scalar::Long(1).data_type(), Some(PrimitiveType::Long));
    assert_eq!(Scalar::Date(1).data_type(), Some(PrimitiveType::Date));
    assert_eq!(
        Scalar::Timestamp(1).data_type(),
        Some(PrimitiveType::Timestamp)
    );
    assert_eq!(
        Scalar::TimestampNtz(1).data_type(),
        Some(PrimitiveType::TimestampNtz)
    );
    assert_eq!(
        Scalar::String(String::new()).data_type(),
        Some(PrimitiveType::String)
    );
    assert_eq!(Scalar::Binary(vec![]).data_type(), Some(PrimitiveType::Binary));
}

#[test]
fn clone_copies_the_tree() {
    let e = Expr::and_from(vec![
        col(&["a"]).lt(lit(1)),
        Expr::or(col(&["b", "c"]).is_null().not(), lit(3).ge(col(&["d"]))),
        Expr::struct_from(vec![Expr::literal(Scalar::String("x".to_string()))]),
    ]);
    assert_eq!(e.clone(), e);
    assert_eq!(e.duplicate(), e);
    assert_eq!(name(&["a", "b"]).clone(), name(&["a", "b"]));
    assert_eq!(
        Scalar::Binary(vec![1, 2, 3]).clone(),
        Scalar::Binary(vec![1, 2, 3])
    );
}

#[test]
fn column_names_join() {
    assert_eq!(ColumnName::single("a"), name(&["a"]));
    assert_eq!(
        ColumnName::single("minValues").join(&name(&["a", "b"])),
        name(&["minValues", "a", "b"])
    );
    assert_eq!(name(&[]).join(&name(&["a"])), name(&["a"]));
    assert_eq!(name(&["a"]).join(&name(&[])), name(&["a"]));
    assert!(name(&["a", "b"]).same_path(&name(&["a", "b"])));
    assert!(!name(&["a", "b"]).same_path(&name(&["a"])));
}

fn sorted(mut names: Vec<ColumnName>) -> Vec<Vec<String>> {
    let mut paths: Vec<Vec<String>> = names.drain(..).map(|n| n.path).collect();
    paths.sort();
    paths.dedup();
    paths
}

#[test]
fn references_are_the_columns_that_occur() {
    let e = Expr::and_from(vec![
        col(&["a"]).lt(lit(1)),
        Expr::or(col(&["b", "c"]).is_null().not(), lit(3).ge(col(&["a"]))),
        Expr::struct_from(vec![col(&["d"])]),
    ]);
    assert_eq!(
        sorted(e.references()),
        sorted(vec![name(&["a"]), name(&["b", "c"]), name(&["d"])])
    );
    assert_eq!(lit(1).lt(lit(2)).references(), vec![]);
    assert_eq!(col(&["a"]).references(), vec![name(&["a"])]);
    let mut found = vec![name(&["z"])];
    col(&["a"]).eq(col(&["b"])).collect_references(&mut found);
    assert_eq!(found, vec![name(&["z"]), name(&["a"]), name(&["b"])]);
}

#[test]
fn shared_expression_hands_out_the_expression() {
    let e = col(&["a"]).lt(lit(1));
    let shared = SharedExpression::new(e.clone());
    assert_eq!(shared.as_ref(), &e);
    let other = shared.clone();
    assert_eq!(other.as_ref(), &e);
    assert_eq!(shared.as_ref(), other.as_ref());
}
