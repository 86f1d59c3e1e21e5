//! The rewrite of a predicate over the columns of a table into a predicate
//! over the statistics of a data file.
//!
//! The statistics record of a file holds `numRecords`, `tightBounds` and,
//! for each column, `nullCount`, `minValues` and `maxValues`. The rewritten
//! predicate is evaluated on that record, and a file is skipped where it is
//! FALSE. Where the statistics cannot decide a predicate there is no
//! rewritten predicate (`None`), which stands for "keep the file".

use vstd::prelude::*;
use crate::expressions::{lemma_view_of_operands, views, ColumnName, ColumnPath, Expr, ExprView};
use crate::operators::{BinaryOperator, UnaryOperator, VariadicOperator};
use crate::scalars::{Datum, Scalar};
use crate::schema::{has_field_of_type, has_primitive_field, FieldView, StructType};

verus! {

/// The statistics that a rewrite may use.
pub ghost enum Scope {
    /// Every column has statistics, of the type of whatever it is compared
    /// with.
    AllColumns,
    /// Only the top-level primitive fields of this record type have
    /// statistics.
    Fields(Seq<FieldView>),
}

impl Scope {
    /// Whether minimum and maximum of `column` are kept, in the type of
    /// `value`.
    pub open spec fn admits_comparison(self, column: ColumnPath, value: Datum) -> bool {
        match self {
            Scope::AllColumns => true,
            Scope::Fields(fields) => column.len() == 1 && (value.data_type() matches Some(t)
                && has_field_of_type(fields, column[0], t)),
        }
    }

    /// Whether the number of NULLs in `column` is kept.
    pub open spec fn admits_null_test(self, column: ColumnPath) -> bool {
        match self {
            Scope::AllColumns => true,
            Scope::Fields(fields) => column.len() == 1 && has_primitive_field(fields, column[0]),
        }
    }
}

/// The scope that a record type stands for; without one, every column.
pub open spec fn scope_of(schema: Option<&StructType>) -> Scope {
    match schema {
        Some(schema) => Scope::Fields(schema@),
        None => Scope::AllColumns,
    }
}

/// The statistic `group` of the column `column`.
pub open spec fn stats_column(group: Seq<char>, column: ColumnPath) -> ExprView {
    ExprView::Column(seq![group] + column)
}

/// The top-level column `name`.
pub open spec fn top_column(name: Seq<char>) -> ExprView {
    ExprView::Column(seq![name])
}

/// The literal `false`.
pub open spec fn literal_false() -> ExprView {
    ExprView::Literal(Datum::Boolean(false))
}

/// `tightBounds` is not FALSE, and the column holds a NULL: `null_count > 0`.
pub open spec fn tight_null(null_count: ExprView) -> ExprView {
    ExprView::and_from(
        seq![
            ExprView::binary(BinaryOperator::Distinct, top_column("tightBounds"@), literal_false()),
            ExprView::binary(
                BinaryOperator::GreaterThan,
                null_count,
                ExprView::Literal(Datum::Long(0)),
            ),
        ],
    )
}

/// `tightBounds` is FALSE, and the whole column is NULL:
/// `numRecords = null_count`.
pub open spec fn wide_null(null_count: ExprView) -> ExprView {
    ExprView::and_from(
        seq![
            ExprView::binary(BinaryOperator::Equal, top_column("tightBounds"@), literal_false()),
            ExprView::binary(BinaryOperator::Equal, top_column("numRecords"@), null_count),
        ],
    )
}

/// `tightBounds` is not FALSE, and the column holds a value:
/// `null_count < numRecords`.
pub open spec fn tight_not_null(null_count: ExprView) -> ExprView {
    ExprView::and_from(
        seq![
            ExprView::binary(BinaryOperator::Distinct, top_column("tightBounds"@), literal_false()),
            ExprView::binary(BinaryOperator::LessThan, null_count, top_column("numRecords"@)),
        ],
    )
}

/// `tightBounds` is FALSE, and not the whole column is NULL:
/// `numRecords != null_count`.
pub open spec fn wide_not_null(null_count: ExprView) -> ExprView {
    ExprView::and_from(
        seq![
            ExprView::binary(BinaryOperator::Equal, top_column("tightBounds"@), literal_false()),
            ExprView::binary(BinaryOperator::NotEqual, top_column("numRecords"@), null_count),
        ],
    )
}

/// The test on the statistics for "`column` may hold a NULL" or, inverted,
/// for "`column` may hold a value": the tight-bounds test or the wide-bounds
/// test.
pub open spec fn null_predicate(column: ColumnPath, inverted: bool) -> ExprView {
    let null_count = stats_column("nullCount"@, column);
    if inverted {
        ExprView::or_from(seq![tight_not_null(null_count), wide_not_null(null_count)])
    } else {
        ExprView::or_from(seq![tight_null(null_count), wide_null(null_count)])
    }
}

/// The test on the statistics for `column op value`.
pub open spec fn comparison_predicate(
    op: BinaryOperator,
    column: ColumnPath,
    value: Datum,
) -> Option<ExprView> {
    let min = stats_column("minValues"@, column);
    let max = stats_column("maxValues"@, column);
    let literal = ExprView::Literal(value);
    match op {
        BinaryOperator::LessThan | BinaryOperator::LessThanOrEqual => Some(
            ExprView::binary(op, min, literal),
        ),
        BinaryOperator::GreaterThan | BinaryOperator::GreaterThanOrEqual => Some(
            ExprView::binary(op, max, literal),
        ),
        BinaryOperator::Equal => Some(
            ExprView::and_from(
                seq![
                    ExprView::binary(BinaryOperator::LessThanOrEqual, min, literal),
                    ExprView::binary(BinaryOperator::GreaterThanOrEqual, max, literal),
                ],
            ),
        ),
        BinaryOperator::NotEqual => Some(
            ExprView::or_from(
                seq![
                    ExprView::binary(BinaryOperator::GreaterThan, min, literal),
                    ExprView::binary(BinaryOperator::LessThan, max, literal),
                ],
            ),
        ),
        _ => None,
    }
}

/// `left op right` as a comparison of a column with a literal, the column
/// first: the operator is commuted where the literal stands first. `None`
/// where the operands are not one column and one literal, or the operator
/// cannot be commuted.
pub open spec fn normalized(op: BinaryOperator, left: ExprView, right: ExprView) -> Option<
    (BinaryOperator, ColumnPath, Datum),
> {
    match (left, right) {
        (ExprView::Column(column), ExprView::Literal(value)) => Some((op, column, value)),
        (ExprView::Literal(value), ExprView::Column(column)) => match op.commuted() {
            Some(commuted) => Some((commuted, column, value)),
            None => None,
        },
        _ => None,
    }
}

/// The test on the statistics for `left op right`.
pub open spec fn binary_predicate(
    op: BinaryOperator,
    left: ExprView,
    right: ExprView,
    scope: Scope,
) -> Option<ExprView> {
    match normalized(op, left, right) {
        Some((op, column, value)) => if scope.admits_comparison(column, value) {
            comparison_predicate(op, column, value)
        } else {
            None
        },
        None => None,
    }
}

/// The rewritten operands that there are, in order.
pub open spec fn survivors(parts: Seq<Option<ExprView>>) -> Seq<ExprView>
    decreases parts.len(),
{
    if parts.len() == 0 {
        Seq::empty()
    } else {
        match parts.last() {
            Some(e) => survivors(parts.drop_last()).push(e),
            None => survivors(parts.drop_last()),
        }
    }
}

/// Whether every operand has been rewritten.
pub open spec fn all_rewritten(parts: Seq<Option<ExprView>>) -> bool {
    forall|i: int| 0 <= i < parts.len() ==> (#[trigger] parts[i]) is Some
}

/// The conjunction of rewritten operands: an operand without a rewrite is
/// dropped. With no operand left there is no rewrite; a single one is the
/// conjunction itself.
pub open spec fn conjunction(parts: Seq<Option<ExprView>>) -> Option<ExprView> {
    let kept = survivors(parts);
    if kept.len() == 0 {
        None
    } else if kept.len() == 1 {
        Some(kept[0])
    } else {
        Some(ExprView::and_from(kept))
    }
}

/// The disjunction of rewritten operands: one operand without a rewrite
/// leaves the disjunction without one.
pub open spec fn disjunction(parts: Seq<Option<ExprView>>) -> Option<ExprView> {
    if all_rewritten(parts) {
        Some(ExprView::or_from(survivors(parts)))
    } else {
        None
    }
}

/// The operands joined by `op`.
pub open spec fn junction(op: VariadicOperator, parts: Seq<Option<ExprView>>) -> Option<ExprView> {
    match op {
        VariadicOperator::And => conjunction(parts),
        VariadicOperator::Or => disjunction(parts),
    }
}

/// The predicate over a file's statistics that `e` is rewritten to or, where
/// `inverted`, that `NOT e` is rewritten to; `None` where the statistics in
/// `scope` cannot decide it.
pub open spec fn skipping_predicate(e: ExprView, inverted: bool, scope: Scope) -> Option<ExprView>
    decreases e,
{
    match e {
        ExprView::Unary { op: UnaryOperator::Not, expr } => skipping_predicate(
            *expr,
            !inverted,
            scope,
        ),
        ExprView::Unary { op: UnaryOperator::IsNull, expr } => match *expr {
            ExprView::Column(column) => if scope.admits_null_test(column) {
                Some(null_predicate(column, inverted))
            } else {
                None
            },
            _ => None,
        },
        ExprView::Binary { op, left, right } => {
            let op = if inverted {
                op.inverted()
            } else {
                Some(op)
            };
            match op {
                Some(op) => binary_predicate(op, *left, *right, scope),
                None => None,
            }
        },
        ExprView::Variadic { op, exprs } => junction(
            if inverted {
                op.inverted()
            } else {
                op
            },
            skipping_predicates(exprs, inverted, scope),
        ),
        _ => None,
    }
}

/// The rewrite of each operand, in order.
pub open spec fn skipping_predicates(exprs: Seq<ExprView>, inverted: bool, scope: Scope) -> Seq<
    Option<ExprView>,
>
    decreases exprs,
{
    if exprs.len() == 0 {
        Seq::empty()
    } else {
        skipping_predicates(exprs.drop_last(), inverted, scope).push(
            skipping_predicate(exprs.last(), inverted, scope),
        )
    }
}

/// The rewrites of the operands are as many as the operands, and each is the
/// rewrite of the operand at its place.
pub proof fn lemma_skipping_predicates(exprs: Seq<ExprView>, inverted: bool, scope: Scope)
    ensures
        skipping_predicates(exprs, inverted, scope).len() == exprs.len(),
        forall|i: int|
            0 <= i < exprs.len() ==> (#[trigger] skipping_predicates(exprs, inverted, scope)[i])
                == skipping_predicate(exprs[i], inverted, scope),
    decreases exprs.len(),
{
    if exprs.len() > 0 {
        lemma_skipping_predicates(exprs.drop_last(), inverted, scope);
    }
}

/// The view of a rewrite.
pub open spec fn rewritten(r: Option<Expr>) -> Option<ExprView> {
    match r {
        Some(e) => Some(e@),
        None => None,
    }
}

/// The top-level column `name`.
pub fn top_column_expr(name: &str) -> (r: Expr)
    ensures
        r@ == top_column(name@),
{
    Expr::column(ColumnName::single(name))
}

/// The statistic `group` of `column`.
pub fn stats_column_expr(group: &str, column: &ColumnName) -> (r: Expr)
    ensures
        r@ == stats_column(group@, column@),
{
    Expr::column(ColumnName::single(group).join(column))
}

/// The test for "the column may hold a NULL" where the bounds are tight:
/// `tightBounds` is TRUE or NULL, and `null_col > 0`.
pub fn get_tight_null_expr(null_col: Expr) -> (r: Expr)
    ensures
        r@ == tight_null(null_col@),
{
    Expr::and(
        Expr::distinct(top_column_expr("tightBounds"), Expr::literal(Scalar::Boolean(false))),
        Expr::gt(null_col, Expr::literal(Scalar::Long(0))),
    )
}

/// The test for "the column may hold a NULL" where the bounds are wide:
/// `tightBounds` is FALSE, and the whole column is NULL.
pub fn get_wide_null_expr(null_col: Expr) -> (r: Expr)
    ensures
        r@ == wide_null(null_col@),
{
    Expr::and(
        Expr::eq(top_column_expr("tightBounds"), Expr::literal(Scalar::Boolean(false))),
        Expr::eq(top_column_expr("numRecords"), null_col),
    )
}

/// The test for "the column may hold a value" where the bounds are tight:
/// `tightBounds` is TRUE or NULL, and `null_col < numRecords`.
pub fn get_tight_not_null_expr(null_col: Expr) -> (r: Expr)
    ensures
        r@ == tight_not_null(null_col@),
{
    Expr::and(
        Expr::distinct(top_column_expr("tightBounds"), Expr::literal(Scalar::Boolean(false))),
        Expr::lt(null_col, top_column_expr("numRecords")),
    )
}

/// The test for "the column may hold a value" where the bounds are wide:
/// `tightBounds` is FALSE, and not the whole column is NULL.
pub fn get_wide_not_null_expr(null_col: Expr) -> (r: Expr)
    ensures
        r@ == wide_not_null(null_col@),
{
    Expr::and(
        Expr::eq(top_column_expr("tightBounds"), Expr::literal(Scalar::Boolean(false))),
        Expr::ne(top_column_expr("numRecords"), null_col),
    )
}

/// The test on the statistics for "`column` may hold a NULL" or, inverted,
/// "`column` may hold a value".
pub fn null_predicate_expr(column: &ColumnName, inverted: bool) -> (r: Expr)
    ensures
        r@ == null_predicate(column@, inverted),
{
    let null_col = stats_column_expr("nullCount", column);
    if inverted {
        Expr::or(get_tight_not_null_expr(null_col.clone()), get_wide_not_null_expr(null_col))
    } else {
        Expr::or(get_tight_null_expr(null_col.clone()), get_wide_null_expr(null_col))
    }
}

/// Whether the statistics in `scope` hold minimum and maximum of `column` in
/// the type of `value`.
pub fn admits_comparison(scope: Option<&StructType>, column: &ColumnName, value: &Scalar) -> (r:
    bool)
    ensures
        r == scope_of(scope).admits_comparison(column@, value@),
{
    match scope {
        None => true,
        Some(schema) => {
            if column.path.len() != 1 {
                return false;
            }
            match value.data_type() {
                Some(t) => schema.has_field_of_type(&column.path[0], t),
                None => false,
            }
        },
    }
}

/// Whether the statistics in `scope` hold the number of NULLs in `column`.
pub fn admits_null_test(scope: Option<&StructType>, column: &ColumnName) -> (r: bool)
    ensures
        r == scope_of(scope).admits_null_test(column@),
{
    match scope {
        None => true,
        Some(schema) => {
            if column.path.len() != 1 {
                return false;
            }
            schema.has_primitive_field(&column.path[0])
        },
    }
}

/// Rewrites `column op value` in terms of the minimum and maximum of
/// `column`.
pub fn rewrite_comparison(op: BinaryOperator, column: &ColumnName, value: &Scalar) -> (r: Option<
    Expr,
>)
    ensures
        rewritten(r) == comparison_predicate(op, column@, value@),
{
    match op {
        BinaryOperator::LessThan | BinaryOperator::LessThanOrEqual => Some(
            Expr::binary(op, stats_column_expr("minValues", column), Expr::literal(value.clone())),
        ),
        BinaryOperator::GreaterThan | BinaryOperator::GreaterThanOrEqual => Some(
            Expr::binary(op, stats_column_expr("maxValues", column), Expr::literal(value.clone())),
        ),
        BinaryOperator::Equal => Some(
            Expr::and(
                Expr::le(stats_column_expr("minValues", column), Expr::literal(value.clone())),
                Expr::ge(stats_column_expr("maxValues", column), Expr::literal(value.clone())),
            ),
        ),
        BinaryOperator::NotEqual => Some(
            Expr::or(
                Expr::gt(stats_column_expr("minValues", column), Expr::literal(value.clone())),
                Expr::lt(stats_column_expr("maxValues", column), Expr::literal(value.clone())),
            ),
        ),
        _ => None,
    }
}

/// Rewrites `left op right`: the operands are brought into the order column,
/// literal, and the comparison is rewritten where the statistics in `scope`
/// cover it.
pub fn rewrite_binary(
    op: BinaryOperator,
    left: &Expr,
    right: &Expr,
    scope: Option<&StructType>,
) -> (r: Option<Expr>)
    ensures
        rewritten(r) == binary_predicate(op, left@, right@, scope_of(scope)),
{
    match (left, right) {
        (Expr::Column(column), Expr::Literal(value)) => {
            if admits_comparison(scope, column, value) {
                rewrite_comparison(op, column, value)
            } else {
                None
            }
        },
        (Expr::Literal(value), Expr::Column(column)) => {
            match op.commute() {
                Some(commuted) => {
                    if admits_comparison(scope, column, value) {
                        rewrite_comparison(commuted, column, value)
                    } else {
                        None
                    }
                },
                None => None,
            }
        },
        _ => None,
    }
}

/// The conjunction of the operands that were rewritten.
pub fn join_conjuncts(kept: Vec<Expr>) -> (r: Option<Expr>)
    ensures
        kept.len() == 0 ==> r is None,
        kept.len() == 1 ==> rewritten(r) == Some(kept@[0]@),
        kept.len() > 1 ==> rewritten(r) == Some(ExprView::and_from(views(kept@))),
{
    if kept.len() == 0 {
        None
    } else if kept.len() == 1 {
        let mut kept = kept;
        kept.pop()
    } else {
        Some(Expr::and_from(kept))
    }
}

/// The disjunction of the operands, where all of them were rewritten.
pub fn join_disjuncts(kept: Vec<Expr>, complete: bool) -> (r: Option<Expr>)
    ensures
        rewritten(r) == if complete {
            Some(ExprView::or_from(views(kept@)))
        } else {
            None
        },
{
    if complete {
        Some(Expr::or_from(kept))
    } else {
        None
    }
}

/// Rewrites a predicate over the columns of a table into one over the
/// statistics of a file, using the statistics of every column.
pub fn as_data_skipping_predicate(expr: &Expr) -> (r: Option<Expr>)
    ensures
        rewritten(r) == skipping_predicate(expr@, false, Scope::AllColumns),
{
    as_data_skipping_predicate_in(expr, None)
}

/// Rewrites the negation of a predicate, using the statistics of every
/// column.
pub fn as_inverted_data_skipping_predicate(expr: &Expr) -> (r: Option<Expr>)
    ensures
        rewritten(r) == skipping_predicate(expr@, true, Scope::AllColumns),
{
    as_inverted_data_skipping_predicate_in(expr, None)
}

/// Rewrites a predicate over the columns of a table into one over the
/// statistics of a file. With a record type as `scope`, only its top-level
/// primitive fields have statistics, and a comparison is rewritten only with
/// a literal of the field's type.
///
/// A comparison of a column with a literal becomes a comparison of the
/// column's minimum or maximum with the literal. `NOT` is pushed down to the
/// comparisons. `IS NULL` becomes a test on the number of NULLs. `AND` keeps
/// the operands that can be rewritten; `OR` is rewritten only if all of its
/// operands can.
pub fn as_data_skipping_predicate_in(expr: &Expr, scope: Option<&StructType>) -> (r: Option<Expr>)
    ensures
        rewritten(r) == skipping_predicate(expr@, false, scope_of(scope)),
    decreases expr,
{
    proof {
        lemma_view_of_operands(*expr);
    }
    match expr {
        Expr::BinaryOperation { op, left, right } => rewrite_binary(*op, left, right, scope),
        Expr::UnaryOperation { op: UnaryOperator::Not, expr: inner } => {
            as_inverted_data_skipping_predicate_in(inner, scope)
        },
        Expr::UnaryOperation { op: UnaryOperator::IsNull, expr: inner } => {
            match &**inner {
                Expr::Column(column) => {
                    if admits_null_test(scope, column) {
                        Some(null_predicate_expr(column, false))
                    } else {
                        None
                    }
                },
                _ => None,
            }
        },
        Expr::VariadicOperation { op, exprs } => {
            let (kept, complete) = rewrite_all(exprs, false, scope);
            match op {
                VariadicOperator::And => join_conjuncts(kept),
                VariadicOperator::Or => join_disjuncts(kept, complete),
            }
        },
        _ => None,
    }
}

/// Rewrites the negation of a predicate: the negation is pushed down by De
/// Morgan's laws. A double negation is dropped, a comparison is replaced by
/// the inverted comparison, and a connective by its dual over the negated
/// operands.
pub fn as_inverted_data_skipping_predicate_in(expr: &Expr, scope: Option<&StructType>) -> (r:
    Option<Expr>)
    ensures
        rewritten(r) == skipping_predicate(expr@, true, scope_of(scope)),
    decreases expr,
{
    proof {
        lemma_view_of_operands(*expr);
    }
    match expr {
        Expr::UnaryOperation { op: UnaryOperator::Not, expr: inner } => {
            as_data_skipping_predicate_in(inner, scope)
        },
        Expr::UnaryOperation { op: UnaryOperator::IsNull, expr: inner } => {
            match &**inner {
                Expr::Column(column) => {
                    if admits_null_test(scope, column) {
                        Some(null_predicate_expr(column, true))
                    } else {
                        None
                    }
                },
                _ => None,
            }
        },
        Expr::BinaryOperation { op, left, right } => {
            match op.invert() {
                Some(inverted) => rewrite_binary(inverted, left, right, scope),
                None => None,
            }
        },
        Expr::VariadicOperation { op, exprs } => {
            let (kept, complete) = rewrite_all(exprs, true, scope);
            match op.invert() {
                VariadicOperator::And => join_conjuncts(kept),
                VariadicOperator::Or => join_disjuncts(kept, complete),
            }
        },
        _ => None,
    }
}

/// Rewrites each operand, or its negation where `inverted`: the rewritten
/// operands in order, and whether every operand was rewritten.
pub fn rewrite_all(exprs: &Vec<Expr>, inverted: bool, scope: Option<&StructType>) -> (r: (
    Vec<Expr>,
    bool,
))
    ensures
        views(r.0@) == survivors(skipping_predicates(views(exprs@), inverted, scope_of(scope))),
        r.1 == all_rewritten(skipping_predicates(views(exprs@), inverted, scope_of(scope))),
    decreases exprs,
{
    let ghost parts = skipping_predicates(views(exprs@), inverted, scope_of(scope));
    proof {
        lemma_skipping_predicates(views(exprs@), inverted, scope_of(scope));
    }
    let mut kept: Vec<Expr> = Vec::new();
    let mut complete = true;
    let mut k: usize = 0;
    assert(views(kept@) =~= survivors(parts.take(0)));
    while k < exprs.len()
        invariant
            k <= exprs.len(),
            parts.len() == exprs.len(),
            parts == skipping_predicates(views(exprs@), inverted, scope_of(scope)),
            forall|i: int|
                0 <= i < exprs.len() ==> (#[trigger] parts[i]) == skipping_predicate(
                    exprs[i]@,
                    inverted,
                    scope_of(scope),
                ),
            views(kept@) == survivors(parts.take(k as int)),
            complete == all_rewritten(parts.take(k as int)),
        decreases exprs.len() - k,
    {
        let part = if inverted {
            as_inverted_data_skipping_predicate_in(&exprs[k], scope)
        } else {
            as_data_skipping_predicate_in(&exprs[k], scope)
        };
        proof {
            assert(rewritten(part) == parts[k as int]);
            assert(parts.take(k + 1).drop_last() =~= parts.take(k as int));
            assert(parts.take(k + 1).last() == parts[k as int]);
            if all_rewritten(parts.take(k + 1)) {
                assert forall|i: int| 0 <= i < k implies (#[trigger] parts.take(k as int)[i])
                    is Some by {
                    assert(parts.take(k + 1)[i] is Some);
                }
                assert(parts.take(k + 1)[k as int] is Some);
            }
        }
        match part {
            Some(e) => {
                kept.push(e);
                assert(views(kept@) =~= survivors(parts.take(k + 1)));
            },
            None => {
                complete = false;
            },
        }
        k = k + 1;
    }
    assert(parts.take(k as int) =~= parts);
    (kept, complete)
}

} // verus!
