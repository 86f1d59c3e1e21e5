//! What holds of the rewrite whatever the predicate: the rules by which
//! negations, connectives and comparisons are rewritten, stated as equations.

use vstd::prelude::*;
use crate::expressions::{
    any_mentions, lemma_references_of_operands, references_of_first, ColumnPath, ExprView,
};
use crate::operators::{
    lemma_operator_involutions, BinaryOperator, UnaryOperator, VariadicOperator,
};
use crate::scalars::Datum;
use crate::filter::skipping_plan;
use crate::schema::{
    has_primitive_field, referenced_fields, stats_fields, FieldView, TypeView,
};
use crate::skipping::{
    all_rewritten, comparison_predicate, lemma_skipping_predicates, normalized, null_predicate,
    skipping_predicate, skipping_predicates, survivors, Scope,
};

verus! {

/// The operands that are kept after one more operand are those kept before,
/// and the new one if it was rewritten.
pub proof fn lemma_survivors_push(parts: Seq<Option<ExprView>>, part: Option<ExprView>)
    ensures
        survivors(parts.push(part)) == match part {
            Some(e) => survivors(parts).push(e),
            None => survivors(parts),
        },
{
    assert(parts.push(part).drop_last() =~= parts);
}

/// Taking out an operand that was not rewritten changes nothing in what is
/// kept.
pub proof fn lemma_survivors_remove(parts: Seq<Option<ExprView>>, k: int)
    requires
        0 <= k < parts.len(),
        parts[k] is None,
    ensures
        survivors(parts.remove(k)) == survivors(parts),
    decreases parts.len(),
{
    if k == parts.len() - 1 {
        assert(parts.remove(k) =~= parts.drop_last());
    } else {
        lemma_survivors_remove(parts.drop_last(), k);
        assert(parts.remove(k).drop_last() =~= parts.drop_last().remove(k));
        assert(parts.remove(k).last() == parts.last());
    }
}

/// The rewrites of the operands without the one at `k` are the rewrites of
/// the operands, without the one at `k`.
pub proof fn lemma_skipping_predicates_remove(
    exprs: Seq<ExprView>,
    k: int,
    inverted: bool,
    scope: Scope,
)
    requires
        0 <= k < exprs.len(),
    ensures
        skipping_predicates(exprs.remove(k), inverted, scope) == skipping_predicates(
            exprs,
            inverted,
            scope,
        ).remove(k),
{
    lemma_skipping_predicates(exprs, inverted, scope);
    lemma_skipping_predicates(exprs.remove(k), inverted, scope);
    assert(skipping_predicates(exprs.remove(k), inverted, scope) =~= skipping_predicates(
        exprs,
        inverted,
        scope,
    ).remove(k));
}

/// A negation is rewritten as the inverted rewrite of what it negates.
pub proof fn lemma_negation(e: ExprView, inverted: bool, scope: Scope)
    ensures
        skipping_predicate(ExprView::not(e), inverted, scope) == skipping_predicate(
            e,
            !inverted,
            scope,
        ),
{
}

/// Double negation: `NOT NOT e` is rewritten as `e` is.
pub proof fn lemma_double_negation(e: ExprView, inverted: bool, scope: Scope)
    ensures
        skipping_predicate(ExprView::not(ExprView::not(e)), inverted, scope) == skipping_predicate(
            e,
            inverted,
            scope,
        ),
{
    lemma_negation(ExprView::not(e), inverted, scope);
    lemma_negation(e, !inverted, scope);
}

/// The negation of a comparison is rewritten as the comparison by the
/// inverted operator, and has no rewrite where the operator has no inverse.
pub proof fn lemma_negated_comparison(
    op: BinaryOperator,
    left: ExprView,
    right: ExprView,
    scope: Scope,
)
    ensures
        skipping_predicate(ExprView::not(ExprView::binary(op, left, right)), false, scope)
            == match op.inverted() {
            Some(inverse) => skipping_predicate(
                ExprView::binary(inverse, left, right),
                false,
                scope,
            ),
            None => None,
        },
{
    lemma_negation(ExprView::binary(op, left, right), false, scope);
}

/// De Morgan: the negation of a connective is rewritten as the dual
/// connective of the negated operands.
pub proof fn lemma_de_morgan(op: VariadicOperator, exprs: Seq<ExprView>, scope: Scope)
    ensures
        skipping_predicate(ExprView::not(ExprView::Variadic { op, exprs }), false, scope)
            == skipping_predicate(
            ExprView::Variadic {
                op: op.inverted(),
                exprs: exprs.map_values(|e: ExprView| ExprView::not(e)),
            },
            false,
            scope,
        ),
{
    let negated = exprs.map_values(|e: ExprView| ExprView::not(e));
    lemma_negation(ExprView::Variadic { op, exprs }, false, scope);
    lemma_skipping_predicates(exprs, true, scope);
    lemma_skipping_predicates(negated, false, scope);
    assert forall|i: int| 0 <= i < exprs.len() implies skipping_predicate(negated[i], false, scope)
        == skipping_predicate(exprs[i], true, scope) by {
        lemma_negation(exprs[i], false, scope);
    }
    assert(skipping_predicates(negated, false, scope) =~= skipping_predicates(
        exprs,
        true,
        scope,
    ));
}

/// And-drop, for a conjunction of any length: an operand that cannot be
/// rewritten may be taken out of a conjunction, and the rewrite stays the
/// same.
pub proof fn lemma_and_drops_operand(exprs: Seq<ExprView>, k: int, scope: Scope)
    requires
        0 <= k < exprs.len(),
        skipping_predicate(exprs[k], false, scope) is None,
    ensures
        skipping_predicate(ExprView::and_from(exprs), false, scope) == skipping_predicate(
            ExprView::and_from(exprs.remove(k)),
            false,
            scope,
        ),
{
    lemma_skipping_predicates(exprs, false, scope);
    lemma_skipping_predicates_remove(exprs, k, false, scope);
    lemma_survivors_remove(skipping_predicates(exprs, false, scope), k);
}

/// A conjunction of one operand is rewritten as the operand is.
pub proof fn lemma_and_of_one(e: ExprView, scope: Scope)
    ensures
        skipping_predicate(ExprView::and_from(seq![e]), false, scope) == skipping_predicate(
            e,
            false,
            scope,
        ),
{
    let exprs = seq![e];
    lemma_skipping_predicates(exprs, false, scope);
    let parts = skipping_predicates(exprs, false, scope);
    assert(parts =~= Seq::<Option<ExprView>>::empty().push(skipping_predicate(e, false, scope)));
    lemma_survivors_push(Seq::empty(), skipping_predicate(e, false, scope));
}

/// And-drop: where `u` cannot be rewritten, `e AND u` and `u AND e` are
/// rewritten as `e` is.
pub proof fn lemma_and_drop(e: ExprView, u: ExprView, scope: Scope)
    requires
        skipping_predicate(u, false, scope) is None,
    ensures
        skipping_predicate(ExprView::and_from(seq![e, u]), false, scope) == skipping_predicate(
            e,
            false,
            scope,
        ),
        skipping_predicate(ExprView::and_from(seq![u, e]), false, scope) == skipping_predicate(
            e,
            false,
            scope,
        ),
{
    lemma_and_drops_operand(seq![e, u], 1, scope);
    assert(seq![e, u].remove(1) =~= seq![e]);
    lemma_and_drops_operand(seq![u, e], 0, scope);
    assert(seq![u, e].remove(0) =~= seq![e]);
    lemma_and_of_one(e, scope);
}

/// Or-poison, for a disjunction of any length: with one operand that cannot
/// be rewritten, the disjunction cannot.
pub proof fn lemma_or_poisoned_by_operand(exprs: Seq<ExprView>, k: int, scope: Scope)
    requires
        0 <= k < exprs.len(),
        skipping_predicate(exprs[k], false, scope) is None,
    ensures
        skipping_predicate(ExprView::or_from(exprs), false, scope) is None,
{
    lemma_skipping_predicates(exprs, false, scope);
    let parts = skipping_predicates(exprs, false, scope);
    assert(parts[k] is None);
    assert(!all_rewritten(parts));
}

/// Or-poison: where `u` cannot be rewritten, neither `e OR u` nor `u OR e`
/// can.
pub proof fn lemma_or_poison(e: ExprView, u: ExprView, scope: Scope)
    requires
        skipping_predicate(u, false, scope) is None,
    ensures
        skipping_predicate(ExprView::or_from(seq![e, u]), false, scope) is None,
        skipping_predicate(ExprView::or_from(seq![u, e]), false, scope) is None,
{
    lemma_or_poisoned_by_operand(seq![e, u], 1, scope);
    lemma_or_poisoned_by_operand(seq![u, e], 0, scope);
}

/// Commutation: a comparison of a column with a literal is rewritten as the
/// commuted comparison of the literal with the column is.
pub proof fn lemma_commutation(
    op: BinaryOperator,
    column: ColumnPath,
    value: Datum,
    inverted: bool,
    scope: Scope,
)
    requires
        op.commuted() is Some,
    ensures
        skipping_predicate(
            ExprView::binary(op, ExprView::Column(column), ExprView::Literal(value)),
            inverted,
            scope,
        ) == skipping_predicate(
            ExprView::binary(
                op.commuted().unwrap(),
                ExprView::Literal(value),
                ExprView::Column(column),
            ),
            inverted,
            scope,
        ),
{
    lemma_operator_involutions(op);
    match op.inverted() {
        Some(inverse) => {
            lemma_operator_involutions(inverse);
        },
        None => {},
    }
}

/// An equality of a column with a literal is rewritten as the conjunction
/// `column <= literal AND literal <= column` is.
pub proof fn lemma_equality(column: ColumnPath, value: Datum, scope: Scope)
    ensures
        skipping_predicate(
            ExprView::binary(
                BinaryOperator::Equal,
                ExprView::Column(column),
                ExprView::Literal(value),
            ),
            false,
            scope,
        ) == skipping_predicate(
            ExprView::and_from(
                seq![
                    ExprView::binary(
                        BinaryOperator::LessThanOrEqual,
                        ExprView::Column(column),
                        ExprView::Literal(value),
                    ),
                    ExprView::binary(
                        BinaryOperator::LessThanOrEqual,
                        ExprView::Literal(value),
                        ExprView::Column(column),
                    ),
                ],
            ),
            false,
            scope,
        ),
{
    let below = ExprView::binary(
        BinaryOperator::LessThanOrEqual,
        ExprView::Column(column),
        ExprView::Literal(value),
    );
    let above = ExprView::binary(
        BinaryOperator::LessThanOrEqual,
        ExprView::Literal(value),
        ExprView::Column(column),
    );
    let exprs = seq![below, above];
    lemma_skipping_predicates(exprs, false, scope);
    let first = skipping_predicate(below, false, scope);
    let second = skipping_predicate(above, false, scope);
    let parts = skipping_predicates(exprs, false, scope);
    assert(parts =~= Seq::<Option<ExprView>>::empty().push(first).push(second));
    lemma_survivors_push(Seq::empty(), first);
    lemma_survivors_push(Seq::<Option<ExprView>>::empty().push(first), second);
    if scope.admits_comparison(column, value) {
        assert(survivors(parts) =~= seq![first.unwrap(), second.unwrap()]);
    }
}

/// Whether `path` is a column of the statistics record over `fields`:
/// `numRecords`, `tightBounds`, or the null count, minimum or maximum of a
/// primitive field.
pub open spec fn is_statistic(fields: Seq<FieldView>, path: ColumnPath) -> bool {
    ||| path == seq!["numRecords"@]
    ||| path == seq!["tightBounds"@]
    ||| path.len() == 2 && (path[0] == "nullCount"@ || path[0] == "minValues"@ || path[0]
        == "maxValues"@) && has_primitive_field(fields, path[1])
}

/// A connective mentions a column exactly if one of its operands does.
pub proof fn lemma_mentions_of_operands(
    op: VariadicOperator,
    exprs: Seq<ExprView>,
    path: ColumnPath,
)
    ensures
        (ExprView::Variadic { op, exprs }).mentions(path) == any_mentions(
            exprs,
            exprs.len() as int,
            path,
        ),
{
    lemma_references_of_operands(exprs);
    let e = ExprView::Variadic { op, exprs };
    assert(e.references().contains(path) == e.mentions(path));
    assert(references_of_first(exprs, exprs.len() as int).contains(path) == any_mentions(
        exprs,
        exprs.len() as int,
        path,
    ));
}

/// The test on the number of NULLs of a field reads statistics only.
proof fn lemma_null_test_reads_statistics(
    column: ColumnPath,
    inverted: bool,
    fields: Seq<FieldView>,
    path: ColumnPath,
)
    requires
        Scope::Fields(fields).admits_null_test(column),
        null_predicate(column, inverted).mentions(path),
    ensures
        is_statistic(fields, path),
{
    let test = null_predicate(column, inverted);
    let branches = test->Variadic_exprs;
    lemma_mentions_of_operands(VariadicOperator::Or, branches, path);
    let i = choose|i: int| 0 <= i < 2 && (#[trigger] branches[i]).mentions(path);
    let tests = branches[i]->Variadic_exprs;
    lemma_mentions_of_operands(VariadicOperator::And, tests, path);
    let j = choose|j: int| 0 <= j < 2 && (#[trigger] tests[j]).mentions(path);
    assert(tests[j].mentions(path));
    let null_count = seq!["nullCount"@] + column;
    assert(null_count.len() == 2 && null_count[0] == "nullCount"@ && null_count[1] == column[0]);
    assert(path == null_count || path == seq!["numRecords"@] || path == seq!["tightBounds"@]) by {
        reveal_with_fuel(ExprView::mentions, 2);
    }
}

/// The test that a comparison with a field is rewritten to reads statistics
/// only.
proof fn lemma_comparison_reads_statistics(
    op: BinaryOperator,
    column: ColumnPath,
    value: Datum,
    fields: Seq<FieldView>,
    path: ColumnPath,
)
    requires
        Scope::Fields(fields).admits_comparison(column, value),
        comparison_predicate(op, column, value) matches Some(r) && r.mentions(path),
    ensures
        is_statistic(fields, path),
{
    let r = comparison_predicate(op, column, value).unwrap();
    let min = seq!["minValues"@] + column;
    let max = seq!["maxValues"@] + column;
    assert(min.len() == 2 && min[0] == "minValues"@ && min[1] == column[0]);
    assert(max.len() == 2 && max[0] == "maxValues"@ && max[1] == column[0]);
    let t = value.data_type().unwrap();
    let k = choose|k: int|
        0 <= k < fields.len() && (#[trigger] fields[k]).name == column[0] && fields[k].data_type
            == TypeView::Primitive(t);
    assert(fields[k].data_type is Primitive);
    assert(has_primitive_field(fields, column[0]));
    match r {
        ExprView::Variadic { op: joined, exprs } => {
            lemma_mentions_of_operands(joined, exprs, path);
            let i = choose|i: int| 0 <= i < 2 && (#[trigger] exprs[i]).mentions(path);
            assert(exprs[i].mentions(path));
            assert(path == min || path == max) by {
                reveal_with_fuel(ExprView::mentions, 2);
            }
        },
        _ => {
            assert(path == min || path == max) by {
                reveal_with_fuel(ExprView::mentions, 2);
            }
        },
    }
}

/// What is rewritten over the statistics of a record type reads nothing but
/// these statistics: every column that the rewritten predicate mentions is a
/// column of the statistics record over the fields.
pub proof fn lemma_rewrite_reads_statistics(
    e: ExprView,
    inverted: bool,
    fields: Seq<FieldView>,
    path: ColumnPath,
)
    requires
        skipping_predicate(e, inverted, Scope::Fields(fields)) matches Some(r) && r.mentions(path),
    ensures
        is_statistic(fields, path),
    decreases e,
{
    let scope = Scope::Fields(fields);
    let r = skipping_predicate(e, inverted, scope).unwrap();
    match e {
        ExprView::Unary { op: UnaryOperator::Not, expr } => {
            lemma_rewrite_reads_statistics(*expr, !inverted, fields, path);
        },
        ExprView::Unary { op: UnaryOperator::IsNull, expr } => {
            lemma_null_test_reads_statistics(expr->Column_0, inverted, fields, path);
        },
        ExprView::Binary { op, left, right } => {
            let effective = if inverted {
                op.inverted().unwrap()
            } else {
                op
            };
            let (test, column, value) = normalized(effective, *left, *right).unwrap();
            lemma_comparison_reads_statistics(test, column, value, fields, path);
        },
        ExprView::Variadic { op, exprs } => {
            let parts = skipping_predicates(exprs, inverted, scope);
            let kept = survivors(parts);
            lemma_skipping_predicates(exprs, inverted, scope);
            let m = if kept.len() == 1 && r == kept[0] {
                0
            } else {
                lemma_mentions_of_operands(r->Variadic_op, kept, path);
                choose|m: int| 0 <= m < kept.len() && (#[trigger] kept[m]).mentions(path)
            };
            let j = lemma_kept_operand_is_a_rewrite(parts, m);
            assert(parts[j] == skipping_predicate(exprs[j], inverted, scope));
            lemma_rewrite_reads_statistics(exprs[j], inverted, fields, path);
        },
        _ => {},
    }
}

/// The rewritten predicate of a plan reads nothing but the statistics that
/// the plan has parsed.
pub proof fn lemma_plan_reads_its_statistics(
    table: Seq<FieldView>,
    predicate: ExprView,
    path: ColumnPath,
)
    requires
        skipping_plan(table, predicate) matches Some(plan) && plan.skipping.expression.mentions(
            path,
        ),
    ensures
        is_statistic(referenced_fields(table, predicate.references()), path),
        skipping_plan(table, predicate).unwrap().stats_schema == stats_fields(
            referenced_fields(table, predicate.references()),
        ),
{
    let fields = referenced_fields(table, predicate.references());
    let plan = skipping_plan(table, predicate).unwrap();
    let record = plan.skipping.expression;
    assert(decreases_to!(record => record->Struct_0));
    assert(record->Struct_0[0].mentions(path));
    lemma_rewrite_reads_statistics(predicate, false, fields, path);
}

/// Each operand that is kept is the rewrite of one of the operands.
pub proof fn lemma_kept_operand_is_a_rewrite(parts: Seq<Option<ExprView>>, m: int) -> (j: int)
    requires
        0 <= m < survivors(parts).len(),
    ensures
        0 <= j < parts.len(),
        parts[j] == Some(survivors(parts)[m]),
    decreases parts.len(),
{
    let rest = survivors(parts.drop_last());
    if parts.last() is Some && m == rest.len() {
        parts.len() - 1
    } else {
        lemma_kept_operand_is_a_rewrite(parts.drop_last(), m)
    }
}

} // verus!
