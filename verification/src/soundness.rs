//! Why a skipped file holds no matching row: where the rewritten predicate
//! is FALSE on the statistics of a file, the predicate is TRUE on none of
//! the rows that the statistics describe.
//!
//! This holds of every predicate whose rewrite meets no test for
//! inequality. The test that `column != value` is rewritten to, the value
//! lying outside minimum and maximum, is FALSE for every value between the
//! two, also where the column holds other values: the statements here hold
//! of the rows about which these tests are right, and
//! `lemma_inequality_test_can_be_wrong` shows a row about which one is not.

use vstd::prelude::*;
use crate::expressions::{ColumnPath, ExprView};
use crate::operators::{BinaryOperator, UnaryOperator, VariadicOperator};
use crate::filter::{skipping_plan, PlanView};
use crate::laws::lemma_kept_operand_is_a_rewrite;
use crate::scalars::Datum;
use crate::schema::{referenced_fields, FieldView};
use crate::semantics::{
    apply_binary, compare, eval, eval_all, lemma_eval_all, lemma_less_is_an_order, no, value_at,
    yes, Record,
};
use crate::skipping::{
    all_rewritten, comparison_predicate, lemma_skipping_predicates, normalized, null_predicate,
    skipping_predicate, skipping_predicates, survivors, Scope,
};

verus! {

/// The statistic `group` that the record holds for `column`.
pub open spec fn statistic(stats: Record, group: Seq<char>, column: ColumnPath) -> Datum {
    value_at(stats, seq![group] + column)
}

/// Whether the bounds of the record are tight: `tightBounds` is not FALSE.
pub open spec fn tight(stats: Record) -> bool {
    value_at(stats, seq!["tightBounds"@]) != no()
}

/// Whether `value` may stand in `column` in a file with these statistics.
///
/// The value is not below the minimum and not above the maximum. With tight
/// bounds the number of NULLs is exact: a NULL in the column rules out a
/// count of zero, and a value rules out a count that reaches `numRecords`.
/// With wide bounds the count only tells whether the whole column is NULL:
/// a NULL rules out a count that differs from `numRecords`, and a value one
/// that equals it. A statistic that is NULL, or of another type than what it
/// is compared with, rules out nothing.
pub open spec fn column_fits(stats: Record, column: ColumnPath, value: Datum) -> bool {
    let min = statistic(stats, "minValues"@, column);
    let max = statistic(stats, "maxValues"@, column);
    let null_count = statistic(stats, "nullCount"@, column);
    let num_records = value_at(stats, seq!["numRecords"@]);
    &&& !value.less(min)
    &&& !max.less(value)
    &&& if tight(stats) {
        &&& value is Null ==> !null_count.at_most(Datum::Long(0))
        &&& value !is Null ==> !num_records.at_most(null_count)
    } else {
        &&& value is Null ==> !(num_records.comparable(null_count) && num_records != null_count)
        &&& value !is Null ==> !(num_records.comparable(null_count) && num_records == null_count)
    }
}

/// Whether `row` may be a row of a file with the statistics `stats`.
pub open spec fn describes(stats: Record, row: Record) -> bool {
    forall|column: ColumnPath| #[trigger] column_fits(stats, column, value_at(row, column))
}

/// The number of rows in which `column` is NULL.
pub open spec fn null_count(rows: Seq<Record>, column: ColumnPath) -> nat
    decreases rows.len(),
{
    if rows.len() == 0 {
        0
    } else if value_at(rows.last(), column) is Null {
        null_count(rows.drop_last(), column) + 1
    } else {
        null_count(rows.drop_last(), column)
    }
}

/// Whether the statistics of `column` are accurate for a file with these
/// rows. Minimum and maximum, where given, bound the values of the column.
/// The null count, where given, is a `Long`; with tight bounds it is the
/// number of rows in which the column is NULL, and with wide bounds it tells
/// only all from nothing: beside a `numRecords` that it equals the column is
/// NULL in every row, and beside one that it differs from, in none.
pub open spec fn accurate_for(stats: Record, rows: Seq<Record>, column: ColumnPath) -> bool {
    let min = statistic(stats, "minValues"@, column);
    let max = statistic(stats, "maxValues"@, column);
    let count = statistic(stats, "nullCount"@, column);
    let records = value_at(stats, seq!["numRecords"@]);
    &&& forall|i: int|
        0 <= i < rows.len() ==> !value_at(#[trigger] rows[i], column).less(min) && !max.less(
            value_at(rows[i], column),
        )
    &&& count is Null || count is Long
    &&& count matches Datum::Long(k) ==> if tight(stats) {
        k == null_count(rows, column)
    } else {
        records matches Datum::Long(n) ==> forall|i: int|
            0 <= i < rows.len() ==> (value_at(#[trigger] rows[i], column) is Null) == (k == n)
    }
}

/// Whether the statistics are accurate for a file with these rows:
/// `numRecords`, where given, is the number of rows as a `Long`, and the
/// statistics of each column are accurate.
pub open spec fn accurate(stats: Record, rows: Seq<Record>) -> bool {
    let records = value_at(stats, seq!["numRecords"@]);
    &&& records is Null || (records matches Datum::Long(n) && n == rows.len())
    &&& forall|column: ColumnPath| #[trigger] accurate_for(stats, rows, column)
}

/// The null count of a column is at most the number of rows; it is positive
/// if the column is NULL in some row, and below the number of rows if it
/// holds a value in some row.
pub proof fn lemma_null_count(rows: Seq<Record>, column: ColumnPath, i: int)
    requires
        0 <= i < rows.len(),
    ensures
        null_count(rows, column) <= rows.len(),
        value_at(rows[i], column) is Null ==> null_count(rows, column) >= 1,
        value_at(rows[i], column) !is Null ==> null_count(rows, column) < rows.len(),
    decreases rows.len(),
{
    if i < rows.len() - 1 {
        lemma_null_count(rows.drop_last(), column, i);
    } else if rows.len() > 1 {
        lemma_null_count(rows.drop_last(), column, 0);
    } else {
        assert(null_count(rows.drop_last(), column) == 0);
    }
}

/// Accurate statistics of a file describe each of its rows.
pub proof fn lemma_accurate_statistics_describe(stats: Record, rows: Seq<Record>, i: int)
    requires
        accurate(stats, rows),
        0 <= i < rows.len(),
    ensures
        describes(stats, rows[i]),
{
    assert forall|column: ColumnPath| #[trigger]
        column_fits(stats, column, value_at(rows[i], column)) by {
        assert(accurate_for(stats, rows, column));
        lemma_null_count(rows, column, i);
    }
}

/// Whether the test that `column != value` is rewritten to is right about
/// this row: if the row's value differs from `value`, then `value` does not
/// lie between minimum and maximum.
pub open spec fn inequality_test_holds(
    stats: Record,
    row: Record,
    column: ColumnPath,
    value: Datum,
) -> bool {
    let min = statistic(stats, "minValues"@, column);
    let max = statistic(stats, "maxValues"@, column);
    compare(BinaryOperator::NotEqual, value_at(row, column), value) == yes() ==> !(min.at_most(
        value,
    ) && value.at_most(max))
}

/// Whether every `!=` test that the rewrite of `e` (of `NOT e`, where
/// `inverted`) is made of is right about this row.
pub open spec fn inequality_tests_hold(
    e: ExprView,
    inverted: bool,
    stats: Record,
    row: Record,
) -> bool
    decreases e,
{
    match e {
        ExprView::Unary { op: UnaryOperator::Not, expr } => inequality_tests_hold(
            *expr,
            !inverted,
            stats,
            row,
        ),
        ExprView::Binary { op, left, right } => {
            let op = if inverted {
                op.inverted()
            } else {
                Some(op)
            };
            match op {
                Some(BinaryOperator::NotEqual) => match normalized(
                    BinaryOperator::NotEqual,
                    *left,
                    *right,
                ) {
                    Some((_, column, value)) => inequality_test_holds(stats, row, column, value),
                    None => true,
                },
                _ => true,
            }
        },
        ExprView::Variadic { exprs, .. } => forall|i: int|
            0 <= i < exprs.len() as int ==> inequality_tests_hold(
                #[trigger] exprs[i],
                inverted,
                stats,
                row,
            ),
        _ => true,
    }
}

/// Whether the rewrite of `e` (of `NOT e`, where `inverted`) meets no test
/// for inequality: no `!=` that is not negated, and no negated `=`.
pub open spec fn free_of_inequality(e: ExprView, inverted: bool) -> bool
    decreases e,
{
    match e {
        ExprView::Unary { op: UnaryOperator::Not, expr } => free_of_inequality(*expr, !inverted),
        ExprView::Binary { op, .. } => if inverted {
            op != BinaryOperator::Equal
        } else {
            op != BinaryOperator::NotEqual
        },
        ExprView::Variadic { exprs, .. } => forall|i: int|
            0 <= i < exprs.len() as int ==> free_of_inequality(#[trigger] exprs[i], inverted),
        _ => true,
    }
}

/// The value of a connective of two operands.
pub proof fn lemma_eval_of_two(op: VariadicOperator, a: ExprView, b: ExprView, record: Record)
    ensures
        eval_all(seq![a, b], record) == seq![eval(a, record), eval(b, record)],
        eval(ExprView::and_from(seq![a, b]), record) == no() <==> eval(a, record) == no() || eval(
            b,
            record,
        ) == no(),
        eval(ExprView::or_from(seq![a, b]), record) == no() <==> eval(a, record) == no() && eval(
            b,
            record,
        ) == no(),
{
    lemma_eval_all(seq![a, b], record);
    let values = eval_all(seq![a, b], record);
    assert(values =~= seq![eval(a, record), eval(b, record)]);
    assert(values[0] == eval(a, record));
    assert(values[1] == eval(b, record));
}

/// A comparison and the commuted comparison of the swapped operands are one.
pub proof fn lemma_compare_commuted(op: BinaryOperator, a: Datum, b: Datum)
    requires
        op.is_comparison(),
    ensures
        compare(op, a, b) == compare(op.commuted().unwrap(), b, a),
{
}

/// Where a comparison is FALSE, the inverted comparison is TRUE.
pub proof fn lemma_compare_inverted(op: BinaryOperator, a: Datum, b: Datum)
    requires
        op.is_comparison(),
        compare(op, a, b) == no(),
    ensures
        compare(op.inverted().unwrap(), a, b) == yes(),
{
    lemma_less_is_an_order(a, b, a);
}

/// Soundness of the rewrite of a comparison of a column with a literal.
pub proof fn lemma_comparison_sound(
    op: BinaryOperator,
    column: ColumnPath,
    value: Datum,
    stats: Record,
    row: Record,
)
    requires
        describes(stats, row),
        op is NotEqual ==> inequality_test_holds(stats, row, column, value),
        comparison_predicate(op, column, value) is Some,
        eval(comparison_predicate(op, column, value).unwrap(), stats) == no(),
    ensures
        compare(op, value_at(row, column), value) != yes(),
{
    let x = value_at(row, column);
    let min = statistic(stats, "minValues"@, column);
    let max = statistic(stats, "maxValues"@, column);
    let min_column = ExprView::Column(seq!["minValues"@] + column);
    let max_column = ExprView::Column(seq!["maxValues"@] + column);
    let literal = ExprView::Literal(value);
    assert(column_fits(stats, column, x));
    assert(eval(min_column, stats) == min);
    assert(eval(max_column, stats) == max);
    assert(eval(literal, stats) == value);
    assert forall|o: BinaryOperator|
        eval(#[trigger] ExprView::binary(o, min_column, literal), stats) == apply_binary(
            o,
            min,
            value,
        ) by {}
    assert forall|o: BinaryOperator|
        eval(#[trigger] ExprView::binary(o, max_column, literal), stats) == apply_binary(
            o,
            max,
            value,
        ) by {}
    lemma_less_is_an_order(min, value, x);
    lemma_less_is_an_order(x, value, min);
    lemma_less_is_an_order(value, x, max);
    lemma_less_is_an_order(x, max, value);
    lemma_less_is_an_order(max, value, x);
    lemma_less_is_an_order(x, min, value);
    lemma_less_is_an_order(value, max, x);
    lemma_less_is_an_order(value, min, x);
    match op {
        BinaryOperator::Equal => {
            lemma_eval_of_two(
                VariadicOperator::And,
                ExprView::binary(BinaryOperator::LessThanOrEqual, min_column, literal),
                ExprView::binary(BinaryOperator::GreaterThanOrEqual, max_column, literal),
                stats,
            );
        },
        BinaryOperator::NotEqual => {
            lemma_eval_of_two(
                VariadicOperator::Or,
                ExprView::binary(BinaryOperator::GreaterThan, min_column, literal),
                ExprView::binary(BinaryOperator::LessThan, max_column, literal),
                stats,
            );
        },
        _ => {},
    }
}

/// Soundness of the test on the number of NULLs.
pub proof fn lemma_null_test_sound(column: ColumnPath, inverted: bool, stats: Record, row: Record)
    requires
        describes(stats, row),
        eval(null_predicate(column, inverted), stats) == no(),
    ensures
        (value_at(row, column) is Null) == inverted,
{
    let x = value_at(row, column);
    let null_count = ExprView::Column(seq!["nullCount"@] + column);
    let count = statistic(stats, "nullCount"@, column);
    let records = value_at(stats, seq!["numRecords"@]);
    let bounds = ExprView::Column(seq!["tightBounds"@]);
    let num_records = ExprView::Column(seq!["numRecords"@]);
    let is_tight = ExprView::binary(BinaryOperator::Distinct, bounds, ExprView::Literal(no()));
    let is_wide = ExprView::binary(BinaryOperator::Equal, bounds, ExprView::Literal(no()));
    assert(column_fits(stats, column, x));
    assert(eval(null_count, stats) == count);
    assert(eval(num_records, stats) == records);
    assert(eval(bounds, stats) == value_at(stats, seq!["tightBounds"@]));
    assert(eval(ExprView::Literal(no()), stats) == no());
    assert(eval(ExprView::Literal(Datum::Long(0)), stats) == Datum::Long(0));
    assert(eval(is_tight, stats) == Datum::Boolean(tight(stats)));
    assert(eval(is_wide, stats) == compare(
        BinaryOperator::Equal,
        value_at(stats, seq!["tightBounds"@]),
        no(),
    ));
    lemma_less_is_an_order(count, Datum::Long(0), records);
    lemma_less_is_an_order(count, records, count);
    lemma_less_is_an_order(records, count, records);
    lemma_less_is_an_order(Datum::Long(0), count, records);
    if inverted {
        let tight_test = ExprView::binary(BinaryOperator::LessThan, null_count, num_records);
        let wide_test = ExprView::binary(BinaryOperator::NotEqual, num_records, null_count);
        assert(eval(tight_test, stats) == compare(BinaryOperator::LessThan, count, records));
        assert(eval(wide_test, stats) == compare(BinaryOperator::NotEqual, records, count));
        lemma_eval_of_two(VariadicOperator::And, is_tight, tight_test, stats);
        lemma_eval_of_two(VariadicOperator::And, is_wide, wide_test, stats);
        lemma_eval_of_two(
            VariadicOperator::Or,
            ExprView::and_from(seq![is_tight, tight_test]),
            ExprView::and_from(seq![is_wide, wide_test]),
            stats,
        );
    } else {
        let tight_test = ExprView::binary(
            BinaryOperator::GreaterThan,
            null_count,
            ExprView::Literal(Datum::Long(0)),
        );
        let wide_test = ExprView::binary(BinaryOperator::Equal, num_records, null_count);
        assert(eval(tight_test, stats) == compare(
            BinaryOperator::GreaterThan,
            count,
            Datum::Long(0),
        ));
        assert(eval(wide_test, stats) == compare(BinaryOperator::Equal, records, count));
        lemma_eval_of_two(VariadicOperator::And, is_tight, tight_test, stats);
        lemma_eval_of_two(VariadicOperator::And, is_wide, wide_test, stats);
        lemma_eval_of_two(
            VariadicOperator::Or,
            ExprView::and_from(seq![is_tight, tight_test]),
            ExprView::and_from(seq![is_wide, wide_test]),
            stats,
        );
    }
}

/// Where every operand was rewritten, the operands that are kept are the
/// rewrites, each at its place.
pub proof fn lemma_all_survive(parts: Seq<Option<ExprView>>)
    requires
        all_rewritten(parts),
    ensures
        survivors(parts).len() == parts.len(),
        forall|i: int| 0 <= i < parts.len() ==> parts[i] == Some(#[trigger] survivors(parts)[i]),
    decreases parts.len(),
{
    if parts.len() > 0 {
        assert forall|i: int| 0 <= i < parts.drop_last().len() implies (
        #[trigger] parts.drop_last()[i]) is Some by {
            assert(parts[i] is Some);
        }
        lemma_all_survive(parts.drop_last());
        assert(parts[parts.len() - 1] is Some);
    }
}

/// Soundness, for either polarity: where the rewrite of `e` (of `NOT e`,
/// where `inverted`) is FALSE on the statistics, `e` is not TRUE (`NOT e` is
/// not TRUE, so `e` is not FALSE) on a row that the statistics describe,
/// provided the `!=` tests of the rewrite are right about the row.
pub proof fn lemma_rewrite_sound(
    e: ExprView,
    inverted: bool,
    scope: Scope,
    stats: Record,
    row: Record,
)
    requires
        describes(stats, row),
        inequality_tests_hold(e, inverted, stats, row),
        skipping_predicate(e, inverted, scope) is Some,
        eval(skipping_predicate(e, inverted, scope).unwrap(), stats) == no(),
    ensures
        eval(e, row) != Datum::Boolean(!inverted),
    decreases e,
{
    match e {
        ExprView::Unary { op: UnaryOperator::Not, expr } => {
            lemma_rewrite_sound(*expr, !inverted, scope, stats, row);
        },
        ExprView::Unary { op: UnaryOperator::IsNull, expr } => {
            match *expr {
                ExprView::Column(column) => {
                    lemma_null_test_sound(column, inverted, stats, row);
                    assert(eval(*expr, row) == value_at(row, column));
                },
                _ => {},
            }
        },
        ExprView::Binary { op, left, right } => {
            let effective = if inverted {
                op.inverted().unwrap()
            } else {
                op
            };
            let (test, column, value) = normalized(effective, *left, *right).unwrap();
            let x = value_at(row, column);
            assert(test.is_comparison());
            assert(effective.is_comparison());
            assert(op.is_comparison());
            lemma_comparison_sound(test, column, value, stats, row);
            assert(eval(ExprView::Column(column), row) == x);
            assert(eval(ExprView::Literal(value), row) == value);
            let a = eval(*left, row);
            let b = eval(*right, row);
            assert(eval(e, row) == compare(op, a, b));
            assert(compare(test, x, value) == compare(effective, a, b)) by {
                if *left is Literal {
                    lemma_compare_commuted(effective, a, b);
                }
            }
            if inverted && compare(op, a, b) == no() {
                lemma_compare_inverted(op, a, b);
            }
        },
        ExprView::Variadic { op, exprs } => {
            let joined = if inverted {
                op.inverted()
            } else {
                op
            };
            let parts = skipping_predicates(exprs, inverted, scope);
            let kept = survivors(parts);
            let values = eval_all(exprs, row);
            lemma_skipping_predicates(exprs, inverted, scope);
            lemma_eval_all(exprs, row);
            lemma_eval_all(kept, stats);
            match joined {
                VariadicOperator::And => {
                    let m = if kept.len() == 1 {
                        0
                    } else {
                        choose|m: int|
                            0 <= m < kept.len() && #[trigger] eval_all(kept, stats)[m] == no()
                    };
                    assert(eval(kept[m], stats) == no());
                    let j = lemma_kept_operand_is_a_rewrite(parts, m);
                    assert(parts[j] == skipping_predicate(exprs[j], inverted, scope));
                    assert(inequality_tests_hold(exprs[j], inverted, stats, row));
                    lemma_rewrite_sound(exprs[j], inverted, scope, stats, row);
                    assert(values[j] == eval(exprs[j], row));
                },
                VariadicOperator::Or => {
                    lemma_all_survive(parts);
                    if eval(e, row) == Datum::Boolean(!inverted) {
                        let i = choose|i: int|
                            0 <= i < values.len() && #[trigger] values[i] == Datum::Boolean(
                                !inverted,
                            );
                        assert(parts[i] == skipping_predicate(exprs[i], inverted, scope));
                        assert(parts[i] == Some(kept[i]));
                        assert(eval_all(kept, stats)[i] == no());
                        assert(inequality_tests_hold(exprs[i], inverted, stats, row));
                        lemma_rewrite_sound(exprs[i], inverted, scope, stats, row);
                    }
                },
            }
        },
        _ => {},
    }
}

/// Soundness: where the rewritten predicate is FALSE on the statistics of a
/// file, the predicate is TRUE on none of the rows that the statistics
/// describe, and the file can be skipped. This holds of every row about
/// which the `!=` tests of the rewrite are right.
pub proof fn lemma_soundness(e: ExprView, scope: Scope, stats: Record, row: Record)
    requires
        describes(stats, row),
        inequality_tests_hold(e, false, stats, row),
        skipping_predicate(e, false, scope) matches Some(r) && eval(r, stats) == no(),
    ensures
        eval(e, row) != yes(),
{
    lemma_rewrite_sound(e, false, scope, stats, row);
}

/// The test for `column != value` is right about every described row of a
/// file in which the column has one value only: minimum and maximum are
/// equal.
pub proof fn lemma_inequality_test_on_one_value(
    stats: Record,
    row: Record,
    column: ColumnPath,
    value: Datum,
)
    requires
        describes(stats, row),
        statistic(stats, "minValues"@, column) == statistic(stats, "maxValues"@, column),
    ensures
        inequality_test_holds(stats, row, column, value),
{
    let x = value_at(row, column);
    let bound = statistic(stats, "minValues"@, column);
    assert(column_fits(stats, column, x));
    lemma_less_is_an_order(bound, value, x);
    lemma_less_is_an_order(x, bound, value);
}

/// The test that `!=` is rewritten to can be wrong about a row: a file with
/// the values 0 to 10 in the column `a` may hold a row with 3 in it, on
/// which `a != 5` is TRUE, while the rewritten predicate is FALSE on the
/// statistics of the file.
pub proof fn lemma_inequality_test_can_be_wrong() -> (witness: (Record, Record))
    ensures
        ({
            let (stats, row) = witness;
            let a = ExprView::Column(seq!["a"@]);
            let five = ExprView::Literal(Datum::Integer(5));
            let e = ExprView::binary(BinaryOperator::NotEqual, a, five);
            &&& describes(stats, row)
            &&& eval(e, row) == yes()
            &&& skipping_predicate(e, false, Scope::AllColumns) matches Some(r) && eval(r, stats)
                == no()
            &&& !inequality_tests_hold(e, false, stats, row)
        }),
{
    reveal_strlit("minValues");
    reveal_strlit("maxValues");
    reveal_strlit("nullCount");
    reveal_strlit("numRecords");
    reveal_strlit("tightBounds");
    let column = seq!["a"@];
    let min_path = seq!["minValues"@] + column;
    let max_path = seq!["maxValues"@] + column;
    let stats: Record = Map::empty().insert(min_path, Datum::Integer(0)).insert(
        max_path,
        Datum::Integer(10),
    );
    let row: Record = Map::empty().insert(column, Datum::Integer(3));
    assert("minValues"@[1] != "maxValues"@[1]);
    assert(min_path[0] != max_path[0]);
    assert(value_at(stats, min_path) == Datum::Integer(0));
    assert(value_at(stats, max_path) == Datum::Integer(10));
    assert forall|c: ColumnPath| #[trigger] column_fits(stats, c, value_at(row, c)) by {
        let count_path = seq!["nullCount"@] + c;
        assert("nullCount"@[0] != "minValues"@[0]);
        assert(count_path[0] != min_path[0] && count_path[0] != max_path[0]);
        assert(value_at(stats, count_path) is Null);
        assert(seq!["numRecords"@][0] != min_path[0] && seq!["numRecords"@][0] != max_path[0]);
        assert(seq!["tightBounds"@][0] != min_path[0] && seq!["tightBounds"@][0] != max_path[0]);
        assert(value_at(stats, seq!["numRecords"@]) is Null);
        assert(value_at(stats, seq!["tightBounds"@]) is Null);
        if c == column {
            assert(seq!["minValues"@] + c == min_path);
            assert(seq!["maxValues"@] + c == max_path);
        } else {
            assert(value_at(row, c) is Null);
        }
    }
    let a = ExprView::Column(column);
    let five = ExprView::Literal(Datum::Integer(5));
    let e = ExprView::binary(BinaryOperator::NotEqual, a, five);
    assert(eval(a, row) == Datum::Integer(3));
    assert(eval(five, row) == Datum::Integer(5));
    let min_column = ExprView::Column(min_path);
    let max_column = ExprView::Column(max_path);
    let above = ExprView::binary(BinaryOperator::GreaterThan, min_column, five);
    let below = ExprView::binary(BinaryOperator::LessThan, max_column, five);
    assert(eval(min_column, stats) == Datum::Integer(0));
    assert(eval(max_column, stats) == Datum::Integer(10));
    assert(eval(five, stats) == Datum::Integer(5));
    assert(eval(above, stats) == no());
    assert(eval(below, stats) == no());
    lemma_eval_of_two(VariadicOperator::Or, above, below, stats);
    (stats, row)
}

/// A predicate without a test for inequality has no `!=` test that could be
/// wrong about a row.
pub proof fn lemma_free_of_inequality(e: ExprView, inverted: bool, stats: Record, row: Record)
    requires
        free_of_inequality(e, inverted),
    ensures
        inequality_tests_hold(e, inverted, stats, row),
    decreases e,
{
    match e {
        ExprView::Unary { op: UnaryOperator::Not, expr } => {
            lemma_free_of_inequality(*expr, !inverted, stats, row);
        },
        ExprView::Variadic { exprs, .. } => {
            assert(decreases_to!(e => e->Variadic_exprs));
            assert forall|i: int| 0 <= i < exprs.len() as int implies inequality_tests_hold(
                #[trigger] exprs[i],
                inverted,
                stats,
                row,
            ) by {
                lemma_free_of_inequality(exprs[i], inverted, stats, row);
            }
        },
        _ => {},
    }
}

/// Soundness of the rewrite of a predicate without a test for inequality:
/// where the rewritten predicate is FALSE on the statistics of a file, the
/// predicate is TRUE on none of the rows that the statistics describe.
pub proof fn lemma_soundness_without_inequality(
    e: ExprView,
    scope: Scope,
    stats: Record,
    row: Record,
)
    requires
        describes(stats, row),
        free_of_inequality(e, false),
        skipping_predicate(e, false, scope) matches Some(r) && eval(r, stats) == no(),
    ensures
        eval(e, row) != yes(),
{
    lemma_free_of_inequality(e, false, stats, row);
    lemma_rewrite_sound(e, false, scope, stats, row);
}

/// Monotone weakening: a predicate that is TRUE on a described row has a
/// rewrite that is not FALSE on the statistics; and where neither the
/// predicate on the row nor its rewrite on the statistics is NULL, the
/// rewrite is at least as true, in the order FALSE < NULL < TRUE, as the
/// predicate.
pub proof fn lemma_monotone_weakening(e: ExprView, scope: Scope, stats: Record, row: Record)
    requires
        describes(stats, row),
        inequality_tests_hold(e, false, stats, row),
        skipping_predicate(e, false, scope) is Some,
    ensures
        ({
            let r = skipping_predicate(e, false, scope).unwrap();
            &&& eval(e, row) == yes() ==> eval(r, stats).rank() >= 1
            &&& eval(e, row).truth() is Some && eval(r, stats).truth() is Some ==> eval(
                r,
                stats,
            ).rank() >= eval(e, row).rank()
        }),
{
    let r = skipping_predicate(e, false, scope).unwrap();
    if eval(r, stats) == no() {
        lemma_rewrite_sound(e, false, scope, stats, row);
    }
}

/// Statistics that are all NULL describe every row: they rule out nothing.
pub proof fn lemma_no_statistics_describe_every_row(row: Record)
    ensures
        describes(Map::empty(), row),
{
    let stats: Record = Map::empty();
    assert forall|column: ColumnPath| #[trigger]
        column_fits(stats, column, value_at(row, column)) by {
        lemma_less_is_an_order(value_at(row, column), Datum::Null, Datum::Null);
    }
}

/// The value of the rewritten predicate of a plan on the statistics of a
/// file: a record with the one field `predicate`.
pub open spec fn skipping_result(plan: PlanView, stats: Record) -> Record {
    Map::empty().insert(seq!["predicate"@], eval(plan.skipping.expression->Struct_0[0], stats))
}

/// Whether a filter with this plan keeps a file with these statistics: the
/// selection of the plan is not FALSE on the value of its rewritten
/// predicate.
pub open spec fn keeps(plan: PlanView, stats: Record) -> bool {
    eval(plan.selection.expression, skipping_result(plan, stats)) != no()
}

/// The selection maps the three truth values onto two: a file is skipped
/// where the rewritten predicate is FALSE on its statistics, and kept where
/// it is TRUE or NULL.
pub proof fn lemma_kept_unless_false(
    table: Seq<FieldView>,
    predicate: ExprView,
    stats: Record,
)
    requires
        skipping_plan(table, predicate) is Some,
    ensures
        ({
            let plan = skipping_plan(table, predicate).unwrap();
            let scope = Scope::Fields(referenced_fields(table, predicate.references()));
            &&& eval(plan.selection.expression, skipping_result(plan, stats)).truth() is Some
            &&& keeps(plan, stats) <==> eval(
                skipping_predicate(predicate, false, scope).unwrap(),
                stats,
            ) != no()
        }),
{
    let plan = skipping_plan(table, predicate).unwrap();
    let result = skipping_result(plan, stats);
    assert(eval(ExprView::Column(seq!["predicate"@]), result) == value_at(
        result,
        seq!["predicate"@],
    ));
    assert(eval(ExprView::Literal(no()), result) == no());
}

/// A file that the filter skips holds no matching row: where the filter made
/// for `predicate` does not keep a file with the statistics `stats`, the
/// predicate is TRUE on none of the rows that the statistics describe and
/// about which the `!=` tests of the rewrite are right.
pub proof fn lemma_skipped_file_has_no_match(
    table: Seq<FieldView>,
    predicate: ExprView,
    stats: Record,
    row: Record,
)
    requires
        skipping_plan(table, predicate) matches Some(plan) && !keeps(plan, stats),
        describes(stats, row),
        inequality_tests_hold(predicate, false, stats, row),
    ensures
        eval(predicate, row) != yes(),
{
    let scope = Scope::Fields(referenced_fields(table, predicate.references()));
    lemma_kept_unless_false(table, predicate, stats);
    lemma_rewrite_sound(predicate, false, scope, stats, row);
}

/// No file is skipped that holds a matching row: where the filter made for
/// `predicate` does not keep a file whose statistics are accurate, the
/// predicate is TRUE on none of the rows of the file about which the `!=`
/// tests of the rewrite are right.
pub proof fn lemma_no_false_negatives(
    table: Seq<FieldView>,
    predicate: ExprView,
    stats: Record,
    rows: Seq<Record>,
    i: int,
)
    requires
        skipping_plan(table, predicate) matches Some(plan) && !keeps(plan, stats),
        accurate(stats, rows),
        0 <= i < rows.len(),
        inequality_tests_hold(predicate, false, stats, rows[i]),
    ensures
        eval(predicate, rows[i]) != yes(),
{
    lemma_accurate_statistics_describe(stats, rows, i);
    lemma_skipped_file_has_no_match(table, predicate, stats, rows[i]);
}

} // verus!
