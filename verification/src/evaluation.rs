//! A reference evaluator: the value of an expression on a row, computed as
//! the semantics define it.

use vstd::prelude::*;
use vstd::string::StrSliceExecFns;
use crate::expressions::{lemma_view_of_operands, views, ColumnName, Expr};
use crate::operators::{BinaryOperator, UnaryOperator, VariadicOperator};
use crate::scalars::{Datum, Scalar};
use crate::semantics::{
    apply_binary, byte_key, char_key, eval, eval_all, lemma_eval_all, lex_less, value_at, Record,
};

verus! {

/// The record that a list of columns and values stands for: of two entries
/// for one column the earlier counts.
pub open spec fn record_of(entries: Seq<(ColumnName, Scalar)>) -> Record
    decreases entries.len(),
{
    if entries.len() == 0 {
        Map::empty()
    } else {
        record_of(entries.drop_first()).insert(entries[0].0@, entries[0].1@)
    }
}

/// A row: columns and their values. A column that is not listed is NULL.
#[derive(Debug, PartialEq, Eq)]
pub struct Row {
    pub values: Vec<(ColumnName, Scalar)>,
}

impl View for Row {
    type V = Record;

    open spec fn view(&self) -> Record {
        record_of(self.values@)
    }
}

impl Clone for Row {
    fn clone(&self) -> (r: Self)
        ensures
            r@ == self@,
    {
        let mut values: Vec<(ColumnName, Scalar)> = Vec::new();
        let mut k: usize = 0;
        while k < self.values.len()
            invariant
                k <= self.values.len(),
                values@.len() == k,
                forall|j: int|
                    0 <= j < k ==> values@[j].0@ == self.values@[j].0@ && values@[j].1@
                        == self.values@[j].1@,
            decreases self.values.len() - k,
        {
            values.push((self.values[k].0.clone(), self.values[k].1.clone()));
            k = k + 1;
        }
        proof {
            lemma_record_of_same_entries(values@, self.values@);
        }
        Row { values }
    }
}

/// Lists with the same columns and values in the same order stand for the
/// same record.
pub proof fn lemma_record_of_same_entries(
    a: Seq<(ColumnName, Scalar)>,
    b: Seq<(ColumnName, Scalar)>,
)
    requires
        a.len() == b.len(),
        forall|j: int| 0 <= j < a.len() ==> a[j].0@ == b[j].0@ && a[j].1@ == b[j].1@,
    ensures
        record_of(a) == record_of(b),
    decreases a.len(),
{
    if a.len() > 0 {
        lemma_record_of_same_entries(a.drop_first(), b.drop_first());
    }
}

impl Row {
    /// The row with the given columns and values.
    pub fn new(values: Vec<(ColumnName, Scalar)>) -> (r: Row)
        ensures
            r@ == record_of(values@),
    {
        Row { values }
    }

    /// The value of `column` in the row.
    pub fn get(&self, column: &ColumnName) -> (r: Scalar)
        ensures
            r@ == value_at(self@, column@),
    {
        let mut k: usize = 0;
        assert(self.values@.skip(0) =~= self.values@);
        while k < self.values.len()
            invariant
                k <= self.values.len(),
                value_at(self@, column@) == value_at(
                    record_of(self.values@.skip(k as int)),
                    column@,
                ),
            decreases self.values.len() - k,
        {
            proof {
                assert(self.values@.skip(k as int).drop_first() =~= self.values@.skip(k + 1));
                assert(self.values@.skip(k as int)[0] == self.values@[k as int]);
            }
            if self.values[k].0.same_path(column) {
                return self.values[k].1.clone();
            }
            k = k + 1;
        }
        Scalar::Null
    }
}

/// Whether `a` comes before `b` in the order of strings, by code points.
pub fn string_less(a: &str, b: &str) -> (r: bool)
    ensures
        r == lex_less(a@, b@, char_key()),
{
    let n = a.unicode_len();
    let m = b.unicode_len();
    let mut i: usize = 0;
    assert(a@.skip(0) =~= a@ && b@.skip(0) =~= b@);
    while i < n && i < m
        invariant
            i <= n,
            i <= m,
            n == a@.len(),
            m == b@.len(),
            lex_less(a@, b@, char_key()) == lex_less(
                a@.skip(i as int),
                b@.skip(i as int),
                char_key(),
            ),
        decreases n - i,
    {
        let x = a.get_char(i);
        let y = b.get_char(i);
        proof {
            assert(a@.skip(i as int).drop_first() =~= a@.skip(i + 1));
            assert(b@.skip(i as int).drop_first() =~= b@.skip(i + 1));
            assert(a@.skip(i as int)[0] == x);
            assert(b@.skip(i as int)[0] == y);
        }
        if x != y {
            return x < y;
        }
        i = i + 1;
    }
    i < m
}

/// Whether `a` comes before `b` in the order of byte strings.
pub fn bytes_less(a: &Vec<u8>, b: &Vec<u8>) -> (r: bool)
    ensures
        r == lex_less(a@, b@, byte_key()),
{
    let mut i: usize = 0;
    assert(a@.skip(0) =~= a@ && b@.skip(0) =~= b@);
    while i < a.len() && i < b.len()
        invariant
            i <= a.len(),
            i <= b.len(),
            lex_less(a@, b@, byte_key()) == lex_less(
                a@.skip(i as int),
                b@.skip(i as int),
                byte_key(),
            ),
        decreases a.len() - i,
    {
        proof {
            assert(a@.skip(i as int).drop_first() =~= a@.skip(i + 1));
            assert(b@.skip(i as int).drop_first() =~= b@.skip(i + 1));
        }
        if a[i] != b[i] {
            return a[i] < b[i];
        }
        i = i + 1;
    }
    i < b.len()
}

impl Scalar {
    /// Whether the two are values of one type and `self` is below `other`.
    pub fn less(&self, other: &Scalar) -> (r: bool)
        ensures
            r == self@.less(other@),
    {
        match (self, other) {
            (Scalar::Boolean(a), Scalar::Boolean(b)) => !*a && *b,
            (Scalar::Byte(a), Scalar::Byte(b)) => *a < *b,
            (Scalar::Short(a), Scalar::Short(b)) => *a < *b,
            (Scalar::Integer(a), Scalar::Integer(b)) => *a < *b,
            (Scalar::Long(a), Scalar::Long(b)) => *a < *b,
            (Scalar::Date(a), Scalar::Date(b)) => *a < *b,
            (Scalar::Timestamp(a), Scalar::Timestamp(b)) => *a < *b,
            (Scalar::TimestampNtz(a), Scalar::TimestampNtz(b)) => *a < *b,
            (Scalar::String(a), Scalar::String(b)) => string_less(a.as_str(), b.as_str()),
            (Scalar::Binary(a), Scalar::Binary(b)) => bytes_less(a, b),
            _ => false,
        }
    }

    /// Whether the two are values of one type.
    pub fn comparable(&self, other: &Scalar) -> (r: bool)
        ensures
            r == self@.comparable(other@),
    {
        match (self.data_type(), other.data_type()) {
            (Some(a), Some(b)) => a == b,
            _ => false,
        }
    }
}

/// `a op b` under three-valued logic.
pub fn evaluate_binary(op: BinaryOperator, a: &Scalar, b: &Scalar) -> (r: Scalar)
    ensures
        r@ == apply_binary(op, a@, b@),
{
    match op {
        BinaryOperator::Distinct => Scalar::Boolean(!a.same(b)),
        BinaryOperator::LessThan
        | BinaryOperator::LessThanOrEqual
        | BinaryOperator::GreaterThan
        | BinaryOperator::GreaterThanOrEqual
        | BinaryOperator::Equal
        | BinaryOperator::NotEqual => {
            if !a.comparable(b) {
                return Scalar::Null;
            }
            let holds = match op {
                BinaryOperator::LessThan => a.less(b),
                BinaryOperator::LessThanOrEqual => a.less(b) || a.same(b),
                BinaryOperator::GreaterThan => b.less(a),
                BinaryOperator::GreaterThanOrEqual => b.less(a) || a.same(b),
                BinaryOperator::Equal => a.same(b),
                _ => !a.same(b),
            };
            Scalar::Boolean(holds)
        },
        _ => Scalar::Null,
    }
}

/// The value of the expression on the row, under three-valued logic.
pub fn evaluate(expr: &Expr, row: &Row) -> (r: Scalar)
    ensures
        r@ == eval(expr@, row@),
    decreases expr,
{
    proof {
        lemma_view_of_operands(*expr);
    }
    match expr {
        Expr::Literal(value) => value.clone(),
        Expr::Column(column) => row.get(column),
        Expr::Struct(_) => Scalar::Null,
        Expr::UnaryOperation { op: UnaryOperator::Not, expr: inner } => {
            match evaluate(inner, row) {
                Scalar::Boolean(b) => Scalar::Boolean(!b),
                _ => Scalar::Null,
            }
        },
        Expr::UnaryOperation { op: UnaryOperator::IsNull, expr: inner } => {
            match evaluate(inner, row) {
                Scalar::Null => Scalar::Boolean(true),
                _ => Scalar::Boolean(false),
            }
        },
        Expr::BinaryOperation { op, left, right } => {
            let a = evaluate(left, row);
            let b = evaluate(right, row);
            evaluate_binary(*op, &a, &b)
        },
        Expr::VariadicOperation { op, exprs } => {
            let (decided, undecided) = match op {
                VariadicOperator::And => (false, true),
                VariadicOperator::Or => (true, false),
            };
            let tally = evaluate_all(exprs, row, decided, undecided);
            proof {
                lemma_eval_all(views(exprs@), row@);
            }
            if tally.0 {
                Scalar::Boolean(decided)
            } else if tally.1 {
                Scalar::Boolean(undecided)
            } else {
                Scalar::Null
            }
        },
    }
}

/// Evaluates each expression on the row: whether one of the values is the
/// Boolean `decisive`, and whether all of them are the Boolean `neutral`.
pub fn evaluate_all(exprs: &Vec<Expr>, row: &Row, decisive: bool, neutral: bool) -> (r: (
    bool,
    bool,
))
    ensures
        r.0 == exists|i: int|
            0 <= i < exprs.len() && #[trigger] eval_all(views(exprs@), row@)[i] == Datum::Boolean(
                decisive,
            ),
        r.1 == forall|i: int|
            0 <= i < exprs.len() ==> #[trigger] eval_all(views(exprs@), row@)[i] == Datum::Boolean(
                neutral,
            ),
    decreases exprs,
{
    let ghost values = eval_all(views(exprs@), row@);
    proof {
        lemma_eval_all(views(exprs@), row@);
    }
    let mut some_decisive = false;
    let mut all_neutral = true;
    let mut k: usize = 0;
    while k < exprs.len()
        invariant
            k <= exprs.len(),
            values == eval_all(views(exprs@), row@),
            values.len() == exprs.len(),
            forall|i: int| 0 <= i < exprs.len() ==> #[trigger] values[i] == eval(exprs[i]@, row@),
            some_decisive == exists|i: int|
                0 <= i < k && #[trigger] values[i] == Datum::Boolean(decisive),
            all_neutral == forall|i: int|
                0 <= i < k ==> #[trigger] values[i] == Datum::Boolean(neutral),
        decreases exprs.len() - k,
    {
        let value = evaluate(&exprs[k], row);
        assert(value@ == values[k as int]);
        match value {
            Scalar::Boolean(b) => {
                if b == decisive {
                    some_decisive = true;
                }
                if b != neutral {
                    all_neutral = false;
                }
            },
            _ => {
                all_neutral = false;
            },
        }
        proof {
            if exists|i: int| 0 <= i < k + 1 && #[trigger] values[i] == Datum::Boolean(decisive) {
                let i = choose|i: int|
                    0 <= i < k + 1 && #[trigger] values[i] == Datum::Boolean(decisive);
                if i < k {
                    assert(values[i] == Datum::Boolean(decisive));
                }
            }
        }
        k = k + 1;
    }
    (some_decisive, all_neutral)
}

} // verus!
