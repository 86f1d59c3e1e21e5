//! What an expression means: its value on a record under SQL's three-valued
//! logic, in which NULL stands for "unknown".

use vstd::prelude::*;
use crate::expressions::{ColumnPath, ExprView};
use crate::operators::{BinaryOperator, UnaryOperator, VariadicOperator};
use crate::scalars::Datum;

verus! {

/// A record: the value of each column. A column that the record does not
/// hold is NULL.
pub type Record = Map<ColumnPath, Datum>;

/// The value of `column` in `record`.
pub open spec fn value_at(record: Record, column: ColumnPath) -> Datum {
    if record.dom().contains(column) {
        record[column]
    } else {
        Datum::Null
    }
}

/// Lexicographic order on sequences whose items are ordered by `key`.
pub open spec fn lex_less<T>(a: Seq<T>, b: Seq<T>, key: spec_fn(T) -> int) -> bool
    decreases a.len(),
{
    if b.len() == 0 {
        false
    } else if a.len() == 0 {
        true
    } else if key(a[0]) != key(b[0]) {
        key(a[0]) < key(b[0])
    } else {
        lex_less(a.drop_first(), b.drop_first(), key)
    }
}

/// The code point of a character.
pub open spec fn char_key() -> spec_fn(char) -> int {
    |c: char| c as int
}

/// The value of a byte.
pub open spec fn byte_key() -> spec_fn(u8) -> int {
    |b: u8| b as int
}

impl Datum {
    /// Whether the two are values of one type, and so can be compared.
    pub open spec fn comparable(self, other: Datum) -> bool {
        self.data_type() is Some && self.data_type() == other.data_type()
    }

    /// Whether the two are values of one type and `self` is below `other`.
    pub open spec fn less(self, other: Datum) -> bool {
        match (self, other) {
            (Datum::Boolean(a), Datum::Boolean(b)) => !a && b,
            (Datum::Byte(a), Datum::Byte(b)) => a < b,
            (Datum::Short(a), Datum::Short(b)) => a < b,
            (Datum::Integer(a), Datum::Integer(b)) => a < b,
            (Datum::Long(a), Datum::Long(b)) => a < b,
            (Datum::Date(a), Datum::Date(b)) => a < b,
            (Datum::Timestamp(a), Datum::Timestamp(b)) => a < b,
            (Datum::TimestampNtz(a), Datum::TimestampNtz(b)) => a < b,
            (Datum::String(a), Datum::String(b)) => lex_less(a, b, char_key()),
            (Datum::Binary(a), Datum::Binary(b)) => lex_less(a, b, byte_key()),
            _ => false,
        }
    }

    /// Whether the two are values of one type and `self` is not above
    /// `other`.
    pub open spec fn at_most(self, other: Datum) -> bool {
        self.comparable(other) && (self.less(other) || self == other)
    }

    /// The truth value: `Some(b)` for a Boolean, `None` for anything else,
    /// NULL above all.
    pub open spec fn truth(self) -> Option<bool> {
        match self {
            Datum::Boolean(b) => Some(b),
            _ => None,
        }
    }

    /// The place of the truth value in the order FALSE < NULL < TRUE.
    pub open spec fn rank(self) -> int {
        match self.truth() {
            Some(false) => 0,
            None => 1,
            Some(true) => 2,
        }
    }
}

/// TRUE.
pub open spec fn yes() -> Datum {
    Datum::Boolean(true)
}

/// FALSE.
pub open spec fn no() -> Datum {
    Datum::Boolean(false)
}

/// `a op b` for one of the six comparisons: NULL unless both are values of
/// one type.
pub open spec fn compare(op: BinaryOperator, a: Datum, b: Datum) -> Datum {
    if !a.comparable(b) {
        Datum::Null
    } else {
        Datum::Boolean(
            match op {
                BinaryOperator::LessThan => a.less(b),
                BinaryOperator::LessThanOrEqual => a.less(b) || a == b,
                BinaryOperator::GreaterThan => b.less(a),
                BinaryOperator::GreaterThanOrEqual => b.less(a) || a == b,
                BinaryOperator::Equal => a == b,
                _ => a != b,
            },
        )
    }
}

/// `a op b`. A comparison with NULL, or between values of two types, is
/// NULL. `Distinct` is never NULL: two NULLs are not distinct, and a NULL
/// and a value are. The operators that are no tests are left unknown.
pub open spec fn apply_binary(op: BinaryOperator, a: Datum, b: Datum) -> Datum {
    if op.is_comparison() {
        compare(op, a, b)
    } else if op is Distinct {
        Datum::Boolean(a != b)
    } else {
        Datum::Null
    }
}

/// `NOT a`: NULL unless `a` is a Boolean.
pub open spec fn negation(a: Datum) -> Datum {
    match a {
        Datum::Boolean(b) => Datum::Boolean(!b),
        _ => Datum::Null,
    }
}

/// The conjunction of the values: FALSE if one is FALSE, TRUE if all are
/// TRUE, NULL otherwise.
pub open spec fn conjoin(values: Seq<Datum>) -> Datum {
    if exists|i: int| 0 <= i < values.len() && #[trigger] values[i] == no() {
        no()
    } else if forall|i: int| 0 <= i < values.len() ==> #[trigger] values[i] == yes() {
        yes()
    } else {
        Datum::Null
    }
}

/// The disjunction of the values: TRUE if one is TRUE, FALSE if all are
/// FALSE, NULL otherwise.
pub open spec fn disjoin(values: Seq<Datum>) -> Datum {
    if exists|i: int| 0 <= i < values.len() && #[trigger] values[i] == yes() {
        yes()
    } else if forall|i: int| 0 <= i < values.len() ==> #[trigger] values[i] == no() {
        no()
    } else {
        Datum::Null
    }
}

/// The value of the expression on the record. A record expression has no
/// scalar value and is NULL.
pub open spec fn eval(e: ExprView, record: Record) -> Datum
    decreases e,
{
    match e {
        ExprView::Literal(value) => value,
        ExprView::Column(column) => value_at(record, column),
        ExprView::Struct(_) => Datum::Null,
        ExprView::Unary { op: UnaryOperator::Not, expr } => negation(eval(*expr, record)),
        ExprView::Unary { op: UnaryOperator::IsNull, expr } => Datum::Boolean(
            eval(*expr, record) is Null,
        ),
        ExprView::Binary { op, left, right } => apply_binary(
            op,
            eval(*left, record),
            eval(*right, record),
        ),
        ExprView::Variadic { op: VariadicOperator::And, exprs } => conjoin(
            eval_all(exprs, record),
        ),
        ExprView::Variadic { op: VariadicOperator::Or, exprs } => disjoin(eval_all(exprs, record)),
    }
}

/// The value of each expression on the record, in order.
pub open spec fn eval_all(exprs: Seq<ExprView>, record: Record) -> Seq<Datum>
    decreases exprs,
{
    if exprs.len() == 0 {
        Seq::empty()
    } else {
        eval_all(exprs.drop_last(), record).push(eval(exprs.last(), record))
    }
}

/// The values of the expressions are as many as the expressions, and each is
/// the value of the expression at its place.
pub proof fn lemma_eval_all(exprs: Seq<ExprView>, record: Record)
    ensures
        eval_all(exprs, record).len() == exprs.len(),
        forall|i: int|
            0 <= i < exprs.len() ==> (#[trigger] eval_all(exprs, record)[i]) == eval(
                exprs[i],
                record,
            ),
    decreases exprs.len(),
{
    if exprs.len() > 0 {
        lemma_eval_all(exprs.drop_last(), record);
    }
}

/// The lexicographic order is irreflexive.
pub proof fn lemma_lex_irreflexive<T>(a: Seq<T>, key: spec_fn(T) -> int)
    ensures
        !lex_less(a, a, key),
    decreases a.len(),
{
    if a.len() > 0 {
        lemma_lex_irreflexive(a.drop_first(), key);
    }
}

/// The lexicographic order is transitive.
pub proof fn lemma_lex_transitive<T>(a: Seq<T>, b: Seq<T>, c: Seq<T>, key: spec_fn(T) -> int)
    requires
        lex_less(a, b, key),
        lex_less(b, c, key),
    ensures
        lex_less(a, c, key),
    decreases a.len(),
{
    if a.len() > 0 && key(a[0]) == key(b[0]) && key(b[0]) == key(c[0]) {
        lemma_lex_transitive(a.drop_first(), b.drop_first(), c.drop_first(), key);
    }
}

/// The lexicographic order is total where the key tells the items apart.
pub proof fn lemma_lex_total<T>(a: Seq<T>, b: Seq<T>, key: spec_fn(T) -> int)
    requires
        forall|x: T, y: T| #[trigger] key(x) == #[trigger] key(y) ==> x == y,
    ensures
        lex_less(a, b, key) || a == b || lex_less(b, a, key),
    decreases a.len(),
{
    if a.len() == 0 || b.len() == 0 {
        if a.len() == 0 && b.len() == 0 {
            assert(a =~= b);
        }
    } else if key(a[0]) == key(b[0]) {
        lemma_lex_total(a.drop_first(), b.drop_first(), key);
        if a.drop_first() == b.drop_first() {
            assert(a =~= seq![a[0]] + a.drop_first());
            assert(b =~= seq![b[0]] + b.drop_first());
        }
    }
}

/// On the values of one type, `less` is a strict total order.
pub proof fn lemma_less_is_an_order(a: Datum, b: Datum, c: Datum)
    ensures
        !a.less(a),
        a.less(b) ==> a.comparable(b),
        a.less(b) && b.less(c) ==> a.less(c),
        a.comparable(b) ==> a.less(b) || a == b || b.less(a),
        !(a.less(b) && b.less(a)),
{
    match (a, b) {
        (Datum::String(x), Datum::String(y)) => {
            lemma_lex_total(x, y, char_key());
            if x == y {
                assert(a == b);
            }
            if a.less(b) && b.less(a) {
                lemma_lex_transitive(x, y, x, char_key());
                lemma_lex_irreflexive(x, char_key());
            }
            match c {
                Datum::String(z) => {
                    if a.less(b) && b.less(c) {
                        lemma_lex_transitive(x, y, z, char_key());
                    }
                },
                _ => {},
            }
        },
        (Datum::Binary(x), Datum::Binary(y)) => {
            lemma_lex_total(x, y, byte_key());
            if a.less(b) && b.less(a) {
                lemma_lex_transitive(x, y, x, byte_key());
                lemma_lex_irreflexive(x, byte_key());
            }
            match c {
                Datum::Binary(z) => {
                    if a.less(b) && b.less(c) {
                        lemma_lex_transitive(x, y, z, byte_key());
                    }
                },
                _ => {},
            }
        },
        _ => {},
    }
    match a {
        Datum::String(x) => {
            lemma_lex_irreflexive(x, char_key());
        },
        Datum::Binary(x) => {
            lemma_lex_irreflexive(x, byte_key());
        },
        _ => {},
    }
}

} // verus!
