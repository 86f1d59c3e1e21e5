//! The expression tree: columns, literals and operators over them.

use vstd::prelude::*;
use vstd::std_specs::cmp::PartialEqSpecImpl;
use crate::operators::{BinaryOperator, UnaryOperator, VariadicOperator};
use crate::scalars::{Datum, Scalar};

verus! {

/// A column path as contracts see it: the name segments, outermost first.
pub type ColumnPath = Seq<Seq<char>>;

/// The path of a column: a sequence of name segments, outermost first.
#[derive(Debug, Eq)]
pub struct ColumnName {
    pub path: Vec<String>,
}

impl View for ColumnName {
    type V = ColumnPath;

    open spec fn view(&self) -> ColumnPath {
        Seq::new(self.path@.len(), |i: int| self.path@[i]@)
    }
}

impl Clone for ColumnName {
    fn clone(&self) -> (r: Self)
        ensures
            r@ == self@,
    {
        let mut path: Vec<String> = Vec::new();
        let mut i: usize = 0;
        while i < self.path.len()
            invariant
                i <= self.path.len(),
                path@.len() == i,
                forall|j: int| 0 <= j < i ==> path@[j]@ == self.path@[j]@,
            decreases self.path.len() - i,
        {
            path.push(self.path[i].clone());
            i = i + 1;
        }
        let r = ColumnName { path };
        assert(r@ =~= self@);
        r
    }
}

impl PartialEq for ColumnName {
    fn eq(&self, other: &Self) -> (r: bool) {
        self.same_path(other)
    }
}

impl PartialEqSpecImpl for ColumnName {
    open spec fn obeys_eq_spec() -> bool {
        true
    }

    open spec fn eq_spec(&self, other: &Self) -> bool {
        self@ == other@
    }
}

impl ColumnName {
    /// The column named by the given segments, outermost first.
    pub fn new(path: Vec<String>) -> (r: Self)
        ensures
            r.path == path,
    {
        ColumnName { path }
    }

    /// The top-level column `name`.
    pub fn single(name: &str) -> (r: Self)
        ensures
            r@ == seq![name@],
    {
        let mut path: Vec<String> = Vec::new();
        path.push(name.to_owned());
        let r = ColumnName { path };
        assert(r@ =~= seq![name@]);
        r
    }

    /// The path of `self` followed by the path of `other`.
    pub fn join(&self, other: &ColumnName) -> (r: ColumnName)
        ensures
            r@ == self@ + other@,
    {
        let mut path: Vec<String> = Vec::new();
        let mut i: usize = 0;
        while i < self.path.len()
            invariant
                i <= self.path.len(),
                path@.len() == i,
                forall|j: int| 0 <= j < i ==> path@[j]@ == self.path@[j]@,
            decreases self.path.len() - i,
        {
            path.push(self.path[i].clone());
            i = i + 1;
        }
        let mut k: usize = 0;
        while k < other.path.len()
            invariant
                k <= other.path.len(),
                path@.len() == self.path.len() + k,
                forall|j: int| 0 <= j < self.path.len() ==> path@[j]@ == self.path@[j]@,
                forall|j: int| 0 <= j < k ==> path@[self.path.len() + j]@ == other.path@[j]@,
            decreases other.path.len() - k,
        {
            path.push(other.path[k].clone());
            k = k + 1;
        }
        let r = ColumnName { path };
        assert(r@ =~= self@ + other@);
        r
    }

    /// Whether the two paths have the same segments.
    pub fn same_path(&self, other: &ColumnName) -> (r: bool)
        ensures
            r == (self@ == other@),
    {
        if self.path.len() != other.path.len() {
            assert(self@.len() != other@.len());
            return false;
        }
        let mut i: usize = 0;
        while i < self.path.len()
            invariant
                i <= self.path.len(),
                self.path.len() == other.path.len(),
                forall|j: int| 0 <= j < i ==> self.path@[j]@ == other.path@[j]@,
            decreases self.path.len() - i,
        {
            if self.path[i] != other.path[i] {
                assert(self@[i as int] != other@[i as int]);
                return false;
            }
            i = i + 1;
        }
        assert(self@ =~= other@);
        true
    }
}

/// An expression as contracts see it.
#[allow(inconsistent_fields)]
pub ghost enum ExprView {
    Literal(Datum),
    Column(ColumnPath),
    Struct(Seq<ExprView>),
    Unary { op: UnaryOperator, expr: Box<ExprView> },
    Binary { op: BinaryOperator, left: Box<ExprView>, right: Box<ExprView> },
    Variadic { op: VariadicOperator, exprs: Seq<ExprView> },
}

/// An expression over the columns of a record.
#[derive(Debug, Eq)]
#[allow(inconsistent_fields)]
pub enum Expr {
    /// A constant.
    Literal(Scalar),
    /// The value of a column.
    Column(ColumnName),
    /// A record built from the values of the operands.
    Struct(Vec<Expr>),
    UnaryOperation { op: UnaryOperator, expr: Box<Expr> },
    BinaryOperation { op: BinaryOperator, left: Box<Expr>, right: Box<Expr> },
    VariadicOperation { op: VariadicOperator, exprs: Vec<Expr> },
}

/// The views of a sequence of expressions, in order.
pub open spec fn views(exprs: Seq<Expr>) -> Seq<ExprView> {
    Seq::new(exprs.len(), |i: int| exprs[i]@)
}

impl Expr {
    /// The tree with each value replaced by its view.
    pub open spec fn model(&self) -> ExprView
        decreases self,
    {
        match self {
            Expr::Literal(value) => ExprView::Literal(value@),
            Expr::Column(name) => ExprView::Column(name@),
            Expr::Struct(exprs) => ExprView::Struct(
                Seq::new(
                    exprs@.len(),
                    |i: int|
                        if 0 <= i < exprs.len() {
                            exprs[i].model()
                        } else {
                            arbitrary()
                        },
                ),
            ),
            Expr::UnaryOperation { op, expr } => ExprView::Unary {
                op: *op,
                expr: Box::new(expr.model()),
            },
            Expr::BinaryOperation { op, left, right } => ExprView::Binary {
                op: *op,
                left: Box::new(left.model()),
                right: Box::new(right.model()),
            },
            Expr::VariadicOperation { op, exprs } => ExprView::Variadic {
                op: *op,
                exprs: Seq::new(
                    exprs@.len(),
                    |i: int|
                        if 0 <= i < exprs.len() {
                            exprs[i].model()
                        } else {
                            arbitrary()
                        },
                ),
            },
        }
    }
}

impl View for Expr {
    type V = ExprView;

    open spec fn view(&self) -> ExprView {
        self.model()
    }
}

/// The view of an expression with operands is made of the views of the
/// operands.
pub proof fn lemma_view_of_operands(e: Expr)
    ensures
        e matches Expr::Struct(exprs) ==> e@ == ExprView::Struct(views(exprs@)),
        e matches Expr::VariadicOperation { op, exprs } ==> e@ == (ExprView::Variadic {
            op,
            exprs: views(exprs@),
        }),
        e matches Expr::UnaryOperation { op, expr } ==> e@ == (ExprView::Unary {
            op,
            expr: Box::new(expr@),
        }),
        e matches Expr::BinaryOperation { op, left, right } ==> e@ == (ExprView::Binary {
            op,
            left: Box::new(left@),
            right: Box::new(right@),
        }),
{
    match e {
        Expr::Struct(exprs) => {
            assert(e@->Struct_0 =~= views(exprs@));
        },
        Expr::VariadicOperation { op, exprs } => {
            assert(e@->Variadic_exprs =~= views(exprs@));
        },
        _ => {},
    }
}

impl ExprView {
    /// Whether the column `path` occurs in the expression.
    pub open spec fn mentions(self, path: ColumnPath) -> bool
        decreases self,
    {
        match self {
            ExprView::Literal(_) => false,
            ExprView::Column(p) => p == path,
            ExprView::Struct(exprs) => exists|i: int|
                0 <= i < exprs.len() as int && (#[trigger] exprs[i]).mentions(path),
            ExprView::Unary { expr, .. } => expr.mentions(path),
            ExprView::Binary { left, right, .. } => left.mentions(path) || right.mentions(path),
            ExprView::Variadic { exprs, .. } => exists|i: int|
                0 <= i < exprs.len() as int && (#[trigger] exprs[i]).mentions(path),
        }
    }

    /// The columns that occur in the expression.
    pub open spec fn references(self) -> Set<ColumnPath> {
        Set::new(|path: ColumnPath| self.mentions(path))
    }

    /// `left op right`.
    pub open spec fn binary(op: BinaryOperator, left: ExprView, right: ExprView) -> ExprView {
        ExprView::Binary { op, left: Box::new(left), right: Box::new(right) }
    }

    /// `op expr`.
    pub open spec fn unary(op: UnaryOperator, expr: ExprView) -> ExprView {
        ExprView::Unary { op, expr: Box::new(expr) }
    }

    /// The negation of `expr`.
    pub open spec fn not(expr: ExprView) -> ExprView {
        ExprView::Unary { op: UnaryOperator::Not, expr: Box::new(expr) }
    }

    /// The conjunction of the operands.
    pub open spec fn and_from(exprs: Seq<ExprView>) -> ExprView {
        ExprView::Variadic { op: VariadicOperator::And, exprs }
    }

    /// The disjunction of the operands.
    pub open spec fn or_from(exprs: Seq<ExprView>) -> ExprView {
        ExprView::Variadic { op: VariadicOperator::Or, exprs }
    }
}

/// Whether one of the first `n` expressions mentions the column `path`.
pub open spec fn any_mentions(exprs: Seq<ExprView>, n: int, path: ColumnPath) -> bool {
    exists|i: int| 0 <= i < n && (#[trigger] exprs[i]).mentions(path)
}

/// The columns that occur in one of the first `n` expressions.
pub open spec fn references_of_first(exprs: Seq<ExprView>, n: int) -> Set<ColumnPath> {
    Set::new(|path: ColumnPath| any_mentions(exprs, n, path))
}

/// The columns of a record or of a connective are those of its operands.
pub proof fn lemma_references_of_operands(exprs: Seq<ExprView>)
    ensures
        ExprView::Struct(exprs).references() == references_of_first(exprs, exprs.len() as int),
        forall|op: VariadicOperator|
            #[trigger] (ExprView::Variadic { op, exprs }).references() == references_of_first(
                exprs,
                exprs.len() as int,
            ),
{
    let all = references_of_first(exprs, exprs.len() as int);
    let record = ExprView::Struct(exprs);
    assert(decreases_to!(record => record->Struct_0));
    assert(record.references() =~= all);
    assert forall|op: VariadicOperator|
        #[trigger] (ExprView::Variadic { op, exprs }).references() == all by {
        let e = ExprView::Variadic { op, exprs };
        assert(decreases_to!(e => e->Variadic_exprs));
        assert(e.references() =~= all);
    }
}

/// The paths of the names.
pub open spec fn paths_of(names: Seq<ColumnName>) -> Set<ColumnPath> {
    Set::new(|path: ColumnPath| names_contain(names, path))
}

/// Whether one of the names has the path `path`.
pub open spec fn names_contain(names: Seq<ColumnName>, path: ColumnPath) -> bool {
    exists|j: int| 0 <= j < names.len() && (#[trigger] names[j])@ == path
}

impl Expr {
    /// The constant `value`.
    pub fn literal(value: Scalar) -> (r: Expr)
        ensures
            r@ == ExprView::Literal(value@),
    {
        Expr::Literal(value)
    }

    /// The value of the column `name`.
    pub fn column(name: ColumnName) -> (r: Expr)
        ensures
            r@ == ExprView::Column(name@),
    {
        Expr::Column(name)
    }

    /// A record whose fields are the values of `exprs`, in order.
    pub fn struct_from(exprs: Vec<Expr>) -> (r: Expr)
        ensures
            r@ == ExprView::Struct(views(exprs@)),
    {
        let r = Expr::Struct(exprs);
        proof {
            lemma_view_of_operands(r);
        }
        r
    }

    /// `op expr`.
    pub fn unary(op: UnaryOperator, expr: Expr) -> (r: Expr)
        ensures
            r@ == ExprView::unary(op, expr@),
    {
        Expr::UnaryOperation { op, expr: Box::new(expr) }
    }

    /// `left op right`.
    pub fn binary(op: BinaryOperator, left: Expr, right: Expr) -> (r: Expr)
        ensures
            r@ == ExprView::binary(op, left@, right@),
    {
        Expr::BinaryOperation { op, left: Box::new(left), right: Box::new(right) }
    }

    /// The operands joined by `op`.
    pub fn variadic(op: VariadicOperator, exprs: Vec<Expr>) -> (r: Expr)
        ensures
            r@ == (ExprView::Variadic { op, exprs: views(exprs@) }),
    {
        let r = Expr::VariadicOperation { op, exprs };
        proof {
            lemma_view_of_operands(r);
        }
        r
    }

    /// The conjunction of the operands.
    pub fn and_from(exprs: Vec<Expr>) -> (r: Expr)
        ensures
            r@ == ExprView::and_from(views(exprs@)),
    {
        Expr::variadic(VariadicOperator::And, exprs)
    }

    /// The disjunction of the operands.
    pub fn or_from(exprs: Vec<Expr>) -> (r: Expr)
        ensures
            r@ == ExprView::or_from(views(exprs@)),
    {
        Expr::variadic(VariadicOperator::Or, exprs)
    }

    /// `self AND other`.
    pub fn and(self, other: Expr) -> (r: Expr)
        ensures
            r@ == ExprView::and_from(seq![self@, other@]),
    {
        let mut exprs: Vec<Expr> = Vec::new();
        exprs.push(self);
        exprs.push(other);
        assert(views(exprs@) =~= seq![self@, other@]);
        Expr::and_from(exprs)
    }

    /// `self OR other`.
    pub fn or(self, other: Expr) -> (r: Expr)
        ensures
            r@ == ExprView::or_from(seq![self@, other@]),
    {
        let mut exprs: Vec<Expr> = Vec::new();
        exprs.push(self);
        exprs.push(other);
        assert(views(exprs@) =~= seq![self@, other@]);
        Expr::or_from(exprs)
    }

    /// `NOT self`.
    pub fn not(self) -> (r: Expr)
        ensures
            r@ == ExprView::not(self@),
    {
        Expr::unary(UnaryOperator::Not, self)
    }

    /// `self IS NULL`.
    pub fn is_null(self) -> (r: Expr)
        ensures
            r@ == ExprView::unary(UnaryOperator::IsNull, self@),
    {
        Expr::unary(UnaryOperator::IsNull, self)
    }

    /// `self < other`.
    pub fn lt(self, other: Expr) -> (r: Expr)
        ensures
            r@ == ExprView::binary(BinaryOperator::LessThan, self@, other@),
    {
        Expr::binary(BinaryOperator::LessThan, self, other)
    }

    /// `self <= other`.
    pub fn le(self, other: Expr) -> (r: Expr)
        ensures
            r@ == ExprView::binary(BinaryOperator::LessThanOrEqual, self@, other@),
    {
        Expr::binary(BinaryOperator::LessThanOrEqual, self, other)
    }

    /// `self <= other`.
    pub fn lt_eq(self, other: Expr) -> (r: Expr)
        ensures
            r@ == ExprView::binary(BinaryOperator::LessThanOrEqual, self@, other@),
    {
        Expr::binary(BinaryOperator::LessThanOrEqual, self, other)
    }

    /// `self > other`.
    pub fn gt(self, other: Expr) -> (r: Expr)
        ensures
            r@ == ExprView::binary(BinaryOperator::GreaterThan, self@, other@),
    {
        Expr::binary(BinaryOperator::GreaterThan, self, other)
    }

    /// `self >= other`.
    pub fn ge(self, other: Expr) -> (r: Expr)
        ensures
            r@ == ExprView::binary(BinaryOperator::GreaterThanOrEqual, self@, other@),
    {
        Expr::binary(BinaryOperator::GreaterThanOrEqual, self, other)
    }

    /// `self >= other`.
    pub fn gt_eq(self, other: Expr) -> (r: Expr)
        ensures
            r@ == ExprView::binary(BinaryOperator::GreaterThanOrEqual, self@, other@),
    {
        Expr::binary(BinaryOperator::GreaterThanOrEqual, self, other)
    }

    /// `self = other`.
    pub fn eq(self, other: Expr) -> (r: Expr)
        ensures
            r@ == ExprView::binary(BinaryOperator::Equal, self@, other@),
    {
        Expr::binary(BinaryOperator::Equal, self, other)
    }

    /// `self != other`.
    pub fn ne(self, other: Expr) -> (r: Expr)
        ensures
            r@ == ExprView::binary(BinaryOperator::NotEqual, self@, other@),
    {
        Expr::binary(BinaryOperator::NotEqual, self, other)
    }

    /// `self IS DISTINCT FROM other`.
    pub fn distinct(self, other: Expr) -> (r: Expr)
        ensures
            r@ == ExprView::binary(BinaryOperator::Distinct, self@, other@),
    {
        Expr::binary(BinaryOperator::Distinct, self, other)
    }

    /// Whether the two trees are the same: structural equality.
    pub fn same_as(&self, other: &Expr) -> (r: bool)
        ensures
            r == (self@ == other@),
        decreases self,
    {
        proof {
            lemma_view_of_operands(*self);
            lemma_view_of_operands(*other);
        }
        match (self, other) {
            (Expr::Literal(a), Expr::Literal(b)) => a.same(b),
            (Expr::Column(a), Expr::Column(b)) => a.same_path(b),
            (Expr::Struct(a), Expr::Struct(b)) => Expr::same_all(a, b),
            (
                Expr::UnaryOperation { op: op_a, expr: a },
                Expr::UnaryOperation { op: op_b, expr: b },
            ) => *op_a == *op_b && a.same_as(b),
            (
                Expr::BinaryOperation { op: op_a, left: left_a, right: right_a },
                Expr::BinaryOperation { op: op_b, left: left_b, right: right_b },
            ) => *op_a == *op_b && left_a.same_as(left_b) && right_a.same_as(right_b),
            (
                Expr::VariadicOperation { op: op_a, exprs: a },
                Expr::VariadicOperation { op: op_b, exprs: b },
            ) => *op_a == *op_b && Expr::same_all(a, b),
            _ => false,
        }
    }

    /// Whether the two lists hold the same trees in the same order.
    fn same_all(a: &Vec<Expr>, b: &Vec<Expr>) -> (r: bool)
        ensures
            r == (views(a@) == views(b@)),
        decreases a,
    {
        if a.len() != b.len() {
            assert(views(a@).len() != views(b@).len());
            return false;
        }
        let mut k: usize = 0;
        while k < a.len()
            invariant
                k <= a.len(),
                a.len() == b.len(),
                forall|j: int| 0 <= j < k ==> a@[j]@ == b@[j]@,
            decreases a.len() - k,
        {
            if !a[k].same_as(&b[k]) {
                assert(views(a@)[k as int] != views(b@)[k as int]);
                return false;
            }
            k = k + 1;
        }
        assert(views(a@) =~= views(b@));
        true
    }

    /// A copy of the whole tree.
    pub fn duplicate(&self) -> (r: Expr)
        ensures
            r@ == self@,
        decreases self,
    {
        proof {
            lemma_view_of_operands(*self);
        }
        match self {
            Expr::Literal(value) => Expr::Literal(value.clone()),
            Expr::Column(name) => Expr::Column(name.clone()),
            Expr::Struct(exprs) => Expr::struct_from(Expr::duplicate_all(exprs)),
            Expr::UnaryOperation { op, expr } => Expr::unary(*op, expr.duplicate()),
            Expr::BinaryOperation { op, left, right } => Expr::binary(
                *op,
                left.duplicate(),
                right.duplicate(),
            ),
            Expr::VariadicOperation { op, exprs } => Expr::variadic(
                *op,
                Expr::duplicate_all(exprs),
            ),
        }
    }

    /// A copy of each of the trees, in order.
    fn duplicate_all(exprs: &Vec<Expr>) -> (r: Vec<Expr>)
        ensures
            views(r@) == views(exprs@),
        decreases exprs,
    {
        let mut copies: Vec<Expr> = Vec::new();
        let mut k: usize = 0;
        while k < exprs.len()
            invariant
                k <= exprs.len(),
                copies@.len() == k,
                forall|j: int| 0 <= j < k ==> copies@[j]@ == exprs@[j]@,
            decreases exprs.len() - k,
        {
            copies.push(exprs[k].duplicate());
            k = k + 1;
        }
        assert(views(copies@) =~= views(exprs@));
        copies
    }

    /// Appends to `found` the path of each column that occurs in the
    /// expression.
    pub fn collect_references(&self, found: &mut Vec<ColumnName>)
        ensures
            paths_of(final(found)@) == paths_of(old(found)@).union(self@.references()),
        decreases self,
    {
        proof {
            lemma_view_of_operands(*self);
        }
        let ghost before = found@;
        match self {
            Expr::Literal(_) => {
                assert(self@.references() =~= Set::empty());
            },
            Expr::Column(name) => {
                found.push(name.clone());
                assert forall|path: ColumnPath|
                    names_contain(found@, path) <==> names_contain(before, path)
                        || self@.mentions(path) by {
                    if names_contain(before, path) {
                        let j = choose|j: int|
                            0 <= j < before.len() && (#[trigger] before[j])@ == path;
                        assert(found@[j]@ == path);
                    }
                    if self@.mentions(path) {
                        assert(found@[before.len() as int]@ == path);
                    }
                }
            },
            Expr::Struct(exprs) => {
                Expr::collect_references_of_all(exprs, found);
                proof {
                    lemma_references_of_operands(views(exprs@));
                }
            },
            Expr::UnaryOperation { expr, .. } => {
                expr.collect_references(found);
                assert(self@.references() =~= expr@.references());
            },
            Expr::BinaryOperation { left, right, .. } => {
                left.collect_references(found);
                right.collect_references(found);
                assert(self@.references() =~= left@.references().union(right@.references()));
            },
            Expr::VariadicOperation { exprs, .. } => {
                Expr::collect_references_of_all(exprs, found);
                proof {
                    lemma_references_of_operands(views(exprs@));
                }
            },
        }
        assert(paths_of(found@) =~= paths_of(before).union(self@.references()));
    }

    /// Appends to `found` the path of each column that occurs in one of the
    /// expressions.
    fn collect_references_of_all(exprs: &Vec<Expr>, found: &mut Vec<ColumnName>)
        ensures
            paths_of(final(found)@) == paths_of(old(found)@).union(
                references_of_first(views(exprs@), exprs.len() as int),
            ),
        decreases exprs,
    {
        let mut k: usize = 0;
        assert(paths_of(found@) =~= paths_of(found@).union(
            references_of_first(views(exprs@), 0),
        ));
        while k < exprs.len()
            invariant
                k <= exprs.len(),
                paths_of(found@) == paths_of(old(found)@).union(
                    references_of_first(views(exprs@), k as int),
                ),
            decreases exprs.len() - k,
        {
            let ghost before = found@;
            exprs[k].collect_references(found);
            proof {
                let vs = views(exprs@);
                assert(vs[k as int] == exprs[k as int]@);
                assert forall|path: ColumnPath|
                    any_mentions(vs, k + 1, path) <==> any_mentions(vs, k as int, path)
                        || vs[k as int].mentions(path) by {
                    if any_mentions(vs, k + 1, path) {
                        let i = choose|i: int|
                            0 <= i < k + 1 && (#[trigger] vs[i]).mentions(path);
                        if i < k {
                            assert(any_mentions(vs, k as int, path));
                        }
                    }
                    if any_mentions(vs, k as int, path) {
                        let i = choose|i: int| 0 <= i < k && (#[trigger] vs[i]).mentions(path);
                        assert(0 <= i < k + 1 && vs[i].mentions(path));
                    }
                    if vs[k as int].mentions(path) {
                        assert(0 <= k < k + 1 && vs[k as int].mentions(path));
                    }
                }
                assert(references_of_first(vs, k + 1) =~= references_of_first(vs, k as int).union(
                    vs[k as int].references(),
                ));
                assert(paths_of(found@) =~= paths_of(old(found)@).union(
                    references_of_first(vs, k + 1),
                ));
            }
            k = k + 1;
        }
    }

    /// The path of each column that occurs in the expression; a path may
    /// come more than once.
    pub fn references(&self) -> (r: Vec<ColumnName>)
        ensures
            paths_of(r@) == self@.references(),
    {
        let mut found: Vec<ColumnName> = Vec::new();
        self.collect_references(&mut found);
        assert(paths_of(found@) =~= self@.references());
        found
    }
}

impl PartialEq for Expr {
    fn eq(&self, other: &Self) -> (r: bool) {
        self.same_as(other)
    }
}

impl PartialEqSpecImpl for Expr {
    open spec fn obeys_eq_spec() -> bool {
        true
    }

    open spec fn eq_spec(&self, other: &Self) -> bool {
        self@ == other@
    }
}

impl Clone for Expr {
    fn clone(&self) -> (r: Self)
        ensures
            r@ == self@,
    {
        self.duplicate()
    }
}

/// An immutable expression shared between its holders: a clone is another
/// handle on the same expression.
#[derive(Clone, Debug)]
pub struct SharedExpression {
    inner: std::sync::Arc<Expr>,
}

impl View for SharedExpression {
    type V = ExprView;

    closed spec fn view(&self) -> ExprView {
        (*self.inner)@
    }
}

impl SharedExpression {
    /// Puts an expression behind a shared handle.
    pub fn new(expr: Expr) -> (r: Self)
        ensures
            r@ == expr@,
    {
        SharedExpression { inner: std::sync::Arc::new(expr) }
    }

    /// The expression behind the handle.
    pub fn as_ref(&self) -> (r: &Expr)
        ensures
            r@ == self@,
    {
        &*self.inner
    }
}

} // verus!
