//! The operators of the expression language and their algebra: the operator
//! that swaps the operands of a comparison and the operator that negates it.

use vstd::prelude::*;

verus! {

/// An operator with one operand.
#[derive(Clone, Copy, Debug, PartialEq, Eq, Hash, Structural)]
pub enum UnaryOperator {
    /// Three-valued negation.
    Not,
    /// The test for NULL; its result is never NULL.
    IsNull,
}

/// An operator with two operands.
#[derive(Clone, Copy, Debug, PartialEq, Eq, Hash, Structural)]
pub enum BinaryOperator {
    Plus,
    Minus,
    Multiply,
    Divide,
    LessThan,
    LessThanOrEqual,
    GreaterThan,
    GreaterThanOrEqual,
    Equal,
    NotEqual,
    /// Inequality that treats NULL as a value: never NULL itself.
    Distinct,
    In,
    NotIn,
}

/// An operator with any number of operands.
#[derive(Clone, Copy, Debug, PartialEq, Eq, Hash, Structural)]
pub enum VariadicOperator {
    And,
    Or,
}

impl BinaryOperator {
    /// The operator `c` with `a op b == b c a`, where there is one.
    pub open spec fn commuted(self) -> Option<BinaryOperator> {
        match self {
            BinaryOperator::GreaterThan => Some(BinaryOperator::LessThan),
            BinaryOperator::GreaterThanOrEqual => Some(BinaryOperator::LessThanOrEqual),
            BinaryOperator::LessThan => Some(BinaryOperator::GreaterThan),
            BinaryOperator::LessThanOrEqual => Some(BinaryOperator::GreaterThanOrEqual),
            BinaryOperator::Equal
            | BinaryOperator::NotEqual
            | BinaryOperator::Distinct
            | BinaryOperator::Plus
            | BinaryOperator::Multiply => Some(self),
            BinaryOperator::In
            | BinaryOperator::NotIn
            | BinaryOperator::Minus
            | BinaryOperator::Divide => None,
        }
    }

    /// The operator `n` with `a op b == !(a n b)` on operands that are not
    /// NULL, where there is one.
    pub open spec fn inverted(self) -> Option<BinaryOperator> {
        match self {
            BinaryOperator::LessThan => Some(BinaryOperator::GreaterThanOrEqual),
            BinaryOperator::LessThanOrEqual => Some(BinaryOperator::GreaterThan),
            BinaryOperator::GreaterThan => Some(BinaryOperator::LessThanOrEqual),
            BinaryOperator::GreaterThanOrEqual => Some(BinaryOperator::LessThan),
            BinaryOperator::Equal => Some(BinaryOperator::NotEqual),
            BinaryOperator::NotEqual => Some(BinaryOperator::Equal),
            BinaryOperator::In => Some(BinaryOperator::NotIn),
            BinaryOperator::NotIn => Some(BinaryOperator::In),
            _ => None,
        }
    }

    /// Whether the operator is one of the six ordering and equality tests.
    pub open spec fn is_comparison(self) -> bool {
        self is LessThan || self is LessThanOrEqual || self is GreaterThan
            || self is GreaterThanOrEqual || self is Equal || self is NotEqual
    }

    /// Swaps the operands: `Some(c)` with `a op b == b c a`, or `None` where
    /// the operator has no such counterpart.
    pub fn commute(&self) -> (r: Option<BinaryOperator>)
        ensures
            r == self.commuted(),
    {
        match self {
            BinaryOperator::GreaterThan => Some(BinaryOperator::LessThan),
            BinaryOperator::GreaterThanOrEqual => Some(BinaryOperator::LessThanOrEqual),
            BinaryOperator::LessThan => Some(BinaryOperator::GreaterThan),
            BinaryOperator::LessThanOrEqual => Some(BinaryOperator::GreaterThanOrEqual),
            BinaryOperator::Equal => Some(BinaryOperator::Equal),
            BinaryOperator::NotEqual => Some(BinaryOperator::NotEqual),
            BinaryOperator::Distinct => Some(BinaryOperator::Distinct),
            BinaryOperator::Plus => Some(BinaryOperator::Plus),
            BinaryOperator::Multiply => Some(BinaryOperator::Multiply),
            BinaryOperator::In => None,
            BinaryOperator::NotIn => None,
            BinaryOperator::Minus => None,
            BinaryOperator::Divide => None,
        }
    }

    /// Negates the operator: `Some(n)` with `a op b == !(a n b)`, or `None`
    /// where the operator has no such counterpart.
    pub fn invert(&self) -> (r: Option<BinaryOperator>)
        ensures
            r == self.inverted(),
    {
        match self {
            BinaryOperator::LessThan => Some(BinaryOperator::GreaterThanOrEqual),
            BinaryOperator::LessThanOrEqual => Some(BinaryOperator::GreaterThan),
            BinaryOperator::GreaterThan => Some(BinaryOperator::LessThanOrEqual),
            BinaryOperator::GreaterThanOrEqual => Some(BinaryOperator::LessThan),
            BinaryOperator::Equal => Some(BinaryOperator::NotEqual),
            BinaryOperator::NotEqual => Some(BinaryOperator::Equal),
            BinaryOperator::In => Some(BinaryOperator::NotIn),
            BinaryOperator::NotIn => Some(BinaryOperator::In),
            _ => None,
        }
    }
}

impl VariadicOperator {
    /// The connective that De Morgan's laws exchange this one with.
    pub open spec fn inverted(self) -> VariadicOperator {
        match self {
            VariadicOperator::And => VariadicOperator::Or,
            VariadicOperator::Or => VariadicOperator::And,
        }
    }

    /// The dual connective: `And` for `Or` and `Or` for `And`.
    pub fn invert(&self) -> (r: VariadicOperator)
        ensures
            r == self.inverted(),
    {
        match self {
            VariadicOperator::And => VariadicOperator::Or,
            VariadicOperator::Or => VariadicOperator::And,
        }
    }
}

/// Commuting twice, and inverting twice, gives the operator back.
pub proof fn lemma_operator_involutions(op: BinaryOperator)
    ensures
        op.commuted() matches Some(c) ==> c.commuted() == Some(op),
        op.inverted() matches Some(n) ==> n.inverted() == Some(op),
        op.is_comparison() ==> op.commuted() is Some && op.inverted() is Some,
{
}

} // verus!
