//! Comparison operators and the result of one comparison.

use vstd::prelude::*;

verus! {

/// The comparison bound to an assertion.
///
/// `Equal` and `NotEqual` are defined for operands of every kind. The
/// ordering and the bit-mask operators are defined for integers only.
/// `DoesNotExist` is no comparison of two operands: it belongs to optional
/// fields alone.
#[derive(Clone, Copy, Debug, PartialEq, Eq, Structural)]
pub enum Operator {
    Equal,
    NotEqual,
    GreaterThan,
    LessThan,
    GreaterThanOrEqual,
    LessThanOrEqual,
    /// Every bit of the expected value is set in the actual one.
    AllBitsSet,
    /// Some bit of the expected value is set in the actual one.
    AnyBitsSet,
    /// No bit of the expected value is set in the actual one.
    AllBitsClear,
    DoesNotExist,
}

/// The operators of operands that can only be told apart.
#[derive(Clone, Copy, Debug, PartialEq, Eq, Structural)]
pub enum EquatableOperator {
    Equal,
    NotEqual,
}

/// The operators of integer operands.
#[derive(Clone, Copy, Debug, PartialEq, Eq, Structural)]
pub enum IntegerOperator {
    Equal,
    NotEqual,
    GreaterThan,
    LessThan,
    GreaterThanOrEqual,
    LessThanOrEqual,
    AllBitsSet,
    AnyBitsSet,
    AllBitsClear,
}

/// What one comparison came to. `output` is empty unless a trace was asked
/// for, and never bears on `passed`.
#[derive(Clone, Debug, PartialEq, Eq)]
pub struct EvaluationResult {
    pub passed: bool,
    pub output: String,
}

#[verifier::ext_equal]
pub struct EvaluationResultView {
    pub passed: bool,
    pub output: Seq<char>,
}

impl View for EvaluationResult {
    type V = EvaluationResultView;

    open spec fn view(&self) -> EvaluationResultView {
        EvaluationResultView { passed: self.passed, output: self.output@ }
    }
}

impl Operator {
    /// Whether the operator is one of `Equal` and `NotEqual`.
    pub open spec fn spec_is_equatable(self) -> bool {
        self is Equal || self is NotEqual
    }

    pub fn is_equatable(&self) -> (b: bool)
        ensures
            b == self.spec_is_equatable(),
    {
        match self {
            Operator::Equal => true,
            Operator::NotEqual => true,
            _ => false,
        }
    }

    /// The operator's name, as it stands in diagnostics.
    pub open spec fn spec_name(self) -> Seq<char> {
        match self {
            Operator::Equal => "Equal"@,
            Operator::NotEqual => "NotEqual"@,
            Operator::GreaterThan => "GreaterThan"@,
            Operator::LessThan => "LessThan"@,
            Operator::GreaterThanOrEqual => "GreaterThanOrEqual"@,
            Operator::LessThanOrEqual => "LessThanOrEqual"@,
            Operator::AllBitsSet => "AllBitsSet"@,
            Operator::AnyBitsSet => "AnyBitsSet"@,
            Operator::AllBitsClear => "AllBitsClear"@,
            Operator::DoesNotExist => "DoesNotExist"@,
        }
    }

    pub fn name(&self) -> (text: &'static str)
        ensures
            text@ == self.spec_name(),
    {
        match self {
            Operator::Equal => "Equal",
            Operator::NotEqual => "NotEqual",
            Operator::GreaterThan => "GreaterThan",
            Operator::LessThan => "LessThan",
            Operator::GreaterThanOrEqual => "GreaterThanOrEqual",
            Operator::LessThanOrEqual => "LessThanOrEqual",
            Operator::AllBitsSet => "AllBitsSet",
            Operator::AnyBitsSet => "AnyBitsSet",
            Operator::AllBitsClear => "AllBitsClear",
            Operator::DoesNotExist => "DoesNotExist",
        }
    }

    /// What the operator decides of two operands of which only `same`, whether
    /// they are equal, is known. Only `Equal` and `NotEqual` can hold.
    pub open spec fn holds_equatable(self, same: bool) -> bool {
        match self {
            Operator::Equal => same,
            Operator::NotEqual => !same,
            _ => false,
        }
    }

    /// What the operator decides of two unsigned integers. The order is that
    /// of the numbers; the bit masks are taken on the binary digits.
    pub open spec fn holds_unsigned(self, actual: u128, expected: u128) -> bool {
        match self {
            Operator::Equal => actual == expected,
            Operator::NotEqual => actual != expected,
            Operator::GreaterThan => actual > expected,
            Operator::LessThan => actual < expected,
            Operator::GreaterThanOrEqual => actual >= expected,
            Operator::LessThanOrEqual => actual <= expected,
            Operator::AllBitsSet => actual & expected == expected,
            Operator::AnyBitsSet => actual & expected != 0,
            Operator::AllBitsClear => actual & expected == 0,
            Operator::DoesNotExist => false,
        }
    }

    /// What the operator decides of two signed integers. The order is that of
    /// the numbers; the bit masks are taken on the two's complement patterns.
    pub open spec fn holds_signed(self, actual: i128, expected: i128) -> bool {
        match self {
            Operator::Equal => actual == expected,
            Operator::NotEqual => actual != expected,
            Operator::GreaterThan => actual > expected,
            Operator::LessThan => actual < expected,
            Operator::GreaterThanOrEqual => actual >= expected,
            Operator::LessThanOrEqual => actual <= expected,
            Operator::AllBitsSet => actual & expected == expected,
            Operator::AnyBitsSet => actual & expected != 0,
            Operator::AllBitsClear => actual & expected == 0,
            Operator::DoesNotExist => false,
        }
    }

    /// Decides the operator on two operands of which only their equality
    /// matters.
    pub fn test_equatable(&self, same: bool) -> (passed: bool)
        ensures
            passed == self.holds_equatable(same),
    {
        match self {
            Operator::Equal => same,
            Operator::NotEqual => !same,
            _ => false,
        }
    }

    /// Decides the operator on two unsigned integers.
    pub fn test_unsigned(&self, actual: u128, expected: u128) -> (passed: bool)
        ensures
            passed == self.holds_unsigned(actual, expected),
    {
        match self {
            Operator::Equal => actual == expected,
            Operator::NotEqual => actual != expected,
            Operator::GreaterThan => actual > expected,
            Operator::LessThan => actual < expected,
            Operator::GreaterThanOrEqual => actual >= expected,
            Operator::LessThanOrEqual => actual <= expected,
            Operator::AllBitsSet => actual & expected == expected,
            Operator::AnyBitsSet => actual & expected != 0,
            Operator::AllBitsClear => actual & expected == 0,
            Operator::DoesNotExist => false,
        }
    }

    /// Decides the operator on two signed integers.
    pub fn test_signed(&self, actual: i128, expected: i128) -> (passed: bool)
        ensures
            passed == self.holds_signed(actual, expected),
    {
        match self {
            Operator::Equal => actual == expected,
            Operator::NotEqual => actual != expected,
            Operator::GreaterThan => actual > expected,
            Operator::LessThan => actual < expected,
            Operator::GreaterThanOrEqual => actual >= expected,
            Operator::LessThanOrEqual => actual <= expected,
            Operator::AllBitsSet => actual & expected == expected,
            Operator::AnyBitsSet => actual & expected != 0,
            Operator::AllBitsClear => actual & expected == 0,
            Operator::DoesNotExist => false,
        }
    }
}

impl EquatableOperator {
    pub open spec fn spec_to_operator(self) -> Operator {
        match self {
            EquatableOperator::Equal => Operator::Equal,
            EquatableOperator::NotEqual => Operator::NotEqual,
        }
    }

    /// The same operator among all operators. It is always an equatable one.
    pub fn to_operator(&self) -> (operator: Operator)
        ensures
            operator == self.spec_to_operator(),
            operator.spec_is_equatable(),
    {
        match self {
            EquatableOperator::Equal => Operator::Equal,
            EquatableOperator::NotEqual => Operator::NotEqual,
        }
    }
}

impl IntegerOperator {
    pub open spec fn spec_to_operator(self) -> Operator {
        match self {
            IntegerOperator::Equal => Operator::Equal,
            IntegerOperator::NotEqual => Operator::NotEqual,
            IntegerOperator::GreaterThan => Operator::GreaterThan,
            IntegerOperator::LessThan => Operator::LessThan,
            IntegerOperator::GreaterThanOrEqual => Operator::GreaterThanOrEqual,
            IntegerOperator::LessThanOrEqual => Operator::LessThanOrEqual,
            IntegerOperator::AllBitsSet => Operator::AllBitsSet,
            IntegerOperator::AnyBitsSet => Operator::AnyBitsSet,
            IntegerOperator::AllBitsClear => Operator::AllBitsClear,
        }
    }

    /// The same operator among all operators. It is never `DoesNotExist`.
    pub fn to_operator(&self) -> (operator: Operator)
        ensures
            operator == self.spec_to_operator(),
            !(operator is DoesNotExist),
    {
        match self {
            IntegerOperator::Equal => Operator::Equal,
            IntegerOperator::NotEqual => Operator::NotEqual,
            IntegerOperator::GreaterThan => Operator::GreaterThan,
            IntegerOperator::LessThan => Operator::LessThan,
            IntegerOperator::GreaterThanOrEqual => Operator::GreaterThanOrEqual,
            IntegerOperator::LessThanOrEqual => Operator::LessThanOrEqual,
            IntegerOperator::AllBitsSet => Operator::AllBitsSet,
            IntegerOperator::AnyBitsSet => Operator::AnyBitsSet,
            IntegerOperator::AllBitsClear => Operator::AllBitsClear,
        }
    }
}

} // verus!
