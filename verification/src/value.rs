//! Typed values: what a range of bytes is read as, and how two of them are
//! compared.

use vstd::prelude::*;
use vstd::string::*;
use crate::bytes::{
    bytes_equal, copy_range, le_u128, le_u16, le_u32, le_u64, read_array32, read_u128, read_u16,
    read_u32, read_u64, twos_complement,
};
use crate::error::EngineError;
use crate::operator::{EvaluationResult, EvaluationResultView, Operator};
use crate::solana::{base58_text, push_pubkey, Pubkey};
use crate::text::{
    bool_text, byte_list_text, decimal_text, push_bool, push_byte_list, push_decimal,
    push_signed_decimal, signed_decimal_text,
};

verus! {

/// The kind of a value: how many bytes it takes and how they are read.
#[derive(Clone, Copy, Debug, PartialEq, Eq, Structural)]
pub enum DataKind {
    U8,
    U16,
    U32,
    U64,
    U128,
    I8,
    I16,
    I32,
    I64,
    I128,
    Bool,
    Bytes32,
    Pubkey,
    /// Raw bytes, as many as the number says.
    Bytes(usize),
}

/// A typed scalar: the literal operand of an assertion, or what was read
/// from a buffer to be held against it.
#[derive(Clone, Debug, PartialEq, Eq)]
pub enum DataValue {
    U8(u8),
    U16(u16),
    U32(u32),
    U64(u64),
    U128(u128),
    I8(i8),
    I16(i16),
    I32(i32),
    I64(i64),
    I128(i128),
    Bool(bool),
    Bytes32([u8; 32]),
    Pubkey(Pubkey),
    Bytes(Vec<u8>),
}

/// The mathematical value of a `DataValue`: byte strings as sequences.
#[verifier::ext_equal]
pub enum DataValueView {
    U8(u8),
    U16(u16),
    U32(u32),
    U64(u64),
    U128(u128),
    I8(i8),
    I16(i16),
    I32(i32),
    I64(i64),
    I128(i128),
    Bool(bool),
    Bytes32(Seq<u8>),
    Pubkey(Seq<u8>),
    Bytes(Seq<u8>),
}

impl View for DataValue {
    type V = DataValueView;

    open spec fn view(&self) -> DataValueView {
        match self {
            DataValue::U8(x) => DataValueView::U8(*x),
            DataValue::U16(x) => DataValueView::U16(*x),
            DataValue::U32(x) => DataValueView::U32(*x),
            DataValue::U64(x) => DataValueView::U64(*x),
            DataValue::U128(x) => DataValueView::U128(*x),
            DataValue::I8(x) => DataValueView::I8(*x),
            DataValue::I16(x) => DataValueView::I16(*x),
            DataValue::I32(x) => DataValueView::I32(*x),
            DataValue::I64(x) => DataValueView::I64(*x),
            DataValue::I128(x) => DataValueView::I128(*x),
            DataValue::Bool(x) => DataValueView::Bool(*x),
            DataValue::Bytes32(x) => DataValueView::Bytes32(x@),
            DataValue::Pubkey(x) => DataValueView::Pubkey(x@),
            DataValue::Bytes(x) => DataValueView::Bytes(x@),
        }
    }
}

impl DataKind {
    /// The number of bytes a value of this kind takes in a buffer.
    pub open spec fn spec_width(self) -> nat {
        match self {
            DataKind::U8 => 1,
            DataKind::U16 => 2,
            DataKind::U32 => 4,
            DataKind::U64 => 8,
            DataKind::U128 => 16,
            DataKind::I8 => 1,
            DataKind::I16 => 2,
            DataKind::I32 => 4,
            DataKind::I64 => 8,
            DataKind::I128 => 16,
            DataKind::Bool => 1,
            DataKind::Bytes32 => 32,
            DataKind::Pubkey => 32,
            DataKind::Bytes(len) => len as nat,
        }
    }

    pub fn width(&self) -> (w: usize)
        ensures
            w == self.spec_width(),
    {
        match self {
            DataKind::U8 => 1,
            DataKind::U16 => 2,
            DataKind::U32 => 4,
            DataKind::U64 => 8,
            DataKind::U128 => 16,
            DataKind::I8 => 1,
            DataKind::I16 => 2,
            DataKind::I32 => 4,
            DataKind::I64 => 8,
            DataKind::I128 => 16,
            DataKind::Bool => 1,
            DataKind::Bytes32 => 32,
            DataKind::Pubkey => 32,
            DataKind::Bytes(len) => *len,
        }
    }

    /// Whether values of this kind are integers.
    pub open spec fn spec_is_integer(self) -> bool {
        match self {
            DataKind::Bool => false,
            DataKind::Bytes32 => false,
            DataKind::Pubkey => false,
            DataKind::Bytes(_) => false,
            _ => true,
        }
    }

    pub fn is_integer(&self) -> (b: bool)
        ensures
            b == self.spec_is_integer(),
    {
        match self {
            DataKind::Bool => false,
            DataKind::Bytes32 => false,
            DataKind::Pubkey => false,
            DataKind::Bytes(_) => false,
            _ => true,
        }
    }
}

impl Operator {
    /// Whether the operator is defined for operands of `kind`: every
    /// operator but `DoesNotExist` for integers, `Equal` and `NotEqual` for
    /// the rest.
    pub open spec fn spec_supports(self, kind: DataKind) -> bool {
        if kind.spec_is_integer() {
            !(self is DoesNotExist)
        } else {
            self.spec_is_equatable()
        }
    }

    pub fn supports(&self, kind: &DataKind) -> (b: bool)
        ensures
            b == self.spec_supports(*kind),
    {
        if kind.is_integer() {
            match self {
                Operator::DoesNotExist => false,
                _ => true,
            }
        } else {
            self.is_equatable()
        }
    }
}

impl DataValueView {
    pub open spec fn kind(self) -> DataKind {
        match self {
            DataValueView::U8(_) => DataKind::U8,
            DataValueView::U16(_) => DataKind::U16,
            DataValueView::U32(_) => DataKind::U32,
            DataValueView::U64(_) => DataKind::U64,
            DataValueView::U128(_) => DataKind::U128,
            DataValueView::I8(_) => DataKind::I8,
            DataValueView::I16(_) => DataKind::I16,
            DataValueView::I32(_) => DataKind::I32,
            DataValueView::I64(_) => DataKind::I64,
            DataValueView::I128(_) => DataKind::I128,
            DataValueView::Bool(_) => DataKind::Bool,
            DataValueView::Bytes32(_) => DataKind::Bytes32,
            DataValueView::Pubkey(_) => DataKind::Pubkey,
            DataValueView::Bytes(b) => DataKind::Bytes(b.len() as usize),
        }
    }

    /// The value as it stands in diagnostics: the kind's name and, in round
    /// brackets, a number in decimal, `true` or `false`, an address in base
    /// 58, or a list of bytes.
    pub open spec fn text(self) -> Seq<char> {
        match self {
            DataValueView::U8(x) => "U8("@ + decimal_text(x as nat) + ")"@,
            DataValueView::U16(x) => "U16("@ + decimal_text(x as nat) + ")"@,
            DataValueView::U32(x) => "U32("@ + decimal_text(x as nat) + ")"@,
            DataValueView::U64(x) => "U64("@ + decimal_text(x as nat) + ")"@,
            DataValueView::U128(x) => "U128("@ + decimal_text(x as nat) + ")"@,
            DataValueView::I8(x) => "I8("@ + signed_decimal_text(x as int) + ")"@,
            DataValueView::I16(x) => "I16("@ + signed_decimal_text(x as int) + ")"@,
            DataValueView::I32(x) => "I32("@ + signed_decimal_text(x as int) + ")"@,
            DataValueView::I64(x) => "I64("@ + signed_decimal_text(x as int) + ")"@,
            DataValueView::I128(x) => "I128("@ + signed_decimal_text(x as int) + ")"@,
            DataValueView::Bool(x) => "Bool("@ + bool_text(x) + ")"@,
            DataValueView::Bytes32(x) => "Bytes32("@ + byte_list_text(x) + ")"@,
            DataValueView::Pubkey(x) => "Pubkey("@ + base58_text(x) + ")"@,
            DataValueView::Bytes(x) => "Bytes("@ + byte_list_text(x) + ")"@,
        }
    }
}

/// What is read at `offset` of `buffer` as a value of `kind`: integers low
/// byte first, signed ones in two's complement; a boolean as whether its byte
/// is not zero; byte strings as they stand.
pub open spec fn decode_spec(buffer: Seq<u8>, offset: int, kind: DataKind) -> DataValueView {
    match kind {
        DataKind::U8 => DataValueView::U8(buffer[offset]),
        DataKind::U16 => DataValueView::U16(le_u16(buffer, offset) as u16),
        DataKind::U32 => DataValueView::U32(le_u32(buffer, offset) as u32),
        DataKind::U64 => DataValueView::U64(le_u64(buffer, offset) as u64),
        DataKind::U128 => DataValueView::U128(le_u128(buffer, offset) as u128),
        DataKind::I8 => DataValueView::I8(twos_complement(buffer[offset] as int, 0x100) as i8),
        DataKind::I16 => DataValueView::I16(
            twos_complement(le_u16(buffer, offset), 0x1_0000) as i16,
        ),
        DataKind::I32 => DataValueView::I32(
            twos_complement(le_u32(buffer, offset), 0x1_0000_0000) as i32,
        ),
        DataKind::I64 => DataValueView::I64(
            twos_complement(le_u64(buffer, offset), 0x1_0000_0000_0000_0000) as i64,
        ),
        DataKind::I128 => DataValueView::I128(
            twos_complement(
                le_u128(buffer, offset),
                0x1_0000_0000_0000_0000_0000_0000_0000_0000int,
            ) as i128,
        ),
        DataKind::Bool => DataValueView::Bool(buffer[offset] != 0),
        DataKind::Bytes32 => DataValueView::Bytes32(buffer.subrange(offset, offset + 32)),
        DataKind::Pubkey => DataValueView::Pubkey(buffer.subrange(offset, offset + 32)),
        DataKind::Bytes(len) => DataValueView::Bytes(buffer.subrange(offset, offset + len)),
    }
}

/// Whether `operator` holds of `actual` and `expected`. Of operands of
/// different kinds, and of an operator that is not defined for their kind,
/// nothing holds.
pub open spec fn holds_spec(operator: Operator, actual: DataValueView, expected: DataValueView) -> bool {
    match (actual, expected) {
        (DataValueView::U8(x), DataValueView::U8(y)) => operator.holds_unsigned(
            x as u128,
            y as u128,
        ),
        (DataValueView::U16(x), DataValueView::U16(y)) => operator.holds_unsigned(
            x as u128,
            y as u128,
        ),
        (DataValueView::U32(x), DataValueView::U32(y)) => operator.holds_unsigned(
            x as u128,
            y as u128,
        ),
        (DataValueView::U64(x), DataValueView::U64(y)) => operator.holds_unsigned(
            x as u128,
            y as u128,
        ),
        (DataValueView::U128(x), DataValueView::U128(y)) => operator.holds_unsigned(x, y),
        (DataValueView::I8(x), DataValueView::I8(y)) => operator.holds_signed(
            x as i128,
            y as i128,
        ),
        (DataValueView::I16(x), DataValueView::I16(y)) => operator.holds_signed(
            x as i128,
            y as i128,
        ),
        (DataValueView::I32(x), DataValueView::I32(y)) => operator.holds_signed(
            x as i128,
            y as i128,
        ),
        (DataValueView::I64(x), DataValueView::I64(y)) => operator.holds_signed(
            x as i128,
            y as i128,
        ),
        (DataValueView::I128(x), DataValueView::I128(y)) => operator.holds_signed(x, y),
        (DataValueView::Bool(x), DataValueView::Bool(y)) => operator.holds_equatable(x == y),
        (DataValueView::Bytes32(x), DataValueView::Bytes32(y)) => operator.holds_equatable(x == y),
        (DataValueView::Pubkey(x), DataValueView::Pubkey(y)) => operator.holds_equatable(x == y),
        (DataValueView::Bytes(x), DataValueView::Bytes(y)) => operator.holds_equatable(x == y),
        _ => false,
    }
}

/// The line that tells of one comparison.
pub open spec fn comparison_text(
    actual: DataValueView,
    operator: Operator,
    expected: DataValueView,
) -> Seq<char> {
    "actual="@ + actual.text() + " "@ + operator.spec_name() + " expected="@ + expected.text()
}

/// The result of comparing `actual` with `expected`: whether the operator
/// holds and, if a trace is asked for, the line that tells of it.
pub open spec fn compare_spec(
    actual: DataValueView,
    expected: DataValueView,
    operator: Operator,
    include_output: bool,
) -> EvaluationResultView {
    EvaluationResultView {
        passed: holds_spec(operator, actual, expected),
        output: if include_output {
            comparison_text(actual, operator, expected)
        } else {
            Seq::<char>::empty()
        },
    }
}

/// What evaluating the literal `expected` against `buffer` at `offset` comes
/// to: a type fault if the operator is not defined for the literal's kind,
/// else a range fault if the value would reach past the buffer's end, else
/// the comparison of what is read with the literal.
pub open spec fn evaluate_at_spec(
    expected: DataValueView,
    buffer: Seq<u8>,
    offset: int,
    operator: Operator,
    include_output: bool,
) -> Result<EvaluationResultView, EngineError> {
    if !operator.spec_supports(expected.kind()) {
        Err(EngineError::TypeMismatch)
    } else if offset + expected.kind().spec_width() > buffer.len() {
        Err(EngineError::OutOfRange)
    } else {
        Ok(
            compare_spec(
                decode_spec(buffer, offset, expected.kind()),
                expected,
                operator,
                include_output,
            ),
        )
    }
}

/// The model of the result of an evaluation.
pub open spec fn result_view(r: Result<EvaluationResult, EngineError>) -> Result<
    EvaluationResultView,
    EngineError,
> {
    match r {
        Ok(v) => Ok(v@),
        Err(e) => Err(e),
    }
}

impl DataValue {
    pub fn kind(&self) -> (k: DataKind)
        ensures
            k == self@.kind(),
    {
        match self {
            DataValue::U8(_) => DataKind::U8,
            DataValue::U16(_) => DataKind::U16,
            DataValue::U32(_) => DataKind::U32,
            DataValue::U64(_) => DataKind::U64,
            DataValue::U128(_) => DataKind::U128,
            DataValue::I8(_) => DataKind::I8,
            DataValue::I16(_) => DataKind::I16,
            DataValue::I32(_) => DataKind::I32,
            DataValue::I64(_) => DataKind::I64,
            DataValue::I128(_) => DataKind::I128,
            DataValue::Bool(_) => DataKind::Bool,
            DataValue::Bytes32(_) => DataKind::Bytes32,
            DataValue::Pubkey(_) => DataKind::Pubkey,
            DataValue::Bytes(b) => DataKind::Bytes(b.len()),
        }
    }

    /// Appends the value's text to `out`.
    pub fn push_text(&self, out: &mut String)
        ensures
            final(out)@ == old(out)@ + self@.text(),
    {
        match self {
            DataValue::U8(x) => {
                out.append("U8(");
                push_decimal(out, *x as u128);
            },
            DataValue::U16(x) => {
                out.append("U16(");
                push_decimal(out, *x as u128);
            },
            DataValue::U32(x) => {
                out.append("U32(");
                push_decimal(out, *x as u128);
            },
            DataValue::U64(x) => {
                out.append("U64(");
                push_decimal(out, *x as u128);
            },
            DataValue::U128(x) => {
                out.append("U128(");
                push_decimal(out, *x);
            },
            DataValue::I8(x) => {
                out.append("I8(");
                push_signed_decimal(out, *x as i128);
            },
            DataValue::I16(x) => {
                out.append("I16(");
                push_signed_decimal(out, *x as i128);
            },
            DataValue::I32(x) => {
                out.append("I32(");
                push_signed_decimal(out, *x as i128);
            },
            DataValue::I64(x) => {
                out.append("I64(");
                push_signed_decimal(out, *x as i128);
            },
            DataValue::I128(x) => {
                out.append("I128(");
                push_signed_decimal(out, *x);
            },
            DataValue::Bool(x) => {
                out.append("Bool(");
                push_bool(out, *x);
            },
            DataValue::Bytes32(x) => {
                out.append("Bytes32(");
                push_byte_list(out, x.as_slice());
            },
            DataValue::Pubkey(x) => {
                out.append("Pubkey(");
                push_pubkey(out, x);
            },
            DataValue::Bytes(x) => {
                out.append("Bytes(");
                push_byte_list(out, x.as_slice());
            },
        }
        out.append(")");
    }

    /// Reads a value of `kind` at `offset` of `buffer`. The read fails, with
    /// `OutOfRange`, exactly when the value would reach past the buffer's
    /// end.
    pub fn decode(buffer: &[u8], offset: usize, kind: DataKind) -> (r: Result<
        DataValue,
        EngineError,
    >)
        ensures
            match r {
                Ok(v) => offset + kind.spec_width() <= buffer@.len() && v@ == decode_spec(
                    buffer@,
                    offset as int,
                    kind,
                ),
                Err(e) => e == EngineError::OutOfRange && offset + kind.spec_width()
                    > buffer@.len(),
            },
    {
        let width = kind.width();
        if offset > buffer.len() || width > buffer.len() - offset {
            return Err(EngineError::OutOfRange);
        }
        let value = match kind {
            DataKind::U8 => DataValue::U8(buffer[offset]),
            DataKind::U16 => DataValue::U16(read_u16(buffer, offset)),
            DataKind::U32 => DataValue::U32(read_u32(buffer, offset)),
            DataKind::U64 => DataValue::U64(read_u64(buffer, offset)),
            DataKind::U128 => DataValue::U128(read_u128(buffer, offset)),
            DataKind::I8 => {
                let u: u8 = buffer[offset];
                if u < 0x80 {
                    DataValue::I8(u as i8)
                } else {
                    DataValue::I8((u - 0x80) as i8 + i8::MIN)
                }
            },
            DataKind::I16 => {
                let u: u16 = read_u16(buffer, offset);
                if u < 0x8000 {
                    DataValue::I16(u as i16)
                } else {
                    DataValue::I16((u - 0x8000) as i16 + i16::MIN)
                }
            },
            DataKind::I32 => {
                let u: u32 = read_u32(buffer, offset);
                if u < 0x8000_0000 {
                    DataValue::I32(u as i32)
                } else {
                    DataValue::I32((u - 0x8000_0000) as i32 + i32::MIN)
                }
            },
            DataKind::I64 => {
                let u: u64 = read_u64(buffer, offset);
                if u < 0x8000_0000_0000_0000 {
                    DataValue::I64(u as i64)
                } else {
                    DataValue::I64((u - 0x8000_0000_0000_0000) as i64 + i64::MIN)
                }
            },
            DataKind::I128 => {
                let u: u128 = read_u128(buffer, offset);
                if u < 0x8000_0000_0000_0000_0000_0000_0000_0000 {
                    DataValue::I128(u as i128)
                } else {
                    DataValue::I128(
                        (u - 0x8000_0000_0000_0000_0000_0000_0000_0000) as i128 + i128::MIN,
                    )
                }
            },
            DataKind::Bool => DataValue::Bool(buffer[offset] != 0),
            DataKind::Bytes32 => DataValue::Bytes32(read_array32(buffer, offset)),
            DataKind::Pubkey => DataValue::Pubkey(read_array32(buffer, offset)),
            DataKind::Bytes(len) => DataValue::Bytes(copy_range(buffer, offset, len)),
        };
        Ok(value)
    }

    /// Compares `self`, the value found, with `other`, the value expected.
    /// The two must be of one kind, and the operator defined for it.
    pub fn compare(&self, other: &DataValue, operator: &Operator, include_output: bool) -> (r:
        EvaluationResult)
        requires
            self@.kind() == other@.kind(),
            operator.spec_supports(self@.kind()),
        ensures
            r@ == compare_spec(self@, other@, *operator, include_output),
    {
        let passed = match (self, other) {
            (DataValue::U8(x), DataValue::U8(y)) => operator.test_unsigned(
                *x as u128,
                *y as u128,
            ),
            (DataValue::U16(x), DataValue::U16(y)) => operator.test_unsigned(
                *x as u128,
                *y as u128,
            ),
            (DataValue::U32(x), DataValue::U32(y)) => operator.test_unsigned(
                *x as u128,
                *y as u128,
            ),
            (DataValue::U64(x), DataValue::U64(y)) => operator.test_unsigned(
                *x as u128,
                *y as u128,
            ),
            (DataValue::U128(x), DataValue::U128(y)) => operator.test_unsigned(*x, *y),
            (DataValue::I8(x), DataValue::I8(y)) => operator.test_signed(*x as i128, *y as i128),
            (DataValue::I16(x), DataValue::I16(y)) => operator.test_signed(
                *x as i128,
                *y as i128,
            ),
            (DataValue::I32(x), DataValue::I32(y)) => operator.test_signed(
                *x as i128,
                *y as i128,
            ),
            (DataValue::I64(x), DataValue::I64(y)) => operator.test_signed(
                *x as i128,
                *y as i128,
            ),
            (DataValue::I128(x), DataValue::I128(y)) => operator.test_signed(*x, *y),
            (DataValue::Bool(x), DataValue::Bool(y)) => operator.test_equatable(*x == *y),
            (DataValue::Bytes32(x), DataValue::Bytes32(y)) => operator.test_equatable(
                bytes_equal(x.as_slice(), y.as_slice()),
            ),
            (DataValue::Pubkey(x), DataValue::Pubkey(y)) => operator.test_equatable(
                bytes_equal(x.as_slice(), y.as_slice()),
            ),
            (DataValue::Bytes(x), DataValue::Bytes(y)) => operator.test_equatable(
                bytes_equal(x.as_slice(), y.as_slice()),
            ),
            _ => false,
        };
        let mut output = String::new();
        if include_output {
            output.append("actual=");
            self.push_text(&mut output);
            output.append(" ");
            output.append(operator.name());
            output.append(" expected=");
            other.push_text(&mut output);
        }
        let r = EvaluationResult { passed, output };
        assert(r@ =~= compare_spec(self@, other@, *operator, include_output));
        r
    }

    /// Reads at `offset` of `data` a value of the kind of `self`, the
    /// literal, and compares it with `self`.
    pub fn evaluate_from_data_slice(
        &self,
        data: &[u8],
        offset: usize,
        operator: &Operator,
        include_output: bool,
    ) -> (r: Result<EvaluationResult, EngineError>)
        ensures
            result_view(r) == evaluate_at_spec(
                self@,
                data@,
                offset as int,
                *operator,
                include_output,
            ),
    {
        let kind = self.kind();
        if !operator.supports(&kind) {
            return Err(EngineError::TypeMismatch);
        }
        match DataValue::decode(data, offset, kind) {
            Err(e) => Err(e),
            Ok(actual) => Ok(actual.compare(self, operator, include_output)),
        }
    }
}

impl Operator {
    /// Compares `actual` with `expected`. A type fault exactly when the two
    /// are of different kinds or the operator is not defined for their kind.
    pub fn evaluate(&self, actual: &DataValue, expected: &DataValue, include_output: bool) -> (r:
        Result<EvaluationResult, EngineError>)
        ensures
            result_view(r) == (if actual@.kind() == expected@.kind() && self.spec_supports(
                actual@.kind(),
            ) {
                Ok(compare_spec(actual@, expected@, *self, include_output))
            } else {
                Err(EngineError::TypeMismatch)
            }),
    {
        let kind = actual.kind();
        if kind != expected.kind() || !self.supports(&kind) {
            return Err(EngineError::TypeMismatch);
        }
        Ok(actual.compare(expected, self, include_output))
    }
}

/// `Equal` holds of every value and itself.
pub proof fn lemma_equal_is_reflexive(value: DataValueView)
    ensures
        holds_spec(Operator::Equal, value, value),
{
}

/// Of two values of one kind, `NotEqual` holds exactly when `Equal` does
/// not.
pub proof fn lemma_not_equal_is_complement(actual: DataValueView, expected: DataValueView)
    requires
        actual.kind() == expected.kind(),
    ensures
        holds_spec(Operator::NotEqual, actual, expected) == !holds_spec(
            Operator::Equal,
            actual,
            expected,
        ),
{
}

} // verus!
