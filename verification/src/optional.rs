//! Optional values: how an account's layout marks one, and how two are
//! compared.

use vstd::prelude::*;
use vstd::string::*;
use crate::bytes::{le_u32, read_u32};
use crate::error::EngineError;
use crate::operator::{EvaluationResult, EvaluationResultView, Operator};
use crate::value::{decode_spec, holds_spec, result_view, DataKind, DataValue, DataValueView};

verus! {

/// The number of bytes of the mark that stands before an optional value.
pub const COPTION_TAG_WIDTH: usize = 4;

/// What is read at `pos` of `buffer` as an optional value of `kind`: four
/// bytes, low byte first, that hold 0 for an absent value and 1 for a
/// present one, which follows them. Any other mark is malformed.
pub open spec fn unpack_coption_spec(buffer: Seq<u8>, pos: int, kind: DataKind) -> Result<
    Option<DataValueView>,
    EngineError,
> {
    if le_u32(buffer, pos) == 0 {
        Ok(None)
    } else if le_u32(buffer, pos) == 1 {
        Ok(Some(decode_spec(buffer, pos + 4, kind)))
    } else {
        Err(EngineError::MalformedEncoding)
    }
}

pub open spec fn option_view(value: Option<DataValue>) -> Option<DataValueView> {
    match value {
        Some(v) => Some(v@),
        None => None,
    }
}

pub open spec fn optional_result_view(r: Result<Option<DataValue>, EngineError>) -> Result<
    Option<DataValueView>,
    EngineError,
> {
    match r {
        Ok(v) => Ok(option_view(v)),
        Err(e) => Err(e),
    }
}

/// An optional value as it stands in diagnostics.
pub open spec fn optional_text(value: Option<DataValueView>) -> Seq<char> {
    match value {
        Some(v) => "Some("@ + v.text() + ")"@,
        None => "None"@,
    }
}

/// The result of comparing two optional values, which can only be told
/// apart: a type fault unless the operator is `Equal` or `NotEqual`.
pub open spec fn compare_optional_spec(
    actual: Option<DataValueView>,
    expected: Option<DataValueView>,
    operator: Operator,
    include_output: bool,
) -> Result<EvaluationResultView, EngineError> {
    if !operator.spec_is_equatable() {
        Err(EngineError::TypeMismatch)
    } else {
        Ok(
            EvaluationResultView {
                passed: operator.holds_equatable(actual == expected),
                output: if include_output {
                    "actual="@ + optional_text(actual) + " "@ + operator.spec_name()
                        + " expected="@ + optional_text(expected)
                } else {
                    Seq::<char>::empty()
                },
            },
        )
    }
}

/// Reads the optional value of `kind` at `pos` of `data`.
pub fn unpack_coption(data: &[u8], pos: usize, kind: DataKind) -> (r: Result<
    Option<DataValue>,
    EngineError,
>)
    requires
        pos + 4 + kind.spec_width() <= data.len(),
    ensures
        optional_result_view(r) == unpack_coption_spec(data@, pos as int, kind),
{
    let tag: u32 = read_u32(data, pos);
    if tag == 0 {
        Ok(None)
    } else if tag == 1 {
        match DataValue::decode(data, pos + COPTION_TAG_WIDTH, kind) {
            Ok(v) => Ok(Some(v)),
            Err(e) => Err(e),
        }
    } else {
        Err(EngineError::MalformedEncoding)
    }
}

/// Appends an optional value's text to `out`.
pub fn push_optional_text(value: &Option<DataValue>, out: &mut String)
    ensures
        final(out)@ == old(out)@ + optional_text(option_view(*value)),
{
    match value {
        Some(v) => {
            out.append("Some(");
            v.push_text(out);
            out.append(")");
        },
        None => {
            out.append("None");
        },
    }
}

/// Whether two values are the same: of one kind and equal.
pub fn same_value(a: &DataValue, b: &DataValue) -> (same: bool)
    ensures
        same == (a@ == b@),
{
    let kind = a.kind();
    if kind != b.kind() {
        return false;
    }
    let equal = Operator::Equal;
    let r = a.compare(b, &equal, false);
    assert(r.passed == holds_spec(Operator::Equal, a@, b@));
    assert(holds_spec(Operator::Equal, a@, b@) == (a@ =~= b@));
    r.passed
}

/// Compares two optional values.
pub fn compare_optional(
    actual: &Option<DataValue>,
    expected: &Option<DataValue>,
    operator: &Operator,
    include_output: bool,
) -> (r: Result<EvaluationResult, EngineError>)
    ensures
        result_view(r) == compare_optional_spec(
            option_view(*actual),
            option_view(*expected),
            *operator,
            include_output,
        ),
{
    if !operator.is_equatable() {
        return Err(EngineError::TypeMismatch);
    }
    let same = match (actual, expected) {
        (None, None) => true,
        (Some(a), Some(b)) => same_value(a, b),
        _ => false,
    };
    let passed = operator.test_equatable(same);
    let mut output = String::new();
    if include_output {
        output.append("actual=");
        push_optional_text(actual, &mut output);
        output.append(" ");
        output.append(operator.name());
        output.append(" expected=");
        push_optional_text(expected, &mut output);
    }
    let r = EvaluationResult { passed, output };
    assert(Ok::<EvaluationResultView, EngineError>(r@) =~~= compare_optional_spec(
        option_view(*actual),
        option_view(*expected),
        *operator,
        include_output,
    ));
    Ok(r)
}


/// What evaluating the optional literal `expected` of `kind` against
/// `buffer` at `pos` comes to: a type fault unless the operator is `Equal`
/// or `NotEqual`, else a range fault if mark and value would reach past the
/// buffer's end, else the fault of a malformed mark, else the comparison of
/// what is read with the literal.
pub open spec fn evaluate_optional_at_spec(
    expected: Option<DataValueView>,
    kind: DataKind,
    buffer: Seq<u8>,
    pos: int,
    operator: Operator,
    include_output: bool,
) -> Result<EvaluationResultView, EngineError> {
    if !operator.spec_is_equatable() {
        Err(EngineError::TypeMismatch)
    } else if pos + 4 + kind.spec_width() > buffer.len() {
        Err(EngineError::OutOfRange)
    } else {
        match unpack_coption_spec(buffer, pos, kind) {
            Err(e) => Err(e),
            Ok(actual) => compare_optional_spec(actual, expected, operator, include_output),
        }
    }
}

/// Reads at `pos` of `data` an optional value of `kind` and compares it with
/// `expected`, the literal.
pub fn evaluate_optional_at(
    expected: &Option<DataValue>,
    kind: DataKind,
    data: &[u8],
    pos: usize,
    operator: &Operator,
    include_output: bool,
) -> (r: Result<EvaluationResult, EngineError>)
    ensures
        result_view(r) == evaluate_optional_at_spec(
            option_view(*expected),
            kind,
            data@,
            pos as int,
            *operator,
            include_output,
        ),
{
    if !operator.is_equatable() {
        return Err(EngineError::TypeMismatch);
    }
    let width = kind.width();
    if pos > data.len() || data.len() - pos < COPTION_TAG_WIDTH || width > data.len() - pos
        - COPTION_TAG_WIDTH {
        return Err(EngineError::OutOfRange);
    }
    match unpack_coption(data, pos, kind) {
        Err(e) => Err(e),
        Ok(actual) => compare_optional(&actual, expected, operator, include_output),
    }
}

} // verus!
