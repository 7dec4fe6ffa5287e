//! One assertion: what to look at, how to compare, and what to expect.

use vstd::prelude::*;
use vstd::slice::slice_subrange;
use vstd::string::*;
use crate::account::{AccountInfoDataField, TargetAccount};
use crate::error::EngineError;
use crate::operator::{EvaluationResult, EvaluationResultView, Operator};
use crate::solana::{keccak256, keccak256_digest};
use crate::text::{
    byte_list_text, decimal_text, optional_decimal_text, push_byte_list, push_decimal,
    push_optional_decimal,
};
use crate::token_account::TokenAccountDataField;
use crate::value::{
    compare_spec, evaluate_at_spec, result_view, DataKind, DataValue, DataValueView,
};

verus! {

/// A declarative check of an account. Each variant carries all that is
/// needed to find the data and compare it, but for the account itself.
#[derive(Clone, Debug, PartialEq, Eq)]
pub enum Assertion {
    /// An attribute of the account beside its buffer.
    AccountInfoField(AccountInfoDataField, Operator),
    /// The value at an offset of the buffer, of the literal's kind.
    AccountData(u16, Operator, DataValue),
    /// The digest of a range of the buffer; the range's start defaults to 0,
    /// its end to the buffer's length.
    AccountDataHash([u8; 32], Operator, Option<u16>, Option<u16>),
    /// An optional value: one byte at the offset that is 0 when the value is
    /// absent, and the value behind it.
    AcountDataOption(u64, Operator, DataValue),
    /// A field of a token account.
    TokenAccountField(TokenAccountDataField, Operator),
}

/// The mathematical value of an `Assertion`.
#[verifier::ext_equal]
pub enum AssertionView {
    AccountInfoField(AccountInfoDataField, Operator),
    AccountData(u16, Operator, DataValueView),
    AccountDataHash(Seq<u8>, Operator, Option<u16>, Option<u16>),
    AcountDataOption(u64, Operator, DataValueView),
    TokenAccountField(TokenAccountDataField, Operator),
}

impl View for Assertion {
    type V = AssertionView;

    open spec fn view(&self) -> AssertionView {
        match self {
            Assertion::AccountInfoField(field, operator) => AssertionView::AccountInfoField(
                *field,
                *operator,
            ),
            Assertion::AccountData(offset, operator, value) => AssertionView::AccountData(
                *offset,
                *operator,
                value@,
            ),
            Assertion::AccountDataHash(hash, operator, start, end) => AssertionView::AccountDataHash(
                hash@,
                *operator,
                *start,
                *end,
            ),
            Assertion::AcountDataOption(offset, operator, value) => AssertionView::AcountDataOption(
                *offset,
                *operator,
                value@,
            ),
            Assertion::TokenAccountField(field, operator) => AssertionView::TokenAccountField(
                *field,
                *operator,
            ),
        }
    }
}

pub open spec fn optional_u16_text(n: Option<u16>) -> Seq<char> {
    optional_decimal_text(
        match n {
            Some(n) => Some(n as nat),
            None => None,
        },
    )
}

/// The word that tells whether a comparison held.
pub open spec fn status_text(passed: bool) -> Seq<char> {
    if passed {
        "passed"@
    } else {
        "failed"@
    }
}

/// The line of a trace: what the assertion is, whether it held, and what
/// was compared.
pub open spec fn trace_line(label: Seq<char>, passed: bool, detail: Seq<char>) -> Seq<char> {
    label + " "@ + status_text(passed) + " \u{2014} "@ + detail
}

/// A result under the assertion's label: the decision stays, and the detail
/// becomes a whole line of the trace if one is asked for.
pub open spec fn labelled(
    label: Seq<char>,
    r: Result<EvaluationResultView, EngineError>,
    include_output: bool,
) -> Result<EvaluationResultView, EngineError> {
    match r {
        Err(e) => Err(e),
        Ok(v) => Ok(
            EvaluationResultView {
                passed: v.passed,
                output: if include_output {
                    trace_line(label, v.passed, v.output)
                } else {
                    Seq::<char>::empty()
                },
            },
        ),
    }
}

/// A decision that needed no comparison, as a result.
pub open spec fn verdict(label: Seq<char>, passed: bool, detail: Seq<char>, include_output: bool) -> EvaluationResultView {
    EvaluationResultView {
        passed,
        output: if include_output {
            trace_line(label, passed, detail)
        } else {
            Seq::<char>::empty()
        },
    }
}

/// The range of a buffer of `len` bytes that `start` and `end` name: the
/// start defaults to 0, the end to `len`. A range fault if the start lies
/// behind the end or the end behind the buffer's.
pub open spec fn resolve_range_spec(start: Option<u16>, end: Option<u16>, len: nat) -> Result<
    (int, int),
    EngineError,
> {
    let s: int = match start {
        Some(s) => s as int,
        None => 0,
    };
    let e: int = match end {
        Some(e) => e as int,
        None => len as int,
    };
    if s > e || e > len {
        Err(EngineError::OutOfRange)
    } else {
        Ok((s, e))
    }
}

/// What holding a digest against the one expected comes to: a type fault
/// unless the operator is `Equal` or `NotEqual`, else their comparison as
/// two strings of thirty-two bytes.
pub open spec fn evaluate_digest_spec(
    digest: Seq<u8>,
    expected: Seq<u8>,
    operator: Operator,
    include_output: bool,
) -> Result<EvaluationResultView, EngineError> {
    if operator.spec_is_equatable() {
        Ok(
            compare_spec(
                DataValueView::Bytes32(digest),
                DataValueView::Bytes32(expected),
                operator,
                include_output,
            ),
        )
    } else {
        Err(EngineError::TypeMismatch)
    }
}

/// What a hash assertion comes to on `buffer`: a type fault unless the
/// operator is `Equal` or `NotEqual`, else the range's fault if it has one,
/// else the Keccak-256 digest of the range held against the one expected.
pub open spec fn evaluate_hash_spec(
    expected: Seq<u8>,
    operator: Operator,
    start: Option<u16>,
    end: Option<u16>,
    buffer: Seq<u8>,
    include_output: bool,
) -> Result<EvaluationResultView, EngineError> {
    if !operator.spec_is_equatable() {
        Err(EngineError::TypeMismatch)
    } else {
        match resolve_range_spec(start, end, buffer.len()) {
            Err(e) => Err(e),
            Ok((s, e)) => evaluate_digest_spec(
                keccak256_digest(buffer.subrange(s, e)),
                expected,
                operator,
                include_output,
            ),
        }
    }
}

/// What an assertion on an optional value comes to on `buffer`, under
/// `label`: a range fault if the presence byte lies behind the buffer's end.
/// With `DoesNotExist`, it holds exactly when the byte is 0. With any other
/// operator it does not hold when the byte is 0, and else is the comparison
/// of the value behind the byte with the literal.
pub open spec fn evaluate_option_spec(
    label: Seq<char>,
    offset: u64,
    operator: Operator,
    value: DataValueView,
    buffer: Seq<u8>,
    include_output: bool,
) -> Result<EvaluationResultView, EngineError> {
    if offset >= buffer.len() {
        Err(EngineError::OutOfRange)
    } else if operator is DoesNotExist {
        if buffer[offset as int] == 0 {
            Ok(verdict(label, true, "field does not exist"@, include_output))
        } else {
            Ok(verdict(label, false, "field exists"@, include_output))
        }
    } else if buffer[offset as int] == 0 {
        Ok(verdict(label, false, "field does not exist"@, include_output))
    } else {
        labelled(
            label,
            evaluate_at_spec(value, buffer, offset + 1, operator, include_output),
            include_output,
        )
    }
}

impl AssertionView {
    /// The assertion as it stands in diagnostics: the variant's name and, in
    /// square brackets, its parts with a bar between them.
    pub open spec fn format_spec(self) -> Seq<char> {
        match self {
            AssertionView::AccountData(offset, operator, value) => "AccountData["@ + decimal_text(
                offset as nat,
            ) + "|"@ + operator.spec_name() + "|"@ + value.text() + "]"@,
            AssertionView::AcountDataOption(offset, operator, value) => "AcountDataOption["@
                + decimal_text(offset as nat) + "|"@ + operator.spec_name() + "|"@ + value.text()
                + "]"@,
            AssertionView::AccountDataHash(hash, operator, start, end) => "AccountDataHash["@
                + byte_list_text(hash) + "|"@ + operator.spec_name() + "|("@ + optional_u16_text(
                start,
            ) + ","@ + optional_u16_text(end) + ")]"@,
            AssertionView::TokenAccountField(field, operator) => "TokenAccountField["@
                + field.text() + "|"@ + operator.spec_name() + "]"@,
            AssertionView::AccountInfoField(field, operator) => "AccountInfoField["@ + field.text()
                + "|"@ + operator.spec_name() + "]"@,
        }
    }

    /// What evaluating the assertion against `account` comes to. An
    /// assertion that reads the buffer is a lock fault where the buffer
    /// could not be acquired. Every result stands under the assertion's
    /// label.
    pub open spec fn evaluate_spec(self, account: TargetAccount, include_output: bool) -> Result<
        EvaluationResultView,
        EngineError,
    > {
        match self {
            AssertionView::AccountInfoField(field, operator) => labelled(
                self.format_spec(),
                field.evaluate_spec(account, operator, include_output),
                include_output,
            ),
            AssertionView::AccountData(offset, operator, value) => match account.buffer() {
                None => Err(EngineError::LockFailure),
                Some(buffer) => labelled(
                    self.format_spec(),
                    evaluate_at_spec(value, buffer, offset as int, operator, include_output),
                    include_output,
                ),
            },
            AssertionView::AccountDataHash(hash, operator, start, end) => match account.buffer() {
                None => Err(EngineError::LockFailure),
                Some(buffer) => labelled(
                    self.format_spec(),
                    evaluate_hash_spec(hash, operator, start, end, buffer, include_output),
                    include_output,
                ),
            },
            AssertionView::AcountDataOption(offset, operator, value) => match account.buffer() {
                None => Err(EngineError::LockFailure),
                Some(buffer) => evaluate_option_spec(
                    self.format_spec(),
                    offset,
                    operator,
                    value,
                    buffer,
                    include_output,
                ),
            },
            AssertionView::TokenAccountField(field, operator) => labelled(
                self.format_spec(),
                field.evaluate_spec(account, operator, include_output),
                include_output,
            ),
        }
    }
}

/// Resolves the range that `start` and `end` name in a buffer of `len`
/// bytes.
pub fn resolve_range(start: Option<u16>, end: Option<u16>, len: usize) -> (r: Result<
    (usize, usize),
    EngineError,
>)
    ensures
        match r {
            Ok((s, e)) => resolve_range_spec(start, end, len as nat) == Ok::<
                (int, int),
                EngineError,
            >((s as int, e as int)) && s <= e <= len,
            Err(e) => resolve_range_spec(start, end, len as nat) == Err::<(int, int), EngineError>(
                e,
            ),
        },
{
    let s: usize = match start {
        Some(s) => s as usize,
        None => 0,
    };
    let e: usize = match end {
        Some(e) => e as usize,
        None => len,
    };
    if s > e || e > len {
        Err(EngineError::OutOfRange)
    } else {
        Ok((s, e))
    }
}

/// Holds a digest against the one expected.
pub fn evaluate_digest(
    digest: &[u8; 32],
    expected: &[u8; 32],
    operator: &Operator,
    include_output: bool,
) -> (r: Result<EvaluationResult, EngineError>)
    ensures
        result_view(r) == evaluate_digest_spec(digest@, expected@, *operator, include_output),
{
    let actual = DataValue::Bytes32(*digest);
    let wanted = DataValue::Bytes32(*expected);
    operator.evaluate(&actual, &wanted, include_output)
}

/// Hashes the range of `data` that `start` and `end` name and holds the
/// digest against the one expected.
pub fn evaluate_hash(
    expected: &[u8; 32],
    operator: &Operator,
    start: Option<u16>,
    end: Option<u16>,
    data: &[u8],
    include_output: bool,
) -> (r: Result<EvaluationResult, EngineError>)
    ensures
        result_view(r) == evaluate_hash_spec(
            expected@,
            *operator,
            start,
            end,
            data@,
            include_output,
        ),
{
    if !operator.is_equatable() {
        return Err(EngineError::TypeMismatch);
    }
    match resolve_range(start, end, data.len()) {
        Err(e) => Err(e),
        Ok((s, e)) => {
            let digest = keccak256(slice_subrange(data, s, e));
            evaluate_digest(&digest, expected, operator, include_output)
        },
    }
}

/// Puts a result under `label`.
fn label_result(label: &Assertion, r: Result<EvaluationResult, EngineError>, include_output: bool) -> (out:
    Result<EvaluationResult, EngineError>)
    ensures
        result_view(out) == labelled(label@.format_spec(), result_view(r), include_output),
{
    match r {
        Err(e) => Err(e),
        Ok(v) => Ok(make_verdict(label, v.passed, v.output.as_str(), include_output)),
    }
}

/// A result under `label` with the given decision and detail.
fn make_verdict(label: &Assertion, passed: bool, detail: &str, include_output: bool) -> (out:
    EvaluationResult)
    ensures
        out@ == verdict(label@.format_spec(), passed, detail@, include_output),
{
    let mut output = String::new();
    if include_output {
        let text = label.format();
        output.append(text.as_str());
        output.append(" ");
        if passed {
            output.append("passed");
        } else {
            output.append("failed");
        }
        output.append(" \u{2014} ");
        output.append(detail);
    }
    let out = EvaluationResult { passed, output };
    assert(out@ =~= verdict(label@.format_spec(), passed, detail@, include_output));
    out
}

impl Assertion {
    /// The assertion as it stands in diagnostics.
    pub fn format(&self) -> (text: String)
        ensures
            text@ == self@.format_spec(),
    {
        let mut out = String::new();
        match self {
            Assertion::AccountData(offset, operator, value) => {
                out.append("AccountData[");
                push_decimal(&mut out, *offset as u128);
                out.append("|");
                out.append(operator.name());
                out.append("|");
                value.push_text(&mut out);
                out.append("]");
            },
            Assertion::AcountDataOption(offset, operator, value) => {
                out.append("AcountDataOption[");
                push_decimal(&mut out, *offset as u128);
                out.append("|");
                out.append(operator.name());
                out.append("|");
                value.push_text(&mut out);
                out.append("]");
            },
            Assertion::AccountDataHash(hash, operator, start, end) => {
                out.append("AccountDataHash[");
                push_byte_list(&mut out, hash.as_slice());
                out.append("|");
                out.append(operator.name());
                out.append("|(");
                push_optional_decimal(&mut out, widen(*start));
                out.append(",");
                push_optional_decimal(&mut out, widen(*end));
                out.append(")]");
            },
            Assertion::TokenAccountField(field, operator) => {
                out.append("TokenAccountField[");
                field.push_text(&mut out);
                out.append("|");
                out.append(operator.name());
                out.append("]");
            },
            Assertion::AccountInfoField(field, operator) => {
                out.append("AccountInfoField[");
                field.push_text(&mut out);
                out.append("|");
                out.append(operator.name());
                out.append("]");
            },
        }
        assert(out@ =~= self@.format_spec());
        out
    }

    /// Evaluates the assertion against `account`. A comparison that does not
    /// hold is a result with `passed == false`; only a fault is an error.
    pub fn evaluate(&self, account: &TargetAccount, include_output: bool) -> (r: Result<
        EvaluationResult,
        EngineError,
    >)
        ensures
            result_view(r) == self@.evaluate_spec(*account, include_output),
    {
        match self {
            Assertion::AccountInfoField(field, operator) => {
                let inner = field.evaluate(account, operator, include_output);
                label_result(self, inner, include_output)
            },
            Assertion::TokenAccountField(field, operator) => {
                let inner = field.evaluate(account, operator, include_output);
                label_result(self, inner, include_output)
            },
            Assertion::AccountData(offset, operator, value) => {
                match account.data {
                    None => Err(EngineError::LockFailure),
                    Some(data) => {
                        let inner = value.evaluate_from_data_slice(
                            data,
                            *offset as usize,
                            operator,
                            include_output,
                        );
                        label_result(self, inner, include_output)
                    },
                }
            },
            Assertion::AccountDataHash(hash, operator, start, end) => {
                match account.data {
                    None => Err(EngineError::LockFailure),
                    Some(data) => {
                        let inner = evaluate_hash(
                            hash,
                            operator,
                            *start,
                            *end,
                            data,
                            include_output,
                        );
                        label_result(self, inner, include_output)
                    },
                }
            },
            Assertion::AcountDataOption(offset, operator, value) => {
                match account.data {
                    None => Err(EngineError::LockFailure),
                    Some(data) => {
                        if *offset >= data.len() as u64 {
                            return Err(EngineError::OutOfRange);
                        }
                        let at: usize = *offset as usize;
                        let present = data[at] != 0;
                        match operator {
                            Operator::DoesNotExist => {
                                if present {
                                    Ok(make_verdict(self, false, "field exists", include_output))
                                } else {
                                    Ok(
                                        make_verdict(
                                            self,
                                            true,
                                            "field does not exist",
                                            include_output,
                                        ),
                                    )
                                }
                            },
                            _ => {
                                if !present {
                                    Ok(
                                        make_verdict(
                                            self,
                                            false,
                                            "field does not exist",
                                            include_output,
                                        ),
                                    )
                                } else {
                                    let inner = value.evaluate_from_data_slice(
                                        data,
                                        at + 1,
                                        operator,
                                        include_output,
                                    );
                                    label_result(self, inner, include_output)
                                }
                            },
                        }
                    },
                }
            },
        }
    }
}

/// An optional 16-bit number as an optional 64-bit one.
fn widen(n: Option<u16>) -> (w: Option<u64>)
    ensures
        w == match n {
            Some(n) => Some(n as u64),
            None => None::<u64>,
        },
{
    match n {
        Some(n) => Some(n as u64),
        None => None,
    }
}

/// What an evaluation decided, without its trace: the fault, or whether the
/// assertion held.
pub open spec fn decision(r: Result<EvaluationResultView, EngineError>) -> Result<
    bool,
    EngineError,
> {
    match r {
        Ok(v) => Ok(v.passed),
        Err(e) => Err(e),
    }
}

/// Where the presence byte is 0, an assertion on an optional value is
/// evaluated without fault, and it holds exactly when its operator is
/// `DoesNotExist`.
pub proof fn lemma_absent_holds_iff_does_not_exist(
    offset: u64,
    operator: Operator,
    value: DataValueView,
    account: TargetAccount,
    include_output: bool,
)
    requires
        account.buffer() is Some,
        offset < account.buffer()->Some_0.len(),
        account.buffer()->Some_0[offset as int] == 0,
    ensures
        decision(
            AssertionView::AcountDataOption(offset, operator, value).evaluate_spec(
                account,
                include_output,
            ),
        ) == Ok::<bool, EngineError>(operator is DoesNotExist),
{
}

/// Where the presence byte is not 0, an assertion that the value does not
/// exist is evaluated without fault and does not hold.
pub proof fn lemma_present_fails_does_not_exist(
    offset: u64,
    value: DataValueView,
    account: TargetAccount,
    include_output: bool,
)
    requires
        account.buffer() is Some,
        offset < account.buffer()->Some_0.len(),
        account.buffer()->Some_0[offset as int] != 0,
    ensures
        decision(
            AssertionView::AcountDataOption(
                offset,
                Operator::DoesNotExist,
                value,
            ).evaluate_spec(account, include_output),
        ) == Ok::<bool, EngineError>(false),
{
}

/// Where the presence byte is not 0 and the operator is not `DoesNotExist`,
/// an assertion on an optional value decides what the plain assertion on
/// the value behind the byte decides; and with no trace asked for the two
/// results are the same.
pub proof fn lemma_present_is_field_comparison(
    offset: u64,
    operator: Operator,
    value: DataValueView,
    account: TargetAccount,
    include_output: bool,
)
    requires
        account.buffer() is Some,
        offset < account.buffer()->Some_0.len(),
        account.buffer()->Some_0[offset as int] != 0,
        !(operator is DoesNotExist),
        offset + 1 <= u16::MAX,
    ensures
        decision(
            AssertionView::AcountDataOption(offset, operator, value).evaluate_spec(
                account,
                include_output,
            ),
        ) == decision(
            AssertionView::AccountData((offset + 1) as u16, operator, value).evaluate_spec(
                account,
                include_output,
            ),
        ),
        AssertionView::AcountDataOption(offset, operator, value).evaluate_spec(account, false)
            == AssertionView::AccountData((offset + 1) as u16, operator, value).evaluate_spec(
            account,
            false,
        ),
{
    let buffer = account.buffer()->Some_0;
    let plain = evaluate_at_spec(value, buffer, offset + 1, operator, false);
    let optional = AssertionView::AcountDataOption(offset, operator, value);
    let field = AssertionView::AccountData((offset + 1) as u16, operator, value);
    assert(optional.evaluate_spec(account, false) == labelled(
        optional.format_spec(),
        plain,
        false,
    ));
    assert(field.evaluate_spec(account, false) == labelled(field.format_spec(), plain, false));
    if plain is Ok {
        assert(labelled(optional.format_spec(), plain, false)->Ok_0 =~= labelled(
            field.format_spec(),
            plain,
            false,
        )->Ok_0);
    }
}

/// A hash assertion looks at the bytes of its range alone: on two buffers
/// of one length that hold the same bytes there, it comes to the same
/// result.
pub proof fn lemma_hash_depends_on_range_alone(
    expected: Seq<u8>,
    operator: Operator,
    start: Option<u16>,
    end: Option<u16>,
    first: Seq<u8>,
    second: Seq<u8>,
    include_output: bool,
)
    requires
        first.len() == second.len(),
        resolve_range_spec(start, end, first.len()) matches Ok((s, e)) ==> first.subrange(s, e)
            == second.subrange(s, e),
    ensures
        evaluate_hash_spec(expected, operator, start, end, first, include_output)
            == evaluate_hash_spec(expected, operator, start, end, second, include_output),
{
}

/// The trace is advisory: asking for it changes neither the fault nor
/// whether the assertion holds.
pub proof fn lemma_trace_is_advisory(assertion: AssertionView, account: TargetAccount)
    ensures
        decision(assertion.evaluate_spec(account, true)) == decision(
            assertion.evaluate_spec(account, false),
        ),
{
}

} // verus!
