//! Holding one assertion against an account on a caller's behalf: what to
//! log, and whether the assertion held.

use vstd::prelude::*;
use vstd::string::*;
use crate::account::TargetAccount;
use crate::assertion::Assertion;
use crate::error::EngineError;
use crate::mint_account::{Evaluator, MintAccountAssertion};
use crate::operator::{EvaluationResult, EvaluationResultView};
use crate::value::result_view;
use crate::wire::{bool_encoding, deserialize_bool, parse_bool, serialize_bool};

verus! {

/// How an assertion is to be evaluated.
#[derive(Clone, Copy, Debug, PartialEq, Eq)]
pub struct AssertionConfigV1 {
    /// Whether a trace of the comparison is wanted.
    pub verbose: bool,
}

/// Something that can be held against an account.
pub trait Assert {
    /// What evaluating it against `account` comes to.
    spec fn evaluate_model(&self, account: TargetAccount, include_output: bool) -> Result<
        EvaluationResultView,
        EngineError,
    >;

    /// Evaluates it against `account`.
    fn evaluate(&self, account: &TargetAccount, include_output: bool) -> (r: Result<
        EvaluationResult,
        EngineError,
    >)
        ensures
            result_view(r) == self.evaluate_model(*account, include_output),
    ;
}

impl Assert for Assertion {
    open spec fn evaluate_model(&self, account: TargetAccount, include_output: bool) -> Result<
        EvaluationResultView,
        EngineError,
    > {
        self@.evaluate_spec(account, include_output)
    }

    fn evaluate(&self, account: &TargetAccount, include_output: bool) -> (r: Result<
        EvaluationResult,
        EngineError,
    >) {
        Assertion::evaluate(self, account, include_output)
    }
}

impl Assert for MintAccountAssertion {
    open spec fn evaluate_model(&self, account: TargetAccount, include_output: bool) -> Result<
        EvaluationResultView,
        EngineError,
    > {
        self.evaluate_spec(account, include_output)
    }

    fn evaluate(&self, account: &TargetAccount, include_output: bool) -> (r: Result<
        EvaluationResult,
        EngineError,
    >) {
        self.evaluate2(account, include_output)
    }
}

/// What came of holding one assertion against an account: whether it held,
/// and the lines to log, in order.
#[derive(Clone, Debug, PartialEq, Eq)]
pub struct AssertReport {
    pub passed: bool,
    pub logs: Vec<String>,
}

#[verifier::ext_equal]
pub struct AssertReportView {
    pub passed: bool,
    pub logs: Seq<Seq<char>>,
}

impl View for AssertReport {
    type V = AssertReportView;

    open spec fn view(&self) -> AssertReportView {
        AssertReportView { passed: self.passed, logs: self.logs@.map_values(|line: String| line@) }
    }
}

/// The line that stands above the trace of an assertion.
pub open spec fn log_header() -> Seq<char> {
    "[--] [-] Status | Assertion | Actual Value (Operator) Assertion Value"@
}

/// Whether `config` asks for a trace. None asks for none.
pub open spec fn wants_output(config: Option<AssertionConfigV1>) -> bool {
    match config {
        Some(c) => c.verbose,
        None => false,
    }
}

/// What holding an assertion against an account comes to, given what its
/// evaluation came to: a fault stays a fault; else the report says whether
/// the assertion held and, if a trace is wanted, holds the header and the
/// assertion's line under its number in the list, which is 0.
pub open spec fn report_spec(
    evaluation: Result<EvaluationResultView, EngineError>,
    include_output: bool,
) -> Result<AssertReportView, EngineError> {
    match evaluation {
        Err(e) => Err(e),
        Ok(v) => Ok(
            AssertReportView {
                passed: v.passed,
                logs: if include_output {
                    seq![log_header(), "[00] "@ + v.output]
                } else {
                    Seq::<Seq<char>>::empty()
                },
            },
        ),
    }
}

pub open spec fn report_view(r: Result<AssertReport, EngineError>) -> Result<
    AssertReportView,
    EngineError,
> {
    match r {
        Ok(v) => Ok(v@),
        Err(e) => Err(e),
    }
}

/// Holds `assertion` against `target_account`. The caller logs the lines of
/// the report and refuses to go on where the assertion did not hold.
pub fn assert_with_account<T: Assert>(
    target_account: &TargetAccount,
    assertion: &T,
    config: Option<AssertionConfigV1>,
) -> (r: Result<AssertReport, EngineError>)
    ensures
        report_view(r) == report_spec(
            assertion.evaluate_model(*target_account, wants_output(config)),
            wants_output(config),
        ),
{
    let include_output = match &config {
        Some(config) => config.verbose,
        None => false,
    };
    let evaluation_result = match assertion.evaluate(target_account, include_output) {
        Ok(v) => v,
        Err(e) => {
            return Err(e);
        },
    };
    let mut logs: Vec<String> = Vec::new();
    if include_output {
        logs.push(String::from_str("[--] [-] Status | Assertion | Actual Value (Operator) Assertion Value"));
        let mut line = String::from_str("[00] ");
        line.append(evaluation_result.output.as_str());
        logs.push(line);
    }
    let report = AssertReport { passed: evaluation_result.passed, logs };
    assert(report@.logs =~= report_spec(
        assertion.evaluate_model(*target_account, include_output),
        include_output,
    )->Ok_0.logs);
    Ok(report)
}

impl AssertionConfigV1 {
    /// The byte of the configuration: its one flag.
    pub open spec fn encoding(self) -> Seq<u8> {
        bool_encoding(self.verbose)
    }

    /// The configuration that stands at `pos` of `s`, and where it ends.
    pub open spec fn parse(s: Seq<u8>, pos: int) -> Option<(AssertionConfigV1, int)> {
        match parse_bool(s, pos) {
            Some((verbose, end)) => Some((AssertionConfigV1 { verbose }, end)),
            None => None,
        }
    }

    /// Appends the configuration's byte.
    pub fn serialize(&self, out: &mut Vec<u8>)
        ensures
            final(out)@ == old(out)@ + self.encoding(),
    {
        serialize_bool(self.verbose, out);
    }

    /// Reads the configuration at `pos`.
    pub fn deserialize(bytes: &[u8], pos: usize) -> (r: Result<
        (AssertionConfigV1, usize),
        EngineError,
    >)
        ensures
            match r {
                Ok((v, end)) => AssertionConfigV1::parse(bytes@, pos as int) == Some(
                    (v, end as int),
                ),
                Err(e) => e == EngineError::MalformedEncoding && AssertionConfigV1::parse(
                    bytes@,
                    pos as int,
                ) is None,
            },
    {
        match deserialize_bool(bytes, pos) {
            Ok((verbose, end)) => Ok((AssertionConfigV1 { verbose }, end)),
            Err(e) => Err(e),
        }
    }

    /// Reading back what `encoding` wrote gives the configuration written.
    pub proof fn lemma_round_trip(self, s: Seq<u8>, pos: int)
        requires
            0 <= pos,
            pos + 1 <= s.len(),
            s.subrange(pos, pos + 1) == self.encoding(),
        ensures
            AssertionConfigV1::parse(s, pos) == Some((self, pos + 1)),
    {
        assert(s[pos] == s.subrange(pos, pos + 1)[0]);
    }
}

} // verus!
