//! A list of one to sixteen assertions, and its evaluation.

use vstd::prelude::*;
use crate::account::TargetAccount;
use crate::assertion::{lemma_trace_is_advisory, Assertion, AssertionView};
use crate::error::EngineError;
use crate::operator::EvaluationResult;

verus! {

/// The greatest number of assertions a list can hold.
pub const MAX_ASSERTIONS: usize = 16;

/// A list of assertions whose length, from 1 to 16, is told by the variant
/// alone. An empty list cannot be written.
#[derive(Clone, Debug, PartialEq, Eq)]
pub enum CompactAssertionArray {
    Size1([Assertion; 1]),
    Size2([Assertion; 2]),
    Size3([Assertion; 3]),
    Size4([Assertion; 4]),
    Size5([Assertion; 5]),
    Size6([Assertion; 6]),
    Size7([Assertion; 7]),
    Size8([Assertion; 8]),
    Size9([Assertion; 9]),
    Size10([Assertion; 10]),
    Size11([Assertion; 11]),
    Size12([Assertion; 12]),
    Size13([Assertion; 13]),
    Size14([Assertion; 14]),
    Size15([Assertion; 15]),
    Size16([Assertion; 16]),
}

/// What evaluating a list came to: whether every assertion held, and the
/// lines of the trace, one for each assertion evaluated, if a trace was
/// asked for.
#[derive(Clone, Debug, PartialEq, Eq)]
pub struct EvaluationOutcome {
    pub passed: bool,
    pub trace: Vec<String>,
}

#[verifier::ext_equal]
pub struct EvaluationOutcomeView {
    pub passed: bool,
    pub trace: Seq<Seq<char>>,
}

impl View for EvaluationOutcome {
    type V = EvaluationOutcomeView;

    open spec fn view(&self) -> EvaluationOutcomeView {
        EvaluationOutcomeView {
            passed: self.passed,
            trace: self.trace@.map_values(|line: String| line@),
        }
    }
}

/// The model of the result of evaluating a list.
pub open spec fn outcome_view(r: Result<EvaluationOutcome, EngineError>) -> Result<
    EvaluationOutcomeView,
    EngineError,
> {
    match r {
        Ok(v) => Ok(v@),
        Err(e) => Err(e),
    }
}

/// Whether the assertion at `i` is evaluated without fault and holds.
pub open spec fn holds_at(
    list: Seq<AssertionView>,
    account: TargetAccount,
    include_output: bool,
    i: int,
) -> bool {
    match list[i].evaluate_spec(account, include_output) {
        Ok(r) => r.passed,
        Err(_) => false,
    }
}

/// The first index from `i` on at which the assertion does not hold or
/// faults; the list's length if there is none.
pub open spec fn first_stop(
    list: Seq<AssertionView>,
    account: TargetAccount,
    include_output: bool,
    i: int,
) -> int
    decreases list.len() - i,
{
    if i < 0 || i >= list.len() {
        list.len() as int
    } else if !holds_at(list, account, include_output, i) {
        i
    } else {
        first_stop(list, account, include_output, i + 1)
    }
}

/// The line of the trace for the assertion at `i`.
pub open spec fn trace_at(list: Seq<AssertionView>, account: TargetAccount, i: int) -> Seq<
    char,
> {
    match list[i].evaluate_spec(account, true) {
        Ok(r) => r.output,
        Err(_) => Seq::<char>::empty(),
    }
}

/// What evaluating `list` in order comes to. The evaluation stops at the
/// first assertion that faults or does not hold: a fault is the result; an
/// assertion that does not hold makes the outcome negative. Where all hold
/// the outcome is positive. The trace, if asked for, has the lines of the
/// assertions evaluated, in order; else it is empty.
pub open spec fn evaluate_all_spec(
    list: Seq<AssertionView>,
    account: TargetAccount,
    include_output: bool,
) -> Result<EvaluationOutcomeView, EngineError> {
    let stop = first_stop(list, account, include_output, 0);
    if stop < list.len() && list[stop].evaluate_spec(account, include_output) is Err {
        Err(list[stop].evaluate_spec(account, include_output)->Err_0)
    } else {
        let evaluated = if stop < list.len() {
            stop + 1
        } else {
            stop
        };
        Ok(
            EvaluationOutcomeView {
                passed: stop == list.len(),
                trace: if include_output {
                    Seq::new(evaluated as nat, |k: int| trace_at(list, account, k))
                } else {
                    Seq::<Seq<char>>::empty()
                },
            },
        )
    }
}

/// Makes an array of the `N` items of a vector through the standard
/// library's `TryFrom<Vec<T>>` for `[T; N]`, which gives the vector's whole
/// contents as an array exactly when its length is `N`, and else gives the
/// vector back.
#[verifier::external_body]
fn array_from_vec<T, const N: usize>(v: Vec<T>) -> (r: Result<[T; N], Vec<T>>)
    ensures
        r is Ok <==> v@.len() == N,
        r matches Ok(a) ==> a@ == v@,
        r matches Err(w) ==> w@ == v@,
{
    v.try_into()
}

impl EvaluationOutcome {
    /// The outcome of a list of which nothing was evaluated yet.
    pub fn new() -> (outcome: EvaluationOutcome)
        ensures
            outcome@ == (EvaluationOutcomeView { passed: true, trace: Seq::empty() }),
    {
        let outcome = EvaluationOutcome { passed: true, trace: Vec::new() };
        assert(outcome@.trace =~= Seq::<Seq<char>>::empty());
        outcome
    }

    /// Takes in what the next assertion of the list came to, and tells
    /// whether the list is to be gone on with: it is not once an assertion
    /// did not hold.
    pub fn record(&mut self, result: EvaluationResult, include_output: bool) -> (go_on: bool)
        ensures
            final(self)@ == (EvaluationOutcomeView {
                passed: old(self).passed && result.passed,
                trace: if include_output {
                    old(self)@.trace.push(result.output@)
                } else {
                    old(self)@.trace
                },
            }),
            go_on == final(self).passed,
    {
        if !result.passed {
            self.passed = false;
        }
        if include_output {
            self.trace.push(result.output);
        }
        assert(self@.trace =~= if include_output {
            old(self)@.trace.push(result.output@)
        } else {
            old(self)@.trace
        });
        self.passed
    }
}

impl CompactAssertionArray {
    /// The assertions of the list, in order.
    pub open spec fn assertions(self) -> Seq<Assertion> {
        match self {
            CompactAssertionArray::Size1(a) => a@,
            CompactAssertionArray::Size2(a) => a@,
            CompactAssertionArray::Size3(a) => a@,
            CompactAssertionArray::Size4(a) => a@,
            CompactAssertionArray::Size5(a) => a@,
            CompactAssertionArray::Size6(a) => a@,
            CompactAssertionArray::Size7(a) => a@,
            CompactAssertionArray::Size8(a) => a@,
            CompactAssertionArray::Size9(a) => a@,
            CompactAssertionArray::Size10(a) => a@,
            CompactAssertionArray::Size11(a) => a@,
            CompactAssertionArray::Size12(a) => a@,
            CompactAssertionArray::Size13(a) => a@,
            CompactAssertionArray::Size14(a) => a@,
            CompactAssertionArray::Size15(a) => a@,
            CompactAssertionArray::Size16(a) => a@,
        }
    }

    /// The assertions of the list, in order.
    pub fn as_slice(&self) -> (list: &[Assertion])
        ensures
            list@ == self.assertions(),
            1 <= list@.len() <= MAX_ASSERTIONS,
    {
        match self {
            CompactAssertionArray::Size1(a) => a.as_slice(),
            CompactAssertionArray::Size2(a) => a.as_slice(),
            CompactAssertionArray::Size3(a) => a.as_slice(),
            CompactAssertionArray::Size4(a) => a.as_slice(),
            CompactAssertionArray::Size5(a) => a.as_slice(),
            CompactAssertionArray::Size6(a) => a.as_slice(),
            CompactAssertionArray::Size7(a) => a.as_slice(),
            CompactAssertionArray::Size8(a) => a.as_slice(),
            CompactAssertionArray::Size9(a) => a.as_slice(),
            CompactAssertionArray::Size10(a) => a.as_slice(),
            CompactAssertionArray::Size11(a) => a.as_slice(),
            CompactAssertionArray::Size12(a) => a.as_slice(),
            CompactAssertionArray::Size13(a) => a.as_slice(),
            CompactAssertionArray::Size14(a) => a.as_slice(),
            CompactAssertionArray::Size15(a) => a.as_slice(),
            CompactAssertionArray::Size16(a) => a.as_slice(),
        }
    }

    /// The number of assertions in the list.
    pub fn len(&self) -> (n: usize)
        ensures
            n == self@.len(),
            1 <= n <= MAX_ASSERTIONS,
    {
        self.as_slice().len()
    }

    /// The list of the given assertions, in order; `None` unless there are
    /// one to sixteen of them.
    pub fn from_vec(assertions: Vec<Assertion>) -> (r: Option<CompactAssertionArray>)
        ensures
            r is Some <==> 1 <= assertions@.len() <= MAX_ASSERTIONS,
            r matches Some(list) ==> list.assertions() == assertions@,
    {
        match assertions.len() {
            1 => match array_from_vec::<Assertion, 1>(assertions) {
                Ok(a) => Some(CompactAssertionArray::Size1(a)),
                Err(_) => None,
            },
            2 => match array_from_vec::<Assertion, 2>(assertions) {
                Ok(a) => Some(CompactAssertionArray::Size2(a)),
                Err(_) => None,
            },
            3 => match array_from_vec::<Assertion, 3>(assertions) {
                Ok(a) => Some(CompactAssertionArray::Size3(a)),
                Err(_) => None,
            },
            4 => match array_from_vec::<Assertion, 4>(assertions) {
                Ok(a) => Some(CompactAssertionArray::Size4(a)),
                Err(_) => None,
            },
            5 => match array_from_vec::<Assertion, 5>(assertions) {
                Ok(a) => Some(CompactAssertionArray::Size5(a)),
                Err(_) => None,
            },
            6 => match array_from_vec::<Assertion, 6>(assertions) {
                Ok(a) => Some(CompactAssertionArray::Size6(a)),
                Err(_) => None,
            },
            7 => match array_from_vec::<Assertion, 7>(assertions) {
                Ok(a) => Some(CompactAssertionArray::Size7(a)),
                Err(_) => None,
            },
            8 => match array_from_vec::<Assertion, 8>(assertions) {
                Ok(a) => Some(CompactAssertionArray::Size8(a)),
                Err(_) => None,
            },
            9 => match array_from_vec::<Assertion, 9>(assertions) {
                Ok(a) => Some(CompactAssertionArray::Size9(a)),
                Err(_) => None,
            },
            10 => match array_from_vec::<Assertion, 10>(assertions) {
                Ok(a) => Some(CompactAssertionArray::Size10(a)),
                Err(_) => None,
            },
            11 => match array_from_vec::<Assertion, 11>(assertions) {
                Ok(a) => Some(CompactAssertionArray::Size11(a)),
                Err(_) => None,
            },
            12 => match array_from_vec::<Assertion, 12>(assertions) {
                Ok(a) => Some(CompactAssertionArray::Size12(a)),
                Err(_) => None,
            },
            13 => match array_from_vec::<Assertion, 13>(assertions) {
                Ok(a) => Some(CompactAssertionArray::Size13(a)),
                Err(_) => None,
            },
            14 => match array_from_vec::<Assertion, 14>(assertions) {
                Ok(a) => Some(CompactAssertionArray::Size14(a)),
                Err(_) => None,
            },
            15 => match array_from_vec::<Assertion, 15>(assertions) {
                Ok(a) => Some(CompactAssertionArray::Size15(a)),
                Err(_) => None,
            },
            16 => match array_from_vec::<Assertion, 16>(assertions) {
                Ok(a) => Some(CompactAssertionArray::Size16(a)),
                Err(_) => None,
            },
            _ => None,
        }
    }

    /// Evaluates the assertions in order against `account` and stops at the
    /// first that faults or does not hold.
    pub fn evaluate_all(&self, account: &TargetAccount, include_output: bool) -> (r: Result<
        EvaluationOutcome,
        EngineError,
    >)
        ensures
            outcome_view(r) == evaluate_all_spec(self@, *account, include_output),
    {
        let list = self.as_slice();
        let mut outcome = EvaluationOutcome::new();
        let mut i: usize = 0;
        while i < list.len()
            invariant
                i <= list.len(),
                list@ == self.assertions(),
                self@.len() == list@.len(),
                first_stop(self@, *account, include_output, 0) == first_stop(
                    self@,
                    *account,
                    include_output,
                    i as int,
                ),
                outcome.passed,
                include_output ==> outcome@.trace.len() == i,
                !include_output ==> outcome@.trace.len() == 0,
                forall|k: int|
                    0 <= k < outcome@.trace.len() ==> (#[trigger] outcome@.trace[k]) == trace_at(
                        self@,
                        *account,
                        k,
                    ),
            decreases list.len() - i,
        {
            assert(self@[i as int] == list@[i as int]@);
            match list[i].evaluate(account, include_output) {
                Err(e) => {
                    return Err(e);
                },
                Ok(result) => {
                    let go_on = outcome.record(result, include_output);
                    if !go_on {
                        assert(outcome@.trace =~= evaluate_all_spec(
                            self@,
                            *account,
                            include_output,
                        )->Ok_0.trace);
                        return Ok(outcome);
                    }
                },
            }
            i = i + 1;
        }
        assert(outcome@.trace =~= evaluate_all_spec(self@, *account, include_output)->Ok_0.trace);
        Ok(outcome)
    }
}

impl View for CompactAssertionArray {
    type V = Seq<AssertionView>;

    open spec fn view(&self) -> Seq<AssertionView> {
        self.assertions().map_values(|a: Assertion| a@)
    }
}

/// The assertions behind the first that faults or does not hold are never
/// evaluated: two lists that agree up to such an assertion come to the same
/// result, whatever stands behind it.
pub proof fn lemma_fail_fast(
    first: Seq<AssertionView>,
    second: Seq<AssertionView>,
    account: TargetAccount,
    include_output: bool,
    i: int,
)
    requires
        0 <= i < first.len(),
        i < second.len(),
        forall|k: int| 0 <= k <= i ==> first[k] == second[k],
        !holds_at(first, account, include_output, i),
    ensures
        evaluate_all_spec(first, account, include_output) == evaluate_all_spec(
            second,
            account,
            include_output,
        ),
{
    lemma_first_stop_agrees(first, second, account, include_output, i, 0);
    let stop = first_stop(first, account, include_output, 0);
    assert(stop == first_stop(second, account, include_output, 0));
    assert(first[stop] == second[stop]);
    let a = evaluate_all_spec(first, account, include_output);
    let b = evaluate_all_spec(second, account, include_output);
    if a is Ok {
        assert(b is Ok);
        assert(a->Ok_0.trace.len() == b->Ok_0.trace.len());
        assert forall|k: int| 0 <= k < a->Ok_0.trace.len() implies a->Ok_0.trace[k]
            == b->Ok_0.trace[k] by {
            assert(first[k] == second[k]);
        }
        assert(a->Ok_0.trace =~= b->Ok_0.trace);
        assert(a->Ok_0 =~= b->Ok_0);
    }
}

/// Two lists that agree up to an assertion that faults or does not hold stop
/// at the same index, which is not behind that assertion.
proof fn lemma_first_stop_agrees(
    first: Seq<AssertionView>,
    second: Seq<AssertionView>,
    account: TargetAccount,
    include_output: bool,
    i: int,
    from: int,
)
    requires
        0 <= from <= i < first.len(),
        i < second.len(),
        forall|k: int| 0 <= k <= i ==> first[k] == second[k],
        !holds_at(first, account, include_output, i),
    ensures
        first_stop(first, account, include_output, from) == first_stop(
            second,
            account,
            include_output,
            from,
        ),
        from <= first_stop(first, account, include_output, from) <= i,
    decreases i - from,
{
    assert(first[from] == second[from]);
    if from < i && holds_at(first, account, include_output, from) {
        lemma_first_stop_agrees(first, second, account, include_output, i, from + 1);
    }
}

/// What the evaluation of a list decided, without its trace: the fault, or
/// whether every assertion held.
pub open spec fn list_decision(r: Result<EvaluationOutcomeView, EngineError>) -> Result<
    bool,
    EngineError,
> {
    match r {
        Ok(v) => Ok(v.passed),
        Err(e) => Err(e),
    }
}

/// The trace of a list is advisory: asking for it changes neither the fault
/// nor whether the list holds.
pub proof fn lemma_list_trace_is_advisory(list: Seq<AssertionView>, account: TargetAccount)
    ensures
        list_decision(evaluate_all_spec(list, account, true)) == list_decision(
            evaluate_all_spec(list, account, false),
        ),
{
    lemma_first_stop_without_trace(list, account, 0);
    let stop = first_stop(list, account, true, 0);
    if stop < list.len() {
        lemma_trace_is_advisory(list[stop], account);
    }
}

/// The evaluation of a list stops at the same assertion with a trace and
/// without one.
proof fn lemma_first_stop_without_trace(list: Seq<AssertionView>, account: TargetAccount, i: int)
    requires
        0 <= i,
    ensures
        first_stop(list, account, true, i) == first_stop(list, account, false, i),
    decreases list.len() - i,
{
    if i < list.len() {
        lemma_trace_is_advisory(list[i], account);
        lemma_first_stop_without_trace(list, account, i + 1);
    }
}

} // verus!
