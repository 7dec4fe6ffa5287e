use lighthouse::{
    AccountInfoDataField, Assertion, CompactAssertionArray, DataValue, EngineError,
    EvaluationOutcome, EvaluationResult, Operator, TargetAccount,
};

fn account_with<'a>(data: Option<&'a [u8]>) -> TargetAccount<'a> {
    TargetAccount {
        key: [1u8; 32],
        owner: [2u8; 32],
        lamports: 5,
        data,
        executable: false,
        is_signer: false,
        is_writable: false,
        rent_epoch: 0,
    }
}

fn byte_is(offset: u16, value: u8) -> Assertion {
    Assertion::AccountData(offset, Operator::Equal, DataValue::U8(value))
}

#[test]
fn list_of_three_where_the_second_fails() {
    let data = [10u8, 20, 30];
    let account = account_with(Some(&data));
    let list = CompactAssertionArray::Size3([byte_is(0, 10), byte_is(1, 21), byte_is(2, 30)]);
    let outcome = list.evaluate_all(&account, true).unwrap();
    assert_eq!(outcome.passed, false);
    assert_eq!(
        outcome.trace,
        vec![
            "AccountData[0|Equal|U8(10)] passed \u{2014} actual=U8(10) Equal expected=U8(10)"
                .to_string(),
            "AccountData[1|Equal|U8(21)] failed \u{2014} actual=U8(20) Equal expected=U8(21)"
                .to_string(),
        ]
    );
    let silent = list.evaluate_all(&account, false).unwrap();
    assert_eq!(silent.passed, false);
    assert!(silent.trace.is_empty());
}

#[test]
fn list_where_all_hold() {
    let data = [10u8, 20, 30];
    let account = account_with(Some(&data));
    let list = CompactAssertionArray::Size3([byte_is(0, 10), byte_is(1, 20), byte_is(2, 30)]);
    let outcome = list.evaluate_all(&account, true).unwrap();
    assert!(outcome.passed);
    assert_eq!(outcome.trace.len(), 3);
    assert_eq!(
        outcome.trace[2],
        "AccountData[2|Equal|U8(30)] passed \u{2014} actual=U8(30) Equal expected=U8(30)"
    );
    let silent = list.evaluate_all(&account, false).unwrap();
    assert!(silent.passed);
    assert!(silent.trace.is_empty());
}

#[test]
fn nothing_behind_a_failure_is_evaluated() {
    let data = [10u8, 20, 30];
    let account = account_with(Some(&data));
    // The third assertion would be a fault if it were evaluated.
    let faulty = byte_is(99, 0);
    assert_eq!(faulty.evaluate(&account, false), Err(EngineError::OutOfRange));
    let list = CompactAssertionArray::Size3([byte_is(0, 10), byte_is(1, 21), faulty.clone()]);
    let outcome = list.evaluate_all(&account, true).unwrap();
    assert!(!outcome.passed);
    assert_eq!(outcome.trace.len(), 2);

    // Whatever stands behind the failure, the outcome is the same.
    let other = CompactAssertionArray::Size4([
        byte_is(0, 10),
        byte_is(1, 21),
        byte_is(2, 30),
        byte_is(2, 31),
    ]);
    assert_eq!(other.evaluate_all(&account, true).unwrap(), outcome);

    // Before the failure it is evaluated, and the fault is the result.
    let early = CompactAssertionArray::Size3([byte_is(0, 10), faulty, byte_is(1, 21)]);
    assert_eq!(early.evaluate_all(&account, true), Err(EngineError::OutOfRange));
}

#[test]
fn a_fault_ends_the_list() {
    let locked = account_with(None);
    let list = CompactAssertionArray::Size2([
        Assertion::AccountInfoField(AccountInfoDataField::Lamports(5), Operator::Equal),
        byte_is(0, 0),
    ]);
    assert_eq!(list.evaluate_all(&locked, false), Err(EngineError::LockFailure));
    let first_only = CompactAssertionArray::Size1([Assertion::AccountInfoField(
        AccountInfoDataField::Lamports(5),
        Operator::Equal,
    )]);
    assert!(first_only.evaluate_all(&locked, false).unwrap().passed);
}

#[test]
fn lists_of_every_length() {
    let data = [7u8; 16];
    let account = account_with(Some(&data));
    for n in 1..=16usize {
        let assertions: Vec<Assertion> = (0..n).map(|i| byte_is(i as u16, 7)).collect();
        let list = CompactAssertionArray::from_vec(assertions.clone()).unwrap();
        assert_eq!(list.len(), n);
        assert_eq!(list.as_slice(), &assertions[..]);
        let outcome = list.evaluate_all(&account, true).unwrap();
        assert!(outcome.passed);
        assert_eq!(outcome.trace.len(), n);
    }
}

#[test]
fn no_list_of_none_or_of_more_than_sixteen() {
    assert_eq!(CompactAssertionArray::from_vec(vec![]), None);
    let seventeen: Vec<Assertion> = (0..17).map(|i| byte_is(i, 7)).collect();
    assert_eq!(CompactAssertionArray::from_vec(seventeen), None);
}

#[test]
fn from_vec_keeps_the_order() {
    let list = CompactAssertionArray::from_vec(vec![byte_is(3, 1), byte_is(1, 2)]).unwrap();
    assert_eq!(list, CompactAssertionArray::Size2([byte_is(3, 1), byte_is(1, 2)]));
}

#[test]
fn outcome_takes_in_results_one_by_one() {
    let mut outcome = EvaluationOutcome::new();
    assert_eq!(outcome, EvaluationOutcome { passed: true, trace: vec![] });
    let go_on = outcome.record(EvaluationResult { passed: true, output: "one".to_string() }, true);
    assert!(go_on);
    let go_on = outcome.record(EvaluationResult { passed: false, output: "two".to_string() }, true);
    assert!(!go_on);
    assert_eq!(
        outcome,
        EvaluationOutcome { passed: false, trace: vec!["one".to_string(), "two".to_string()] }
    );

    let mut silent = EvaluationOutcome::new();
    assert!(silent.record(EvaluationResult { passed: true, output: String::new() }, false));
    assert!(!silent.record(EvaluationResult { passed: false, output: String::new() }, false));
    assert_eq!(silent, EvaluationOutcome { passed: false, trace: vec![] });
}

#[test]
fn stepwise_evaluation_agrees_with_evaluate_all() {
    let data = [10u8, 20, 30];
    let account = account_with(Some(&data));
    for wrong in 0..4u16 {
        let assertions: Vec<Assertion> = (0..3u16)
            .map(|i| byte_is(i, data[i as usize] + if i == wrong { 1 } else { 0 }))
            .collect();
        let list = CompactAssertionArray::from_vec(assertions).unwrap();
        let mut outcome = EvaluationOutcome::new();
        for assertion in list.as_slice() {
            let result = assertion.evaluate(&account, true).unwrap();
            if !outcome.record(result, true) {
                break;
            }
        }
        assert_eq!(outcome, list.evaluate_all(&account, true).unwrap());
        assert_eq!(outcome.passed, wrong == 3);
    }
}
