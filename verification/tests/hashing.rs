use lighthouse::assertion::{evaluate_digest, evaluate_hash, resolve_range};
use lighthouse::{Assertion, EngineError, Operator, TargetAccount};

// Keccak-256 of the empty string and of "abc".
const EMPTY: [u8; 32] = [
    0xc5, 0xd2, 0x46, 0x01, 0x86, 0xf7, 0x23, 0x3c, 0x92, 0x7e, 0x7d, 0xb2, 0xdc, 0xc7, 0x03, 0xc0,
    0xe5, 0x00, 0xb6, 0x53, 0xca, 0x82, 0x27, 0x3b, 0x7b, 0xfa, 0xd8, 0x04, 0x5d, 0x85, 0xa4, 0x70,
];
const ABC: [u8; 32] = [
    0x4e, 0x03, 0x65, 0x7a, 0xea, 0x45, 0xa9, 0x4f, 0xc7, 0xd4, 0x7b, 0xa8, 0x26, 0xc8, 0xd6, 0x67,
    0xc0, 0xd1, 0xe6, 0xe3, 0x3a, 0x64, 0xa0, 0x36, 0xec, 0x44, 0xf5, 0x8f, 0xa1, 0x2d, 0x6c, 0x45,
];

fn account_with<'a>(data: &'a [u8]) -> TargetAccount<'a> {
    TargetAccount {
        key: [0u8; 32],
        owner: [0u8; 32],
        lamports: 0,
        data: Some(data),
        executable: false,
        is_signer: false,
        is_writable: false,
        rent_epoch: 0,
    }
}

#[test]
fn hash_of_the_whole_buffer() {
    let account = account_with(b"abc");
    let holds = Assertion::AccountDataHash(ABC, Operator::Equal, None, None);
    assert!(holds.evaluate(&account, false).unwrap().passed);
    let differs = Assertion::AccountDataHash(ABC, Operator::NotEqual, None, None);
    assert!(!differs.evaluate(&account, false).unwrap().passed);
    let wrong = Assertion::AccountDataHash(EMPTY, Operator::Equal, None, None);
    assert!(!wrong.evaluate(&account, false).unwrap().passed);
}

#[test]
fn hash_of_a_range() {
    let account = account_with(b"xxabcyy");
    let holds = Assertion::AccountDataHash(ABC, Operator::Equal, Some(2), Some(5));
    assert!(holds.evaluate(&account, false).unwrap().passed);
    let shifted = Assertion::AccountDataHash(ABC, Operator::Equal, Some(1), Some(4));
    assert!(!shifted.evaluate(&account, false).unwrap().passed);
    let empty = Assertion::AccountDataHash(EMPTY, Operator::Equal, Some(3), Some(3));
    assert!(empty.evaluate(&account, false).unwrap().passed);
    let to_end = Assertion::AccountDataHash(ABC, Operator::Equal, Some(2), None);
    assert!(!to_end.evaluate(&account, false).unwrap().passed);
    let tail = account_with(b"xxabc");
    assert!(to_end.evaluate(&tail, false).unwrap().passed);
    let head = account_with(b"abcxx");
    let from_start = Assertion::AccountDataHash(ABC, Operator::Equal, None, Some(3));
    assert!(from_start.evaluate(&head, false).unwrap().passed);
}

#[test]
fn hash_of_an_empty_buffer() {
    let account = account_with(b"");
    let holds = Assertion::AccountDataHash(EMPTY, Operator::Equal, None, None);
    assert!(holds.evaluate(&account, false).unwrap().passed);
}

#[test]
fn hash_is_the_same_twice_and_feels_one_byte() {
    let first = evaluate_hash(&ABC, &Operator::Equal, Some(1), Some(4), b"-abc-", false);
    let second = evaluate_hash(&ABC, &Operator::Equal, Some(1), Some(4), b"+abc+", false);
    assert_eq!(first, second);
    assert!(first.unwrap().passed);
    let changed = evaluate_hash(&ABC, &Operator::Equal, Some(1), Some(4), b"-abd-", false);
    assert!(!changed.unwrap().passed);
    let outside = evaluate_hash(&ABC, &Operator::Equal, Some(1), Some(4), b"-abc+", false);
    assert!(outside.unwrap().passed);
}

#[test]
fn hash_range_faults() {
    let account = account_with(b"abc");
    let reversed = Assertion::AccountDataHash(ABC, Operator::Equal, Some(2), Some(1));
    assert_eq!(reversed.evaluate(&account, false), Err(EngineError::OutOfRange));
    let long = Assertion::AccountDataHash(ABC, Operator::Equal, None, Some(4));
    assert_eq!(long.evaluate(&account, false), Err(EngineError::OutOfRange));
    let late = Assertion::AccountDataHash(ABC, Operator::Equal, Some(4), None);
    assert_eq!(late.evaluate(&account, false), Err(EngineError::OutOfRange));
    let at_end = Assertion::AccountDataHash(EMPTY, Operator::Equal, Some(3), None);
    assert!(at_end.evaluate(&account, false).unwrap().passed);
}

#[test]
fn hash_needs_an_equatable_operator() {
    let account = account_with(b"abc");
    for operator in [
        Operator::GreaterThan,
        Operator::LessThan,
        Operator::GreaterThanOrEqual,
        Operator::LessThanOrEqual,
        Operator::AllBitsSet,
        Operator::AnyBitsSet,
        Operator::AllBitsClear,
        Operator::DoesNotExist,
    ] {
        let assertion = Assertion::AccountDataHash(ABC, operator, None, None);
        assert_eq!(assertion.evaluate(&account, false), Err(EngineError::TypeMismatch));
        let bad_range = Assertion::AccountDataHash(ABC, operator, Some(9), None);
        assert_eq!(bad_range.evaluate(&account, false), Err(EngineError::TypeMismatch));
    }
}

#[test]
fn resolve_range_defaults() {
    assert_eq!(resolve_range(None, None, 10), Ok((0, 10)));
    assert_eq!(resolve_range(Some(3), None, 10), Ok((3, 10)));
    assert_eq!(resolve_range(None, Some(4), 10), Ok((0, 4)));
    assert_eq!(resolve_range(Some(4), Some(4), 10), Ok((4, 4)));
    assert_eq!(resolve_range(Some(10), Some(10), 10), Ok((10, 10)));
    assert_eq!(resolve_range(Some(5), Some(4), 10), Err(EngineError::OutOfRange));
    assert_eq!(resolve_range(Some(0), Some(11), 10), Err(EngineError::OutOfRange));
    assert_eq!(resolve_range(Some(11), None, 10), Err(EngineError::OutOfRange));
    assert_eq!(resolve_range(None, None, 100_000), Ok((0, 100_000)));
}

#[test]
fn digest_comparison() {
    assert!(evaluate_digest(&ABC, &ABC, &Operator::Equal, false).unwrap().passed);
    assert!(!evaluate_digest(&ABC, &EMPTY, &Operator::Equal, false).unwrap().passed);
    assert!(evaluate_digest(&ABC, &EMPTY, &Operator::NotEqual, false).unwrap().passed);
    assert_eq!(
        evaluate_digest(&ABC, &ABC, &Operator::LessThan, false),
        Err(EngineError::TypeMismatch)
    );
    let traced = evaluate_digest(&[1u8; 32], &[2u8; 32], &Operator::Equal, true).unwrap();
    assert_eq!(
        traced.output,
        "actual=Bytes32([1, 1, 1, 1, 1, 1, 1, 1, 1, 1, 1, 1, 1, 1, 1, 1, 1, 1, 1, 1, 1, 1, 1, 1, 1, 1, 1, 1, 1, 1, 1, 1]) Equal expected=Bytes32([2, 2, 2, 2, 2, 2, 2, 2, 2, 2, 2, 2, 2, 2, 2, 2, 2, 2, 2, 2, 2, 2, 2, 2, 2, 2, 2, 2, 2, 2, 2, 2])"
    );
}
