use lighthouse::account::{AccountInfoDataField, TargetAccount};
use lighthouse::assertion::Assertion;
use lighthouse::error::EngineError;
use lighthouse::operator::Operator;
use lighthouse::value::DataValue;
use solana_program::pubkey::Pubkey;
use std::cell::RefCell;

fn account<'a>(data: Option<&'a [u8]>) -> TargetAccount<'a> {
    TargetAccount {
        key: Pubkey::default().to_bytes(),
        owner: Pubkey::default().to_bytes(),
        lamports: 0,
        data,
        executable: false,
        is_signer: false,
        is_writable: false,
        rent_epoch: 0,
    }
}

#[test]
#[allow(non_snake_case)]
fn evaluate__out_of_range() {
    let data = [0u8; 0];
    let account_info = account(Some(&data));
    let assertion = Assertion::AccountData(0, Operator::Equal, DataValue::U64(0));
    let result = assertion.evaluate(&account_info, false);

    assert_eq!(result.err().unwrap(), EngineError::OutOfRange);
}

#[test]
#[allow(non_snake_case)]
fn evaluate__fail_borrow_account_info() {
    let data = RefCell::new([0u8; 10]);
    let borrowed = data.try_borrow_mut().unwrap();

    let guard = data.try_borrow().ok();
    let account_info = account(guard.as_ref().map(|d| &d[..]));

    let assertion = Assertion::AccountData(0, Operator::Equal, DataValue::U64(0));
    let result = assertion.evaluate(&account_info, false);

    assert_eq!(result.err().unwrap(), EngineError::LockFailure);
    assert_eq!(borrowed.len(), 10);
}

#[test]
#[allow(non_snake_case)]
fn evaluate__account_data() {
    let data = [69u8; 1];
    let account_info = account(Some(&data));
    let assertion = Assertion::AccountData(0, Operator::Equal, DataValue::U8(69));
    let result = assertion.evaluate(&account_info, false).unwrap();
    assert!(result.passed);

    let assertion = Assertion::AccountData(0, Operator::Equal, DataValue::U8(70));
    let result = assertion.evaluate(&account_info, false).unwrap();
    assert!(!result.passed);
}

#[test]
#[allow(non_snake_case)]
fn evaluate__account_info_key() {
    let data = [0u8; 0];
    let key = Pubkey::new_unique().to_bytes();
    let mut account_info = account(Some(&data));
    account_info.key = key;

    let assertion = Assertion::AccountInfoField(AccountInfoDataField::Key(key), Operator::Equal);
    let result = assertion.evaluate(&account_info, true).unwrap();
    assert!(result.passed);

    let assertion = Assertion::AccountInfoField(
        AccountInfoDataField::Key(Pubkey::default().to_bytes()),
        Operator::Equal,
    );
    let result = assertion.evaluate(&account_info, true).unwrap();
    assert!(!result.passed);
}

#[test]
#[allow(non_snake_case)]
fn evaluate__account_info_owner() {
    let data = [0u8; 0];
    let key = Pubkey::new_unique().to_bytes();
    let mut account_info = account(Some(&data));
    account_info.owner = key;

    let assertion =
        Assertion::AccountInfoField(AccountInfoDataField::Owner(key), Operator::Equal);
    let result = assertion.evaluate(&account_info, true).unwrap();
    assert!(result.passed);

    let assertion = Assertion::AccountInfoField(
        AccountInfoDataField::Owner(Pubkey::default().to_bytes()),
        Operator::Equal,
    );
    let result = assertion.evaluate(&account_info, true).unwrap();
    assert!(!result.passed);
}

#[test]
#[allow(non_snake_case)]
fn evaluate__account_info_lamports() {
    let data = [0u8; 0];
    let mut account_info = account(Some(&data));
    account_info.lamports = 69;

    let assertion =
        Assertion::AccountInfoField(AccountInfoDataField::Lamports(69), Operator::Equal);
    let result = assertion.evaluate(&account_info, true).unwrap();
    assert!(result.passed);

    let assertion =
        Assertion::AccountInfoField(AccountInfoDataField::Lamports(1), Operator::Equal);
    let result = assertion.evaluate(&account_info, true).unwrap();
    assert!(!result.passed);
}

#[test]
#[allow(non_snake_case)]
fn evaluate__account_info_data_length() {
    let data = [0u8; 128];
    let account_info = account(Some(&data));

    let assertion =
        Assertion::AccountInfoField(AccountInfoDataField::DataLength(128), Operator::Equal);
    let result = assertion.evaluate(&account_info, true).unwrap();
    assert!(result.passed);

    let assertion =
        Assertion::AccountInfoField(AccountInfoDataField::DataLength(129), Operator::Equal);
    let result = assertion.evaluate(&account_info, true).unwrap();
    assert!(!result.passed);
}

#[test]
#[allow(non_snake_case)]
fn evaluate__account_info_executable() {
    let data = [0u8; 0];
    let mut account_info = account(Some(&data));
    account_info.executable = true;

    let assertion =
        Assertion::AccountInfoField(AccountInfoDataField::Executable(true), Operator::Equal);
    let result = assertion.evaluate(&account_info, true).unwrap();
    assert!(result.passed);

    let assertion =
        Assertion::AccountInfoField(AccountInfoDataField::Executable(false), Operator::Equal);
    let result = assertion.evaluate(&account_info, true).unwrap();
    assert!(!result.passed);
}

#[test]
#[allow(non_snake_case)]
fn evaluate__account_info_is_signer() {
    let data = [0u8; 0];
    let mut account_info = account(Some(&data));
    account_info.is_signer = true;

    let assertion =
        Assertion::AccountInfoField(AccountInfoDataField::IsSigner(true), Operator::Equal);
    let result = assertion.evaluate(&account_info, true).unwrap();
    assert!(result.passed);

    let assertion =
        Assertion::AccountInfoField(AccountInfoDataField::IsSigner(false), Operator::Equal);
    let result = assertion.evaluate(&account_info, true).unwrap();
    assert!(!result.passed);
}

#[test]
#[allow(non_snake_case)]
fn evaluate__account_info_is_writable() {
    let data = [0u8; 0];
    let mut account_info = account(Some(&data));
    account_info.is_writable = true;

    let assertion =
        Assertion::AccountInfoField(AccountInfoDataField::IsWritable(true), Operator::Equal);
    let result = assertion.evaluate(&account_info, true).unwrap();
    assert!(result.passed);

    let assertion =
        Assertion::AccountInfoField(AccountInfoDataField::IsWritable(false), Operator::Equal);
    let result = assertion.evaluate(&account_info, true).unwrap();
    assert!(!result.passed);
}

#[test]
#[allow(non_snake_case)]
fn evaluate__account_info_rent_epoch() {
    let data = [0u8; 0];
    let mut account_info = account(Some(&data));
    account_info.rent_epoch = 69;

    let assertion =
        Assertion::AccountInfoField(AccountInfoDataField::RentEpoch(69), Operator::Equal);
    let result = assertion.evaluate(&account_info, true).unwrap();
    assert!(result.passed);

    let assertion =
        Assertion::AccountInfoField(AccountInfoDataField::RentEpoch(1), Operator::Equal);
    let result = assertion.evaluate(&account_info, true).unwrap();
    assert!(!result.passed);
}
