use lighthouse::{
    AccountInfoDataField, Assertion, DataValue, EngineError, Operator, TargetAccount,
    TokenAccountDataField,
};

fn account_with<'a>(data: Option<&'a [u8]>) -> TargetAccount<'a> {
    TargetAccount {
        key: [1u8; 32],
        owner: [2u8; 32],
        lamports: 1_000,
        data,
        executable: true,
        is_signer: false,
        is_writable: true,
        rent_epoch: 42,
    }
}

#[test]
fn field_comparison_passes_and_fails_without_fault() {
    let data = [69u8];
    let account = account_with(Some(&data));
    let holds = Assertion::AccountData(0, Operator::Equal, DataValue::U8(69));
    assert_eq!(holds.evaluate(&account, false).unwrap().passed, true);
    let fails = Assertion::AccountData(0, Operator::Equal, DataValue::U8(70));
    assert_eq!(fails.evaluate(&account, false).unwrap().passed, false);
}

#[test]
fn field_comparison_on_an_empty_buffer_is_out_of_range() {
    let data: [u8; 0] = [];
    let account = account_with(Some(&data));
    let assertion = Assertion::AccountData(0, Operator::Equal, DataValue::U8(0));
    assert_eq!(assertion.evaluate(&account, false), Err(EngineError::OutOfRange));
    assert_eq!(assertion.evaluate(&account, true), Err(EngineError::OutOfRange));
}

#[test]
fn executable_flag_is_compared() {
    let account = account_with(None);
    let holds =
        Assertion::AccountInfoField(AccountInfoDataField::Executable(true), Operator::Equal);
    assert!(holds.evaluate(&account, false).unwrap().passed);
    let fails =
        Assertion::AccountInfoField(AccountInfoDataField::Executable(false), Operator::Equal);
    assert!(!fails.evaluate(&account, false).unwrap().passed);
}

#[test]
fn optional_field_that_is_absent() {
    let data = [9u8, 9, 9, 9, 9, 0];
    let account = account_with(Some(&data));
    let absent = Assertion::AcountDataOption(5, Operator::DoesNotExist, DataValue::U64(1));
    assert!(absent.evaluate(&account, false).unwrap().passed);
    let wanted = Assertion::AcountDataOption(5, Operator::Equal, DataValue::U64(1));
    let result = wanted.evaluate(&account, false);
    assert_eq!(result.unwrap().passed, false);
    for operator in [
        Operator::NotEqual,
        Operator::GreaterThan,
        Operator::LessThan,
        Operator::AllBitsClear,
    ] {
        let assertion = Assertion::AcountDataOption(5, operator, DataValue::U64(1));
        assert!(!assertion.evaluate(&account, false).unwrap().passed);
    }
}

#[test]
fn optional_field_that_is_present() {
    let data = [0u8, 1, 7, 0];
    let account = account_with(Some(&data));
    let exists = Assertion::AcountDataOption(1, Operator::DoesNotExist, DataValue::U16(7));
    assert_eq!(exists.evaluate(&account, false).unwrap().passed, false);

    for (operator, literal) in [
        (Operator::Equal, 7u16),
        (Operator::Equal, 8),
        (Operator::GreaterThan, 6),
        (Operator::LessThan, 6),
    ] {
        let optional = Assertion::AcountDataOption(1, operator, DataValue::U16(literal));
        let plain = Assertion::AccountData(2, operator, DataValue::U16(literal));
        assert_eq!(optional.evaluate(&account, false), plain.evaluate(&account, false));
    }
    let holds = Assertion::AcountDataOption(1, Operator::Equal, DataValue::U16(7));
    assert!(holds.evaluate(&account, false).unwrap().passed);
}

#[test]
fn optional_field_faults() {
    let data = [0u8, 1, 7];
    let account = account_with(Some(&data));
    let beyond = Assertion::AcountDataOption(3, Operator::DoesNotExist, DataValue::U8(0));
    assert_eq!(beyond.evaluate(&account, false), Err(EngineError::OutOfRange));
    let far = Assertion::AcountDataOption(u64::MAX, Operator::Equal, DataValue::U8(0));
    assert_eq!(far.evaluate(&account, false), Err(EngineError::OutOfRange));
    let cut = Assertion::AcountDataOption(1, Operator::Equal, DataValue::U16(7));
    assert_eq!(cut.evaluate(&account, false), Err(EngineError::OutOfRange));
    let mistyped = Assertion::AcountDataOption(1, Operator::LessThan, DataValue::Bool(true));
    assert_eq!(mistyped.evaluate(&account, false), Err(EngineError::TypeMismatch));
    let locked = account_with(None);
    assert_eq!(beyond.evaluate(&locked, false), Err(EngineError::LockFailure));
}

#[test]
fn optional_field_traces() {
    let data = [0u8, 1, 7, 0];
    let account = account_with(Some(&data));
    let absent = Assertion::AcountDataOption(0, Operator::DoesNotExist, DataValue::U8(1));
    assert_eq!(
        absent.evaluate(&account, true).unwrap().output,
        "AcountDataOption[0|DoesNotExist|U8(1)] passed \u{2014} field does not exist"
    );
    let missing = Assertion::AcountDataOption(0, Operator::Equal, DataValue::U8(1));
    assert_eq!(
        missing.evaluate(&account, true).unwrap().output,
        "AcountDataOption[0|Equal|U8(1)] failed \u{2014} field does not exist"
    );
    let exists = Assertion::AcountDataOption(1, Operator::DoesNotExist, DataValue::U8(1));
    assert_eq!(
        exists.evaluate(&account, true).unwrap().output,
        "AcountDataOption[1|DoesNotExist|U8(1)] failed \u{2014} field exists"
    );
    let compared = Assertion::AcountDataOption(1, Operator::GreaterThan, DataValue::U8(1));
    assert_eq!(
        compared.evaluate(&account, true).unwrap().output,
        "AcountDataOption[1|GreaterThan|U8(1)] passed \u{2014} actual=U8(7) GreaterThan expected=U8(1)"
    );
}

#[test]
fn trace_never_changes_the_decision() {
    let data = [69u8, 0, 1, 2];
    let account = account_with(Some(&data));
    let assertions = [
        Assertion::AccountData(0, Operator::Equal, DataValue::U8(69)),
        Assertion::AccountData(0, Operator::Equal, DataValue::U8(70)),
        Assertion::AccountData(1, Operator::LessThan, DataValue::U16(300)),
        Assertion::AcountDataOption(1, Operator::DoesNotExist, DataValue::U8(0)),
        Assertion::AccountInfoField(AccountInfoDataField::Lamports(999), Operator::GreaterThan),
        Assertion::AccountDataHash([0u8; 32], Operator::NotEqual, None, None),
    ];
    for assertion in assertions.iter() {
        let silent = assertion.evaluate(&account, false).unwrap();
        let verbose = assertion.evaluate(&account, true).unwrap();
        assert_eq!(silent.passed, verbose.passed);
        assert_eq!(silent.output, "");
        assert!(verbose.output.starts_with(&assertion.format()));
    }
}

#[test]
fn field_comparison_trace_line() {
    let data = [69u8];
    let account = account_with(Some(&data));
    let holds = Assertion::AccountData(0, Operator::Equal, DataValue::U8(69));
    assert_eq!(
        holds.evaluate(&account, true).unwrap().output,
        "AccountData[0|Equal|U8(69)] passed \u{2014} actual=U8(69) Equal expected=U8(69)"
    );
    let fails = Assertion::AccountData(0, Operator::Equal, DataValue::U8(70));
    assert_eq!(
        fails.evaluate(&account, true).unwrap().output,
        "AccountData[0|Equal|U8(70)] failed \u{2014} actual=U8(69) Equal expected=U8(70)"
    );
}

#[test]
fn format_of_every_variant() {
    assert_eq!(
        Assertion::AccountData(258, Operator::NotEqual, DataValue::I64(-9)).format(),
        "AccountData[258|NotEqual|I64(-9)]"
    );
    assert_eq!(
        Assertion::AcountDataOption(18446744073709551615, Operator::Equal, DataValue::Bool(true))
            .format(),
        "AcountDataOption[18446744073709551615|Equal|Bool(true)]"
    );
    let mut hash = [0u8; 32];
    hash[0] = 1;
    hash[31] = 255;
    assert_eq!(
        Assertion::AccountDataHash(hash, Operator::Equal, Some(5), None).format(),
        "AccountDataHash[[1, 0, 0, 0, 0, 0, 0, 0, 0, 0, 0, 0, 0, 0, 0, 0, 0, 0, 0, 0, 0, 0, 0, 0, 0, 0, 0, 0, 0, 0, 0, 255]|Equal|(Some(5),None)]"
    );
    assert_eq!(
        Assertion::TokenAccountField(TokenAccountDataField::Amount(100), Operator::LessThanOrEqual)
            .format(),
        "TokenAccountField[Amount(100)|LessThanOrEqual]"
    );
    assert_eq!(
        Assertion::TokenAccountField(TokenAccountDataField::Delegate(None), Operator::Equal)
            .format(),
        "TokenAccountField[Delegate(None)|Equal]"
    );
    assert_eq!(
        Assertion::TokenAccountField(
            TokenAccountDataField::CloseAuthority(Some([0u8; 32])),
            Operator::Equal
        )
        .format(),
        "TokenAccountField[CloseAuthority(Some(11111111111111111111111111111111))|Equal]"
    );
    assert_eq!(
        Assertion::TokenAccountField(TokenAccountDataField::IsNative(Some(3)), Operator::NotEqual)
            .format(),
        "TokenAccountField[IsNative(Some(3))|NotEqual]"
    );
    assert_eq!(
        Assertion::AccountInfoField(AccountInfoDataField::Key([0u8; 32]), Operator::Equal)
            .format(),
        "AccountInfoField[Key(11111111111111111111111111111111)|Equal]"
    );
    assert_eq!(
        Assertion::AccountInfoField(AccountInfoDataField::IsSigner(false), Operator::Equal)
            .format(),
        "AccountInfoField[IsSigner(false)|Equal]"
    );
    assert_eq!(
        Assertion::AccountInfoField(AccountInfoDataField::DataLength(128), Operator::GreaterThan)
            .format(),
        "AccountInfoField[DataLength(128)|GreaterThan]"
    );
}

#[test]
fn format_shows_an_address_in_base_58() {
    // The address of the system program is thirty-two zero bytes; that of the
    // token program is a well-known one.
    let token_program: [u8; 32] = [
        6, 221, 246, 225, 215, 101, 161, 147, 217, 203, 225, 70, 206, 235, 121, 172, 28, 180, 133,
        237, 95, 91, 55, 145, 58, 140, 245, 133, 126, 255, 0, 169,
    ];
    assert_eq!(
        Assertion::AccountInfoField(AccountInfoDataField::Owner(token_program), Operator::Equal)
            .format(),
        "AccountInfoField[Owner(TokenkegQfeZyiNwAJbNbGKPFXCWuBvf9Ss623VQ5DA)|Equal]"
    );
}

#[test]
fn metadata_fields_against_the_account() {
    let data = [0u8; 10];
    let account = account_with(Some(&data));
    let cases = [
        (AccountInfoDataField::Key([1u8; 32]), Operator::Equal, true),
        (AccountInfoDataField::Key([2u8; 32]), Operator::Equal, false),
        (AccountInfoDataField::Owner([2u8; 32]), Operator::Equal, true),
        (AccountInfoDataField::Owner([2u8; 32]), Operator::NotEqual, false),
        (AccountInfoDataField::Lamports(1_000), Operator::GreaterThanOrEqual, true),
        (AccountInfoDataField::Lamports(999), Operator::GreaterThan, true),
        (AccountInfoDataField::Lamports(999), Operator::LessThan, false),
        (AccountInfoDataField::DataLength(10), Operator::Equal, true),
        (AccountInfoDataField::DataLength(11), Operator::LessThan, true),
        (AccountInfoDataField::Executable(true), Operator::Equal, true),
        (AccountInfoDataField::IsSigner(true), Operator::Equal, false),
        (AccountInfoDataField::IsWritable(true), Operator::Equal, true),
        (AccountInfoDataField::RentEpoch(42), Operator::Equal, true),
        (AccountInfoDataField::RentEpoch(40), Operator::AnyBitsSet, true),
        (AccountInfoDataField::RentEpoch(42), Operator::AllBitsSet, true),
        (AccountInfoDataField::RentEpoch(21), Operator::AllBitsClear, true),
    ];
    for (field, operator, expected) in cases {
        let result = field.evaluate(&account, &operator, false).unwrap();
        assert_eq!(result.passed, expected);
    }
}

#[test]
fn metadata_faults() {
    let locked = account_with(None);
    assert_eq!(
        AccountInfoDataField::DataLength(0).evaluate(&locked, &Operator::Equal, false),
        Err(EngineError::LockFailure)
    );
    // Nothing but the length needs the buffer.
    assert!(AccountInfoDataField::Lamports(1_000)
        .evaluate(&locked, &Operator::Equal, false)
        .unwrap()
        .passed);
    assert_eq!(
        AccountInfoDataField::Executable(true).evaluate(&locked, &Operator::GreaterThan, false),
        Err(EngineError::TypeMismatch)
    );
    assert_eq!(
        AccountInfoDataField::Key([0u8; 32]).evaluate(&locked, &Operator::AllBitsSet, false),
        Err(EngineError::TypeMismatch)
    );
    assert_eq!(
        AccountInfoDataField::Lamports(0).evaluate(&locked, &Operator::DoesNotExist, false),
        Err(EngineError::TypeMismatch)
    );
}

#[test]
fn metadata_trace_line() {
    let account = account_with(None);
    let assertion =
        Assertion::AccountInfoField(AccountInfoDataField::Lamports(69), Operator::LessThan);
    assert_eq!(
        assertion.evaluate(&account, true).unwrap().output,
        "AccountInfoField[Lamports(69)|LessThan] failed \u{2014} actual=U64(1000) LessThan expected=U64(69)"
    );
}

#[test]
fn buffer_assertions_need_the_buffer() {
    let locked = account_with(None);
    let assertions = [
        Assertion::AccountData(0, Operator::Equal, DataValue::U8(0)),
        Assertion::AccountDataHash([0u8; 32], Operator::Equal, None, None),
        Assertion::AcountDataOption(0, Operator::Equal, DataValue::U8(0)),
        Assertion::TokenAccountField(TokenAccountDataField::Amount(0), Operator::Equal),
    ];
    for assertion in assertions.iter() {
        assert_eq!(assertion.evaluate(&locked, false), Err(EngineError::LockFailure));
    }
}

#[test]
fn error_messages() {
    assert_eq!(EngineError::OutOfRange.message(), "offset or range exceeds the buffer length");
    assert_eq!(EngineError::LockFailure.message(), "buffer unavailable for reading");
    assert_eq!(EngineError::TypeMismatch.message(), "operand kind or operator mismatch");
    assert_eq!(EngineError::UnsupportedField.message(), "field not yet supported");
    assert_eq!(
        EngineError::MalformedEncoding.message(),
        "bytes do not decode to a known discriminant"
    );
}
