use lighthouse::{DataKind, DataValue, EngineError, Operator};

#[test]
fn decode_reads_unsigned_integers_low_byte_first() {
    let buffer = [0x01u8, 0x02, 0x03, 0x04, 0x05, 0x06, 0x07, 0x08, 0x09];
    assert_eq!(DataValue::decode(&buffer, 0, DataKind::U8), Ok(DataValue::U8(1)));
    assert_eq!(DataValue::decode(&buffer, 1, DataKind::U16), Ok(DataValue::U16(0x0302)));
    assert_eq!(DataValue::decode(&buffer, 0, DataKind::U32), Ok(DataValue::U32(0x04030201)));
    assert_eq!(
        DataValue::decode(&buffer, 1, DataKind::U64),
        Ok(DataValue::U64(0x0908070605040302))
    );
}

#[test]
fn decode_reads_u128() {
    let mut buffer = [0u8; 16];
    for i in 0..16 {
        buffer[i] = (i as u8) + 1;
    }
    assert_eq!(
        DataValue::decode(&buffer, 0, DataKind::U128),
        Ok(DataValue::U128(u128::from_le_bytes(buffer)))
    );
    assert_eq!(
        DataValue::decode(&[0xffu8; 16], 0, DataKind::U128),
        Ok(DataValue::U128(u128::MAX))
    );
}

#[test]
fn decode_reads_signed_integers_in_twos_complement() {
    assert_eq!(DataValue::decode(&[0xff], 0, DataKind::I8), Ok(DataValue::I8(-1)));
    assert_eq!(DataValue::decode(&[0x80], 0, DataKind::I8), Ok(DataValue::I8(i8::MIN)));
    assert_eq!(DataValue::decode(&[0x7f], 0, DataKind::I8), Ok(DataValue::I8(i8::MAX)));
    assert_eq!(DataValue::decode(&[0xfe, 0xff], 0, DataKind::I16), Ok(DataValue::I16(-2)));
    assert_eq!(
        DataValue::decode(&(-123456i32).to_le_bytes(), 0, DataKind::I32),
        Ok(DataValue::I32(-123456))
    );
    assert_eq!(
        DataValue::decode(&i64::MIN.to_le_bytes(), 0, DataKind::I64),
        Ok(DataValue::I64(i64::MIN))
    );
    assert_eq!(
        DataValue::decode(&i128::MIN.to_le_bytes(), 0, DataKind::I128),
        Ok(DataValue::I128(i128::MIN))
    );
    assert_eq!(
        DataValue::decode(&(-1i128).to_le_bytes(), 0, DataKind::I128),
        Ok(DataValue::I128(-1))
    );
    assert_eq!(
        DataValue::decode(&i128::MAX.to_le_bytes(), 0, DataKind::I128),
        Ok(DataValue::I128(i128::MAX))
    );
}

#[test]
fn decode_reads_flags_and_byte_strings() {
    let mut buffer = [0u8; 40];
    for i in 0..40 {
        buffer[i] = i as u8;
    }
    assert_eq!(DataValue::decode(&buffer, 0, DataKind::Bool), Ok(DataValue::Bool(false)));
    assert_eq!(DataValue::decode(&buffer, 1, DataKind::Bool), Ok(DataValue::Bool(true)));
    assert_eq!(DataValue::decode(&buffer, 2, DataKind::Bool), Ok(DataValue::Bool(true)));
    let mut expected = [0u8; 32];
    expected.copy_from_slice(&buffer[8..40]);
    assert_eq!(
        DataValue::decode(&buffer, 8, DataKind::Bytes32),
        Ok(DataValue::Bytes32(expected))
    );
    assert_eq!(DataValue::decode(&buffer, 8, DataKind::Pubkey), Ok(DataValue::Pubkey(expected)));
    assert_eq!(
        DataValue::decode(&buffer, 3, DataKind::Bytes(4)),
        Ok(DataValue::Bytes(vec![3, 4, 5, 6]))
    );
    assert_eq!(DataValue::decode(&buffer, 40, DataKind::Bytes(0)), Ok(DataValue::Bytes(vec![])));
}

#[test]
fn decode_is_out_of_range_exactly_when_the_value_overruns() {
    let buffer = [0u8; 8];
    for offset in 0..12usize {
        for kind in [
            DataKind::U8,
            DataKind::U16,
            DataKind::U32,
            DataKind::U64,
            DataKind::U128,
            DataKind::I8,
            DataKind::I16,
            DataKind::I32,
            DataKind::I64,
            DataKind::I128,
            DataKind::Bool,
            DataKind::Bytes32,
            DataKind::Pubkey,
            DataKind::Bytes(3),
        ] {
            let result = DataValue::decode(&buffer, offset, kind);
            if offset + kind.width() > buffer.len() {
                assert_eq!(result, Err(EngineError::OutOfRange));
            } else {
                assert_eq!(result.unwrap().kind(), kind);
            }
        }
    }
    assert_eq!(
        DataValue::decode(&buffer, usize::MAX, DataKind::U16),
        Err(EngineError::OutOfRange)
    );
    assert_eq!(
        DataValue::decode(&buffer, 4, DataKind::Bytes(usize::MAX)),
        Err(EngineError::OutOfRange)
    );
}

#[test]
fn widths_of_the_kinds() {
    assert_eq!(DataKind::U8.width(), 1);
    assert_eq!(DataKind::I16.width(), 2);
    assert_eq!(DataKind::U32.width(), 4);
    assert_eq!(DataKind::I64.width(), 8);
    assert_eq!(DataKind::U128.width(), 16);
    assert_eq!(DataKind::Bool.width(), 1);
    assert_eq!(DataKind::Bytes32.width(), 32);
    assert_eq!(DataKind::Pubkey.width(), 32);
    assert_eq!(DataKind::Bytes(7).width(), 7);
}

fn sample_values() -> Vec<DataValue> {
    vec![
        DataValue::U8(7),
        DataValue::U16(700),
        DataValue::U32(70_000),
        DataValue::U64(7_000_000_000),
        DataValue::U128(u128::MAX),
        DataValue::I8(-7),
        DataValue::I16(-700),
        DataValue::I32(-70_000),
        DataValue::I64(-7_000_000_000),
        DataValue::I128(i128::MIN),
        DataValue::Bool(true),
        DataValue::Bytes32([3u8; 32]),
        DataValue::Pubkey([4u8; 32]),
        DataValue::Bytes(vec![1, 2, 3]),
    ]
}

#[test]
fn equal_is_reflexive_and_not_equal_is_its_complement() {
    for value in sample_values() {
        let equal = value.compare(&value, &Operator::Equal, false);
        let not_equal = value.compare(&value, &Operator::NotEqual, false);
        assert!(equal.passed);
        assert!(!not_equal.passed);
    }
    let pairs = [
        (DataValue::U8(1), DataValue::U8(2)),
        (DataValue::I64(-1), DataValue::I64(1)),
        (DataValue::Bool(true), DataValue::Bool(false)),
        (DataValue::Bytes32([1u8; 32]), DataValue::Bytes32([2u8; 32])),
        (DataValue::Pubkey([1u8; 32]), DataValue::Pubkey([2u8; 32])),
        (DataValue::Bytes(vec![1, 2]), DataValue::Bytes(vec![1, 3])),
    ];
    for (a, b) in pairs {
        assert!(!a.compare(&b, &Operator::Equal, false).passed);
        assert!(a.compare(&b, &Operator::NotEqual, false).passed);
    }
}

#[test]
fn ordering_is_that_of_the_numbers() {
    let small = DataValue::I16(-5);
    let large = DataValue::I16(3);
    assert!(small.compare(&large, &Operator::LessThan, false).passed);
    assert!(small.compare(&large, &Operator::LessThanOrEqual, false).passed);
    assert!(!small.compare(&large, &Operator::GreaterThan, false).passed);
    assert!(!small.compare(&large, &Operator::GreaterThanOrEqual, false).passed);
    assert!(large.compare(&small, &Operator::GreaterThan, false).passed);
    assert!(large.compare(&large, &Operator::GreaterThanOrEqual, false).passed);
    assert!(large.compare(&large, &Operator::LessThanOrEqual, false).passed);
    assert!(!large.compare(&large, &Operator::LessThan, false).passed);

    let a = DataValue::U128(u128::MAX);
    let b = DataValue::U128(1);
    assert!(a.compare(&b, &Operator::GreaterThan, false).passed);
    assert!(b.compare(&a, &Operator::LessThan, false).passed);
}

#[test]
fn bit_masks_are_taken_on_the_patterns() {
    let actual = DataValue::U8(0b1010_1100);
    assert!(actual.compare(&DataValue::U8(0b1000_0100), &Operator::AllBitsSet, false).passed);
    assert!(!actual.compare(&DataValue::U8(0b1000_0101), &Operator::AllBitsSet, false).passed);
    assert!(actual.compare(&DataValue::U8(0b0000_0101), &Operator::AnyBitsSet, false).passed);
    assert!(!actual.compare(&DataValue::U8(0b0101_0011), &Operator::AnyBitsSet, false).passed);
    assert!(actual.compare(&DataValue::U8(0b0101_0011), &Operator::AllBitsClear, false).passed);
    assert!(!actual.compare(&DataValue::U8(0b0000_0100), &Operator::AllBitsClear, false).passed);

    // -1 has every bit set, -128 only the highest.
    let minus_one = DataValue::I8(-1);
    assert!(minus_one.compare(&DataValue::I8(i8::MIN), &Operator::AllBitsSet, false).passed);
    assert!(minus_one.compare(&DataValue::I8(0x55), &Operator::AllBitsSet, false).passed);
    let lowest = DataValue::I8(i8::MIN);
    assert!(lowest.compare(&DataValue::I8(0x7f), &Operator::AllBitsClear, false).passed);
    assert!(lowest.compare(&DataValue::I8(-1), &Operator::AnyBitsSet, false).passed);
    assert!(!lowest.compare(&DataValue::I8(-1), &Operator::AllBitsSet, false).passed);
}

#[test]
fn operator_evaluate_tells_type_faults_apart() {
    let a = DataValue::U8(1);
    let b = DataValue::U16(1);
    assert_eq!(Operator::Equal.evaluate(&a, &b, false), Err(EngineError::TypeMismatch));
    assert_eq!(
        Operator::DoesNotExist.evaluate(&a, &a, false),
        Err(EngineError::TypeMismatch)
    );
    let flag = DataValue::Bool(true);
    assert_eq!(
        Operator::GreaterThan.evaluate(&flag, &flag, false),
        Err(EngineError::TypeMismatch)
    );
    assert_eq!(
        Operator::AllBitsSet.evaluate(&DataValue::Pubkey([0; 32]), &DataValue::Pubkey([0; 32]), false),
        Err(EngineError::TypeMismatch)
    );
    assert_eq!(
        Operator::Equal.evaluate(&DataValue::Bytes(vec![1]), &DataValue::Bytes(vec![1, 2]), false),
        Err(EngineError::TypeMismatch)
    );
    assert!(Operator::Equal.evaluate(&flag, &flag, false).unwrap().passed);
    assert!(Operator::NotEqual.supports(&DataKind::Bytes(3)));
    assert!(!Operator::LessThan.supports(&DataKind::Bytes32));
    assert!(Operator::LessThan.supports(&DataKind::I128));
    assert!(!Operator::DoesNotExist.supports(&DataKind::U8));
}

#[test]
fn comparison_text_names_both_values_and_the_operator() {
    let found = DataValue::I32(-12);
    let wanted = DataValue::I32(40);
    let result = found.compare(&wanted, &Operator::LessThan, true);
    assert!(result.passed);
    assert_eq!(result.output, "actual=I32(-12) LessThan expected=I32(40)");

    let silent = found.compare(&wanted, &Operator::LessThan, false);
    assert_eq!(silent.output, "");
    assert_eq!(silent.passed, result.passed);
}

#[test]
fn value_text_of_every_kind() {
    let mut text = String::new();
    DataValue::U128(340282366920938463463374607431768211455).push_text(&mut text);
    assert_eq!(text, "U128(340282366920938463463374607431768211455)");
    let mut text = String::new();
    DataValue::I128(i128::MIN).push_text(&mut text);
    assert_eq!(text, "I128(-170141183460469231731687303715884105728)");
    let mut text = String::new();
    DataValue::U8(0).push_text(&mut text);
    assert_eq!(text, "U8(0)");
    let mut text = String::new();
    DataValue::U16(10).push_text(&mut text);
    assert_eq!(text, "U16(10)");
    let mut text = String::new();
    DataValue::Bool(false).push_text(&mut text);
    assert_eq!(text, "Bool(false)");
    let mut text = String::new();
    DataValue::Bytes(vec![0, 10, 255]).push_text(&mut text);
    assert_eq!(text, "Bytes([0, 10, 255])");
    let mut text = String::new();
    DataValue::Bytes(vec![]).push_text(&mut text);
    assert_eq!(text, "Bytes([])");
    let mut text = String::from("x=");
    DataValue::Pubkey([0u8; 32]).push_text(&mut text);
    assert_eq!(text, "x=Pubkey(11111111111111111111111111111111)");
}

#[test]
fn evaluate_from_data_slice_checks_operator_then_range() {
    let data = [5u8, 0, 0, 0];
    let literal = DataValue::U32(5);
    assert!(literal.evaluate_from_data_slice(&data, 0, &Operator::Equal, false).unwrap().passed);
    assert_eq!(
        literal.evaluate_from_data_slice(&data, 1, &Operator::Equal, false),
        Err(EngineError::OutOfRange)
    );
    assert_eq!(
        literal.evaluate_from_data_slice(&data, 1, &Operator::DoesNotExist, false),
        Err(EngineError::TypeMismatch)
    );
    let flag = DataValue::Bool(true);
    assert_eq!(
        flag.evaluate_from_data_slice(&data, 0, &Operator::LessThan, false),
        Err(EngineError::TypeMismatch)
    );
}
