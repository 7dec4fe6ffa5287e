use lighthouse::bytes::{
    bytes_equal, copy_range, push_bytes, push_u128, push_u16, push_u32, push_u64, read_array32,
    read_u128, read_u16, read_u32, read_u64,
};
use lighthouse::optional::{
    compare_optional, evaluate_optional_at, push_optional_text, same_value, unpack_coption,
};
use lighthouse::solana::{push_optional_pubkey, push_pubkey};
use lighthouse::text::{
    push_bool, push_byte_list, push_decimal, push_optional_decimal, push_signed_decimal,
};
use lighthouse::wire::{
    deserialize_bool, deserialize_option_pubkey, deserialize_option_u16, deserialize_option_u64,
    deserialize_pubkey, deserialize_u16, deserialize_u64, deserialize_u8, serialize_bool,
    serialize_option_pubkey, serialize_option_u16, serialize_option_u64,
};
use lighthouse::{DataKind, DataValue, EngineError, Operator};

#[test]
fn decimal_text() {
    let cases: [(u128, &str); 8] = [
        (0, "0"),
        (9, "9"),
        (10, "10"),
        (99, "99"),
        (100, "100"),
        (1234567890, "1234567890"),
        (18446744073709551615, "18446744073709551615"),
        (u128::MAX, "340282366920938463463374607431768211455"),
    ];
    for (n, expected) in cases {
        let mut out = String::from(">");
        push_decimal(&mut out, n);
        assert_eq!(out, format!(">{}", expected));
    }
}

#[test]
fn signed_decimal_text() {
    let cases: [(i128, &str); 6] = [
        (0, "0"),
        (-1, "-1"),
        (1, "1"),
        (-128, "-128"),
        (i128::MAX, "170141183460469231731687303715884105727"),
        (i128::MIN, "-170141183460469231731687303715884105728"),
    ];
    for (n, expected) in cases {
        let mut out = String::new();
        push_signed_decimal(&mut out, n);
        assert_eq!(out, expected);
    }
}

#[test]
fn flag_list_and_optional_text() {
    let mut out = String::new();
    push_bool(&mut out, true);
    out.push(' ');
    push_bool(&mut out, false);
    assert_eq!(out, "true false");

    let mut out = String::new();
    push_byte_list(&mut out, &[]);
    push_byte_list(&mut out, &[7]);
    push_byte_list(&mut out, &[0, 255, 16]);
    assert_eq!(out, "[][7][0, 255, 16]");

    let mut out = String::new();
    push_optional_decimal(&mut out, None);
    push_optional_decimal(&mut out, Some(0));
    push_optional_decimal(&mut out, Some(u64::MAX));
    assert_eq!(out, "NoneSome(0)Some(18446744073709551615)");
}

#[test]
fn address_text() {
    let mut out = String::new();
    push_pubkey(&mut out, &[0u8; 32]);
    assert_eq!(out, "11111111111111111111111111111111");
    let mut out = String::new();
    push_pubkey(&mut out, &[255u8; 32]);
    assert_eq!(out, "JEKNVnkbo3jma5nREBBJCDoXFVeKkD56V3xKrvRmWxFG");
    let mut out = String::new();
    push_optional_pubkey(&mut out, &None);
    out.push('|');
    push_optional_pubkey(&mut out, &Some([0u8; 32]));
    assert_eq!(out, "None|Some(11111111111111111111111111111111)");
}

#[test]
fn reading_and_writing_integers() {
    let buffer: Vec<u8> = (1..=20).collect();
    assert_eq!(read_u16(&buffer, 3), u16::from_le_bytes([4, 5]));
    assert_eq!(read_u32(&buffer, 3), u32::from_le_bytes([4, 5, 6, 7]));
    assert_eq!(read_u64(&buffer, 12), u64::from_le_bytes([13, 14, 15, 16, 17, 18, 19, 20]));
    let mut sixteen = [0u8; 16];
    sixteen.copy_from_slice(&buffer[4..20]);
    assert_eq!(read_u128(&buffer, 4), u128::from_le_bytes(sixteen));

    let mut out = vec![0xaa];
    push_u16(&mut out, 0x1234);
    push_u32(&mut out, 0x89abcdef);
    push_u64(&mut out, 0x0102030405060708);
    push_u128(&mut out, 0x0f0e0d0c0b0a09080706050403020100);
    let mut expected = vec![0xaa, 0x34, 0x12, 0xef, 0xcd, 0xab, 0x89, 8, 7, 6, 5, 4, 3, 2, 1];
    expected.extend(0u8..16);
    assert_eq!(out, expected);
    assert_eq!(read_u16(&out, 1), 0x1234);
    assert_eq!(read_u32(&out, 3), 0x89abcdef);
    assert_eq!(read_u64(&out, 7), 0x0102030405060708);
    assert_eq!(read_u128(&out, 15), 0x0f0e0d0c0b0a09080706050403020100);

    let mut out = Vec::new();
    push_u16(&mut out, u16::MAX);
    push_u32(&mut out, u32::MAX);
    push_u64(&mut out, u64::MAX);
    push_u128(&mut out, u128::MAX);
    assert_eq!(out, vec![0xff; 30]);
}

#[test]
fn copying_and_comparing_bytes() {
    let buffer: Vec<u8> = (0..40).collect();
    assert_eq!(copy_range(&buffer, 5, 3), vec![5, 6, 7]);
    assert_eq!(copy_range(&buffer, 40, 0), Vec::<u8>::new());
    let array = read_array32(&buffer, 8);
    assert_eq!(&array[..], &buffer[8..40]);
    let mut out = vec![1];
    push_bytes(&mut out, &[2, 3]);
    push_bytes(&mut out, &[]);
    assert_eq!(out, vec![1, 2, 3]);
    assert!(bytes_equal(&[], &[]));
    assert!(bytes_equal(&[1, 2], &[1, 2]));
    assert!(!bytes_equal(&[1, 2], &[1, 3]));
    assert!(!bytes_equal(&[1, 2], &[1, 2, 3]));
    assert!(!bytes_equal(&[1, 2, 3], &[1, 2]));
}

#[test]
fn optional_values_in_a_buffer() {
    let mut buffer = vec![9u8];
    buffer.extend_from_slice(&0u32.to_le_bytes());
    buffer.extend_from_slice(&77u64.to_le_bytes());
    buffer.extend_from_slice(&1u32.to_le_bytes());
    buffer.extend_from_slice(&78u64.to_le_bytes());
    buffer.extend_from_slice(&256u32.to_le_bytes());
    buffer.extend_from_slice(&79u64.to_le_bytes());
    assert_eq!(unpack_coption(&buffer, 1, DataKind::U64), Ok(None));
    assert_eq!(unpack_coption(&buffer, 13, DataKind::U64), Ok(Some(DataValue::U64(78))));
    assert_eq!(unpack_coption(&buffer, 25, DataKind::U64), Err(EngineError::MalformedEncoding));

    let wanted = Some(DataValue::U64(78));
    assert!(evaluate_optional_at(&wanted, DataKind::U64, &buffer, 13, &Operator::Equal, false)
        .unwrap()
        .passed);
    assert!(!evaluate_optional_at(&wanted, DataKind::U64, &buffer, 1, &Operator::Equal, false)
        .unwrap()
        .passed);
    assert!(evaluate_optional_at(&None, DataKind::U64, &buffer, 1, &Operator::Equal, false)
        .unwrap()
        .passed);
    assert_eq!(
        evaluate_optional_at(&wanted, DataKind::U64, &buffer, 26, &Operator::Equal, false),
        Err(EngineError::OutOfRange)
    );
    assert_eq!(
        evaluate_optional_at(&wanted, DataKind::U64, &buffer, usize::MAX, &Operator::Equal, false),
        Err(EngineError::OutOfRange)
    );
    assert_eq!(
        evaluate_optional_at(&wanted, DataKind::U64, &buffer, 25, &Operator::Equal, false),
        Err(EngineError::MalformedEncoding)
    );
    assert_eq!(
        evaluate_optional_at(&wanted, DataKind::U64, &buffer, 13, &Operator::LessThan, false),
        Err(EngineError::TypeMismatch)
    );
}

#[test]
fn comparing_optional_values() {
    let five = Some(DataValue::U8(5));
    let six = Some(DataValue::U8(6));
    let other_kind = Some(DataValue::U16(5));
    assert!(compare_optional(&five, &five, &Operator::Equal, false).unwrap().passed);
    assert!(!compare_optional(&five, &six, &Operator::Equal, false).unwrap().passed);
    assert!(compare_optional(&five, &six, &Operator::NotEqual, false).unwrap().passed);
    assert!(!compare_optional(&five, &None, &Operator::Equal, false).unwrap().passed);
    assert!(!compare_optional(&None, &five, &Operator::Equal, false).unwrap().passed);
    assert!(compare_optional(&None, &None, &Operator::Equal, false).unwrap().passed);
    assert!(!compare_optional(&None, &None, &Operator::NotEqual, false).unwrap().passed);
    assert!(!compare_optional(&five, &other_kind, &Operator::Equal, false).unwrap().passed);
    assert_eq!(
        compare_optional(&five, &five, &Operator::GreaterThan, false),
        Err(EngineError::TypeMismatch)
    );
    assert_eq!(
        compare_optional(&None, &None, &Operator::DoesNotExist, false),
        Err(EngineError::TypeMismatch)
    );
    let traced = compare_optional(&five, &None, &Operator::NotEqual, true).unwrap();
    assert_eq!(traced.output, "actual=Some(U8(5)) NotEqual expected=None");

    assert!(same_value(&DataValue::I8(-1), &DataValue::I8(-1)));
    assert!(!same_value(&DataValue::I8(-1), &DataValue::U8(255)));
    assert!(!same_value(&DataValue::Bytes(vec![1]), &DataValue::Bytes(vec![1, 1])));
    assert!(same_value(&DataValue::Bytes(vec![1, 1]), &DataValue::Bytes(vec![1, 1])));

    let mut out = String::new();
    push_optional_text(&None, &mut out);
    push_optional_text(&Some(DataValue::Bool(true)), &mut out);
    assert_eq!(out, "NoneSome(Bool(true))");
}

#[test]
fn wire_primitives() {
    let mut out = Vec::new();
    serialize_bool(true, &mut out);
    serialize_bool(false, &mut out);
    serialize_option_u16(&None, &mut out);
    serialize_option_u16(&Some(0x0102), &mut out);
    serialize_option_u64(&None, &mut out);
    serialize_option_u64(&Some(3), &mut out);
    serialize_option_pubkey(&None, &mut out);
    serialize_option_pubkey(&Some([6u8; 32]), &mut out);
    let mut expected = vec![1, 0, 0, 1, 2, 1, 0, 1, 3, 0, 0, 0, 0, 0, 0, 0, 0, 1];
    expected.extend_from_slice(&[6u8; 32]);
    assert_eq!(out, expected);

    assert_eq!(deserialize_bool(&out, 0), Ok((true, 1)));
    assert_eq!(deserialize_bool(&out, 1), Ok((false, 2)));
    assert_eq!(deserialize_option_u16(&out, 2), Ok((None, 3)));
    assert_eq!(deserialize_option_u16(&out, 3), Ok((Some(0x0102), 6)));
    assert_eq!(deserialize_option_u64(&out, 6), Ok((None, 7)));
    assert_eq!(deserialize_option_u64(&out, 7), Ok((Some(3), 16)));
    assert_eq!(deserialize_option_pubkey(&out, 16), Ok((None, 17)));
    assert_eq!(deserialize_option_pubkey(&out, 17), Ok((Some([6u8; 32]), 50)));
    assert_eq!(deserialize_pubkey(&out, 18), Ok(([6u8; 32], 50)));
    assert_eq!(deserialize_pubkey(&out, 19), Err(EngineError::MalformedEncoding));
    assert_eq!(deserialize_u8(&out, 4), Ok((2, 5)));
    assert_eq!(deserialize_u8(&out, 50), Err(EngineError::MalformedEncoding));
    assert_eq!(deserialize_u16(&out, 4), Ok((0x0102, 6)));
    assert_eq!(deserialize_u16(&out, 49), Err(EngineError::MalformedEncoding));
    assert_eq!(deserialize_u64(&out, 8), Ok((3, 16)));
    assert_eq!(deserialize_u64(&out, 43), Err(EngineError::MalformedEncoding));
    assert_eq!(deserialize_u64(&out, usize::MAX), Err(EngineError::MalformedEncoding));
    assert_eq!(deserialize_bool(&[2], 0), Err(EngineError::MalformedEncoding));
    assert_eq!(deserialize_option_u16(&[2, 0, 0], 0), Err(EngineError::MalformedEncoding));
    assert_eq!(deserialize_option_u16(&[1, 0], 0), Err(EngineError::MalformedEncoding));
    assert_eq!(deserialize_option_u64(&[1, 0], 0), Err(EngineError::MalformedEncoding));
    assert_eq!(deserialize_option_pubkey(&[3], 0), Err(EngineError::MalformedEncoding));
}
