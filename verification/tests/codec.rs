use crunch::error::RuntimeErrorTy;
use crunch::gc::AllocId;
use crunch::value::RuntimeValue;

fn round_trip(v: RuntimeValue) -> RuntimeValue {
    let bytes = v.as_bytes().unwrap();
    RuntimeValue::from_bytes(&bytes).unwrap()
}

#[test]
fn primitive_round_trips_are_exact() {
    assert!(matches!(round_trip(RuntimeValue::NoneType), RuntimeValue::NoneType));
    assert!(matches!(round_trip(RuntimeValue::Null), RuntimeValue::Null));
    assert!(matches!(round_trip(RuntimeValue::Byte(200)), RuntimeValue::Byte(200)));
    assert!(matches!(round_trip(RuntimeValue::U16(0xBEEF)), RuntimeValue::U16(0xBEEF)));
    assert!(matches!(
        round_trip(RuntimeValue::U32(0xDEAD_BEEF)),
        RuntimeValue::U32(0xDEAD_BEEF)
    ));
    assert!(matches!(
        round_trip(RuntimeValue::U64(u64::MAX)),
        RuntimeValue::U64(u64::MAX)
    ));
    assert!(matches!(
        round_trip(RuntimeValue::U128(u128::MAX - 7)),
        RuntimeValue::U128(v) if v == u128::MAX - 7
    ));
    assert!(matches!(round_trip(RuntimeValue::IByte(-5)), RuntimeValue::IByte(-5)));
    assert!(matches!(round_trip(RuntimeValue::I16(-30000)), RuntimeValue::I16(-30000)));
    assert!(matches!(
        round_trip(RuntimeValue::I32(i32::MIN)),
        RuntimeValue::I32(i32::MIN)
    ));
    assert!(matches!(
        round_trip(RuntimeValue::I64(i64::MIN)),
        RuntimeValue::I64(i64::MIN)
    ));
    assert!(matches!(
        round_trip(RuntimeValue::I128(i128::MIN)),
        RuntimeValue::I128(i128::MIN)
    ));
    assert!(matches!(
        round_trip(RuntimeValue::Bool(true)),
        RuntimeValue::Bool(true)
    ));
    assert!(matches!(
        round_trip(RuntimeValue::Bool(false)),
        RuntimeValue::Bool(false)
    ));
    assert!(matches!(round_trip(RuntimeValue::Char('λ')), RuntimeValue::Char('λ')));
    assert!(matches!(
        round_trip(RuntimeValue::Pointer(AllocId(42))),
        RuntimeValue::Pointer(AllocId(42))
    ));
}

#[test]
fn float_bit_patterns_round_trip_bit_for_bit() {
    // a quiet NaN pattern survives exactly, since the payload is raw bits
    assert!(matches!(
        round_trip(RuntimeValue::F32(0x7FC0_0001)),
        RuntimeValue::F32(0x7FC0_0001)
    ));
    assert!(matches!(
        round_trip(RuntimeValue::F64(0x7FF8_0000_0000_0001)),
        RuntimeValue::F64(0x7FF8_0000_0000_0001)
    ));
}

#[test]
fn string_round_trip_matches_byte_for_byte() {
    let v = RuntimeValue::Str("héllo → 世界".to_string());
    match round_trip(v) {
        RuntimeValue::Str(s) => assert_eq!(s, "héllo → 世界"),
        _ => panic!("expected a string"),
    }
    match round_trip(RuntimeValue::Str(String::new())) {
        RuntimeValue::Str(s) => assert_eq!(s, ""),
        _ => panic!("expected a string"),
    }
}

#[test]
fn encodings_match_the_layout_table() {
    assert_eq!(RuntimeValue::NoneType.as_bytes().unwrap(), vec![0x00]);
    assert_eq!(RuntimeValue::Null.as_bytes().unwrap(), vec![0x01]);
    assert_eq!(RuntimeValue::Byte(7).as_bytes().unwrap(), vec![0x02, 7]);
    assert_eq!(
        RuntimeValue::U16(0x0403).as_bytes().unwrap(),
        vec![0x03, 0x03, 0x04]
    );
    assert_eq!(
        RuntimeValue::I16(-2).as_bytes().unwrap(),
        vec![0x08, 0xFE, 0xFF]
    );
    assert_eq!(
        RuntimeValue::Bool(true).as_bytes().unwrap(),
        vec![0x0F, 1]
    );
    assert_eq!(
        RuntimeValue::Char('A').as_bytes().unwrap(),
        vec![0x10, 0x41, 0, 0, 0]
    );
    assert_eq!(
        RuntimeValue::Str("ab".to_string()).as_bytes().unwrap(),
        vec![0x11, b'a', b'b']
    );
    assert_eq!(
        RuntimeValue::Pointer(AllocId(1)).as_bytes().unwrap(),
        vec![0x0E, 1, 0, 0, 0, 0, 0, 0, 0]
    );
}

#[test]
fn heap_boxed_values_have_no_encoding() {
    let e = RuntimeValue::GcString(AllocId(0)).as_bytes().unwrap_err();
    assert_eq!(e.ty, RuntimeErrorTy::UnsupportedOperation);
    let e = RuntimeValue::GcUint(AllocId(0)).as_bytes().unwrap_err();
    assert_eq!(e.ty, RuntimeErrorTy::UnsupportedOperation);
    let e = RuntimeValue::GcInt(AllocId(0)).as_bytes().unwrap_err();
    assert_eq!(e.ty, RuntimeErrorTy::UnsupportedOperation);
}

#[test]
fn malformed_buffers_are_decode_failures() {
    for bytes in [
        vec![],
        vec![0xFF],
        vec![0x02],
        vec![0x03, 1],
        vec![0x03, 1, 2, 3],
        vec![0x00, 0],
        vec![0x10, 0x00, 0xD8, 0, 0],
        vec![0x11, 0xFF],
    ] {
        let e = RuntimeValue::from_bytes(&bytes).unwrap_err();
        assert_eq!(e.ty, RuntimeErrorTy::InvalidInstruction);
    }
}
