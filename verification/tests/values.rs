use crunch::error::RuntimeErrorTy;
use crunch::gc::{Gc, HeapValue};
use crunch::value::RuntimeValue;

#[test]
fn add_overflow_goes_one_width_up() {
    let mut gc = Gc::new();
    let r = RuntimeValue::Byte(200)
        .add_upflowing(RuntimeValue::Byte(100), &mut gc)
        .unwrap();
    assert!(matches!(r, RuntimeValue::U16(300)));
}

#[test]
fn add_below_threshold_keeps_width() {
    let mut gc = Gc::new();
    let r = RuntimeValue::Byte(4)
        .add_upflowing(RuntimeValue::Byte(1), &mut gc)
        .unwrap();
    assert!(matches!(r, RuntimeValue::Byte(5)));
}

#[test]
fn add_signed_overflow_goes_one_width_up() {
    let mut gc = Gc::new();
    let r = RuntimeValue::IByte(100)
        .add_upflowing(RuntimeValue::IByte(100), &mut gc)
        .unwrap();
    assert!(matches!(r, RuntimeValue::I16(200)));
    let r = RuntimeValue::IByte(-100)
        .add_upflowing(RuntimeValue::IByte(-100), &mut gc)
        .unwrap();
    assert!(matches!(r, RuntimeValue::I16(-200)));
}

#[test]
fn add_widest_overflow_is_unsupported() {
    let mut gc = Gc::new();
    let e = RuntimeValue::U128(u128::MAX)
        .add_upflowing(RuntimeValue::U128(1), &mut gc)
        .unwrap_err();
    assert_eq!(e.ty, RuntimeErrorTy::UnsupportedOperation);
}

#[test]
fn unsigned_subtract_underflow_is_unsupported() {
    let mut gc = Gc::new();
    let e = RuntimeValue::Byte(1)
        .sub_upflowing(RuntimeValue::Byte(2), &mut gc)
        .unwrap_err();
    assert_eq!(e.ty, RuntimeErrorTy::UnsupportedOperation);
}

#[test]
fn subtract_and_multiply_upflow() {
    let mut gc = Gc::new();
    let r = RuntimeValue::Byte(9)
        .sub_upflowing(RuntimeValue::Byte(4), &mut gc)
        .unwrap();
    assert!(matches!(r, RuntimeValue::Byte(5)));
    let r = RuntimeValue::Byte(16)
        .mult_upflowing(RuntimeValue::Byte(16), &mut gc)
        .unwrap();
    assert!(matches!(r, RuntimeValue::U16(256)));
    let r = RuntimeValue::I16(-200)
        .sub_upflowing(RuntimeValue::I16(i16::MAX), &mut gc)
        .unwrap();
    assert!(matches!(r, RuntimeValue::I32(v) if v == -200 - i16::MAX as i32));
}

#[test]
fn division_truncates_toward_zero() {
    let mut gc = Gc::new();
    let r = RuntimeValue::U32(7)
        .div_upflowing(RuntimeValue::U32(2), &mut gc)
        .unwrap();
    assert!(matches!(r, RuntimeValue::U32(3)));
    let r = RuntimeValue::I32(-7)
        .div_upflowing(RuntimeValue::I32(2), &mut gc)
        .unwrap();
    assert!(matches!(r, RuntimeValue::I32(-3)));
    let r = RuntimeValue::IByte(i8::MIN)
        .div_upflowing(RuntimeValue::IByte(-1), &mut gc)
        .unwrap();
    assert!(matches!(r, RuntimeValue::I16(128)));
}

#[test]
fn division_by_zero_is_unsupported() {
    let mut gc = Gc::new();
    let e = RuntimeValue::U64(1)
        .div_upflowing(RuntimeValue::U64(0), &mut gc)
        .unwrap_err();
    assert_eq!(e.ty, RuntimeErrorTy::UnsupportedOperation);
}

#[test]
fn mismatched_widths_are_incompatible() {
    let mut gc = Gc::new();
    let e = RuntimeValue::Byte(1)
        .add_upflowing(RuntimeValue::U16(1), &mut gc)
        .unwrap_err();
    assert_eq!(e.ty, RuntimeErrorTy::IncompatibleTypes);
    let e = RuntimeValue::U32(1)
        .add_upflowing(RuntimeValue::I32(1), &mut gc)
        .unwrap_err();
    assert_eq!(e.ty, RuntimeErrorTy::IncompatibleTypes);
}

#[test]
fn arithmetic_with_none_is_a_null_failure() {
    let mut gc = Gc::new();
    let e = RuntimeValue::NoneType
        .add_upflowing(RuntimeValue::Byte(1), &mut gc)
        .unwrap_err();
    assert_eq!(e.ty, RuntimeErrorTy::NullVar);
    let e = RuntimeValue::Byte(1)
        .sub_upflowing(RuntimeValue::NoneType, &mut gc)
        .unwrap_err();
    assert_eq!(e.ty, RuntimeErrorTy::NullVar);
}

#[test]
fn float_arithmetic_is_unsupported() {
    let mut gc = Gc::new();
    let e = RuntimeValue::F32(0x3f80_0000)
        .add_upflowing(RuntimeValue::F32(0x3f80_0000), &mut gc)
        .unwrap_err();
    assert_eq!(e.ty, RuntimeErrorTy::UnsupportedOperation);
}

#[test]
fn string_concatenation_allocates_on_the_heap() {
    let mut gc = Gc::new();
    let r = RuntimeValue::Str("foo".to_string())
        .add_upflowing(RuntimeValue::Str("bar".to_string()), &mut gc)
        .unwrap();
    let id = match r {
        RuntimeValue::GcString(id) => id,
        other => panic!("expected a heap string, got {:?}", other.name()),
    };
    match gc.fetch(id).unwrap() {
        HeapValue::Str(s) => assert_eq!(s, "foobar"),
        _ => panic!("expected a string payload"),
    }
    let joined = RuntimeValue::GcString(id)
        .add_upflowing(RuntimeValue::GcString(id), &mut gc)
        .unwrap();
    let s = joined.to_string(&gc).unwrap();
    assert_eq!(s, "foobarfoobar");
}

#[test]
fn equality_with_none_fails_both_ways() {
    let gc = Gc::new();
    for v in [
        RuntimeValue::Byte(0),
        RuntimeValue::Bool(false),
        RuntimeValue::Null,
        RuntimeValue::NoneType,
    ] {
        let e = v.duplicate().is_equal(RuntimeValue::NoneType, &gc).unwrap_err();
        assert_eq!(e.ty, RuntimeErrorTy::NullVar);
        let e = RuntimeValue::NoneType.is_equal(v, &gc).unwrap_err();
        assert_eq!(e.ty, RuntimeErrorTy::NullVar);
    }
}

#[test]
fn equality_of_numbers_booleans_and_pointers() {
    let gc = Gc::new();
    assert!(RuntimeValue::Byte(3)
        .is_equal(RuntimeValue::Byte(3), &gc)
        .unwrap());
    assert!(!RuntimeValue::Byte(3)
        .is_equal(RuntimeValue::Byte(4), &gc)
        .unwrap());
    assert!(RuntimeValue::I64(-9)
        .is_equal(RuntimeValue::I64(-9), &gc)
        .unwrap());
    assert!(RuntimeValue::Bool(true)
        .is_equal(RuntimeValue::Bool(true), &gc)
        .unwrap());
    // The deliberately lax default: pairs with no native equality
    // compare unequal rather than erroring.
    assert!(!RuntimeValue::Char('a')
        .is_equal(RuntimeValue::Char('a'), &gc)
        .unwrap());
    assert!(!RuntimeValue::Str("a".to_string())
        .is_equal(RuntimeValue::Str("a".to_string()), &gc)
        .unwrap());
    assert!(!RuntimeValue::Byte(1)
        .is_equal(RuntimeValue::U16(1), &gc)
        .unwrap());
}

#[test]
fn float_equality_is_unsupported() {
    let gc = Gc::new();
    let e = RuntimeValue::F64(0)
        .is_equal(RuntimeValue::F64(0), &gc)
        .unwrap_err();
    assert_eq!(e.ty, RuntimeErrorTy::UnsupportedOperation);
}

#[test]
fn bitwise_operations() {
    let mut gc = Gc::new();
    let r = RuntimeValue::Byte(0b1100)
        .bit_or(RuntimeValue::Byte(0b1010), &mut gc)
        .unwrap();
    assert!(matches!(r, RuntimeValue::Byte(0b1110)));
    let r = RuntimeValue::Byte(0b1100)
        .bit_xor(RuntimeValue::Byte(0b1010), &mut gc)
        .unwrap();
    assert!(matches!(r, RuntimeValue::Byte(0b0110)));
    let r = RuntimeValue::U64(6)
        .bit_and(RuntimeValue::U64(3), &mut gc)
        .unwrap();
    assert!(matches!(r, RuntimeValue::U64(2)));
    let r = RuntimeValue::Byte(0).bit_not(&mut gc).unwrap();
    assert!(matches!(r, RuntimeValue::Byte(0xff)));
    let r = RuntimeValue::I32(0).bit_not(&mut gc).unwrap();
    assert!(matches!(r, RuntimeValue::I32(-1)));
}

#[test]
fn bitwise_failures() {
    let mut gc = Gc::new();
    let e = RuntimeValue::Bool(true)
        .bit_and(RuntimeValue::Bool(true), &mut gc)
        .unwrap_err();
    assert_eq!(e.ty, RuntimeErrorTy::IncompatibleTypes);
    let e = RuntimeValue::NoneType.bit_not(&mut gc).unwrap_err();
    assert_eq!(e.ty, RuntimeErrorTy::NullVar);
    let e = RuntimeValue::Bool(true).bit_not(&mut gc).unwrap_err();
    assert_eq!(e.ty, RuntimeErrorTy::IncompatibleTypes);
    let e = RuntimeValue::Null.bit_not(&mut gc).unwrap_err();
    assert_eq!(e.ty, RuntimeErrorTy::IncompatibleTypes);
    let e = RuntimeValue::F32(0).bit_not(&mut gc).unwrap_err();
    assert_eq!(e.ty, RuntimeErrorTy::UnsupportedOperation);
}

#[test]
fn variant_names() {
    assert_eq!(RuntimeValue::Byte(0).name(), "byte");
    assert_eq!(RuntimeValue::U32(0).name(), "uint");
    assert_eq!(RuntimeValue::I32(0).name(), "int");
    assert_eq!(RuntimeValue::F64(0).name(), "float64");
    assert_eq!(RuntimeValue::Str(String::new()).name(), "str");
    assert_eq!(RuntimeValue::Null.name(), "null");
    assert_eq!(RuntimeValue::NoneType.name(), "NoneType");
}

#[test]
fn rendering_values() {
    let gc = Gc::new();
    assert_eq!(RuntimeValue::I32(20).to_string(&gc).unwrap(), "20");
    assert_eq!(RuntimeValue::Byte(0).to_string(&gc).unwrap(), "0");
    assert_eq!(
        RuntimeValue::U128(u128::MAX).to_string(&gc).unwrap(),
        "340282366920938463463374607431768211455"
    );
    assert_eq!(
        RuntimeValue::I128(i128::MIN).to_string(&gc).unwrap(),
        "-170141183460469231731687303715884105728"
    );
    assert_eq!(RuntimeValue::I64(-42).to_string(&gc).unwrap(), "-42");
    assert_eq!(RuntimeValue::Bool(true).to_string(&gc).unwrap(), "true");
    assert_eq!(RuntimeValue::Char('x').to_string(&gc).unwrap(), "x");
    assert_eq!(
        RuntimeValue::Str("hi".to_string()).to_string(&gc).unwrap(),
        "hi"
    );
    assert_eq!(RuntimeValue::Null.to_string(&gc).unwrap(), "null");
    assert_eq!(RuntimeValue::NoneType.to_string(&gc).unwrap(), "NoneType");
    let e = RuntimeValue::F32(0).to_string(&gc).unwrap_err();
    assert_eq!(e.ty, RuntimeErrorTy::UnsupportedOperation);
}

#[test]
fn big_integers_compare_and_render_by_value() {
    let mut gc = Gc::new();
    let a = gc.allocate(HeapValue::Uint(vec![300])).unwrap();
    let b = gc.allocate(HeapValue::Uint(vec![300, 0])).unwrap();
    let c = gc.allocate(HeapValue::Uint(vec![0, 1])).unwrap();
    assert!(RuntimeValue::GcUint(a)
        .is_equal(RuntimeValue::GcUint(b), &gc)
        .unwrap());
    assert!(!RuntimeValue::GcUint(a)
        .is_equal(RuntimeValue::GcUint(c), &gc)
        .unwrap());
    assert_eq!(RuntimeValue::GcUint(a).to_string(&gc).unwrap(), "300");
    // digit vectors denoting the same number render identically
    assert_eq!(RuntimeValue::GcUint(b).to_string(&gc).unwrap(), "300");
    assert_eq!(
        RuntimeValue::GcUint(c).to_string(&gc).unwrap(),
        "4294967296"
    );
    let n = gc.allocate(HeapValue::Int(true, vec![5])).unwrap();
    let p = gc.allocate(HeapValue::Int(false, vec![5])).unwrap();
    assert_eq!(RuntimeValue::GcInt(n).to_string(&gc).unwrap(), "-5");
    assert_eq!(RuntimeValue::GcInt(p).to_string(&gc).unwrap(), "5");
    assert!(!RuntimeValue::GcInt(n)
        .is_equal(RuntimeValue::GcInt(p), &gc)
        .unwrap());
    let z1 = gc.allocate(HeapValue::Int(true, vec![0])).unwrap();
    let z2 = gc.allocate(HeapValue::Int(false, vec![])).unwrap();
    assert!(RuntimeValue::GcInt(z1)
        .is_equal(RuntimeValue::GcInt(z2), &gc)
        .unwrap());
    let e = RuntimeValue::GcUint(a)
        .add_upflowing(RuntimeValue::GcUint(b), &mut gc)
        .unwrap_err();
    assert_eq!(e.ty, RuntimeErrorTy::UnsupportedOperation);
}

#[test]
fn dropping_releases_the_slot_and_leaves_a_tombstone() {
    let mut gc = Gc::new();
    let id = gc.allocate(HeapValue::Str("boxed".to_string())).unwrap();
    let mut v = RuntimeValue::GcString(id);
    v.drop(&mut gc).unwrap();
    assert!(matches!(v, RuntimeValue::NoneType));
    let e = gc.fetch(id).unwrap_err();
    assert_eq!(e.ty, RuntimeErrorTy::InvalidHandle);
    // a second drop through the same (now dead) handle is invalid
    let mut again = RuntimeValue::GcString(id);
    let e = again.drop(&mut gc).unwrap_err();
    assert_eq!(e.ty, RuntimeErrorTy::InvalidHandle);
    assert!(matches!(again, RuntimeValue::GcString(_)));
}

#[test]
fn fetch_after_drop_is_invalid() {
    let mut gc = Gc::new();
    let id = gc.allocate(HeapValue::Uint(vec![7])).unwrap();
    assert!(matches!(gc.fetch(id), Ok(HeapValue::Uint(_))));
    gc.drop(id).unwrap();
    let e = gc.fetch(id).unwrap_err();
    assert_eq!(e.ty, RuntimeErrorTy::InvalidHandle);
    // a fresh allocation never revives the old handle
    let newer = gc.allocate(HeapValue::Uint(vec![8])).unwrap();
    assert_ne!(newer.0, id.0);
    let e = gc.fetch(id).unwrap_err();
    assert_eq!(e.ty, RuntimeErrorTy::InvalidHandle);
}

#[test]
fn collect_sweeps_unnamed_slots() {
    let mut gc = Gc::new();
    let keep = gc.allocate(HeapValue::Str("keep".to_string())).unwrap();
    let lose = gc.allocate(HeapValue::Str("lose".to_string())).unwrap();
    gc.collect(&vec![keep]);
    assert!(matches!(gc.fetch(keep), Ok(HeapValue::Str(_))));
    let e = gc.fetch(lose).unwrap_err();
    assert_eq!(e.ty, RuntimeErrorTy::InvalidHandle);
}
