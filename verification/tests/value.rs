use rusty_hermes::value::{
    KIND_BIGINT, KIND_BOOLEAN, KIND_NULL, KIND_NUMBER, KIND_OBJECT, KIND_STRING, KIND_SYMBOL,
    KIND_UNDEFINED,
};
use rusty_hermes::{
    undefined_value, Array, ArrayBuffer, BigInt, Error, Function, JsString, Number, Object,
    PreparedJavaScript, PropNameId, RawValue, Runtime, Symbol, Value, ValueKind, WeakObject,
};

fn num(x: f64) -> Number {
    Number::from_bits(x.to_bits())
}

fn float(n: Option<Number>) -> Option<f64> {
    n.map(|n| f64::from_bits(n.bits()))
}

fn raw_number(x: f64) -> RawValue {
    RawValue { kind: KIND_NUMBER, payload: x.to_bits() }
}

fn raw_boolean(b: bool) -> RawValue {
    RawValue { kind: KIND_BOOLEAN, payload: b as u64 }
}

fn raw_pointer(kind: i32, handle: u64) -> RawValue {
    RawValue { kind, payload: handle }
}

#[test]
fn eval_number() {
    let rt = Runtime::adopt(1).unwrap();
    let script = rt.eval("1 + 2");
    assert_eq!(script.code, "1 + 2");
    // What the engine returns for the script, with no error pending.
    let val = Value::settle(&rt, raw_number(3.0), Ok(())).unwrap();
    assert_eq!(float(val.as_number()), Some(3.0));
}

#[test]
fn eval_string() {
    let rt = Runtime::adopt(1).unwrap();
    let script = rt.eval("'hello' + ' ' + 'world'");
    assert_eq!(script.url, "<eval>");
    let val = Value::settle(&rt, raw_pointer(KIND_STRING, 0x1000), Ok(())).unwrap();
    let js_str: JsString = val.into_string().unwrap();
    assert_eq!(js_str.handle(), 0x1000);
    assert_eq!(js_str.to_rust_string(b"hello world".to_vec()).unwrap(), "hello world");
}

#[test]
fn eval_boolean() {
    let rt = Runtime::adopt(1).unwrap();
    let val = Value::settle(&rt, raw_boolean(true), Ok(())).unwrap();
    assert_eq!(val.as_bool(), Some(true));

    let val2 = Value::settle(&rt, raw_boolean(false), Ok(())).unwrap();
    assert_eq!(val2.as_bool(), Some(false));
}

#[test]
fn eval_undefined_null() {
    let rt = Runtime::adopt(1).unwrap();
    let u = Value::settle(&rt, undefined_value(), Ok(())).unwrap();
    assert!(u.is_undefined());

    let n = Value::settle(&rt, RawValue { kind: KIND_NULL, payload: 0 }, Ok(())).unwrap();
    assert!(n.is_null());
}

#[test]
fn type_error_conversion() {
    let rt = Runtime::adopt(1).unwrap();
    let val = Value::settle(&rt, raw_number(42.0), Ok(())).unwrap();
    let refused = val.into_string().unwrap_err();
    match refused.error {
        Error::TypeError { expected, got } => {
            assert_eq!(expected, "string");
            assert_eq!(got, "number");
        }
        other => panic!("expected TypeError, got: {other:?}"),
    }
    // The value that was offered is handed back as it came.
    assert!(refused.value.is_number());
    assert_eq!(float(refused.value.as_number()), Some(42.0));
}

#[test]
fn value_kind() {
    let rt = Runtime::adopt(1).unwrap();
    let of = |raw: RawValue| Value::from_raw(&rt, raw).kind();

    assert_eq!(of(undefined_value()), ValueKind::Undefined);
    assert_eq!(of(RawValue { kind: KIND_NULL, payload: 0 }), ValueKind::Null);
    assert_eq!(of(raw_boolean(true)), ValueKind::Boolean);
    assert_eq!(of(raw_number(42.0)), ValueKind::Number);
    assert_eq!(of(raw_pointer(KIND_STRING, 8)), ValueKind::String);
    assert_eq!(of(raw_pointer(KIND_OBJECT, 16)), ValueKind::Object);
}

#[test]
fn value_constructors() {
    let u = Value::undefined();
    assert!(u.is_undefined());

    let n = Value::null();
    assert!(n.is_null());

    let b = Value::from_bool(true);
    assert_eq!(b.as_bool(), Some(true));

    let num = Value::from_number(num(3.14));
    assert_eq!(float(num.as_number()), Some(3.14));
}

#[test]
fn value_duplicate() {
    let rt = Runtime::adopt(1).unwrap();
    // Primitive
    let v1 = Value::from_raw(&rt, raw_number(42.0));
    let v2 = v1.duplicate().unwrap();
    assert_eq!(float(v2.as_number()), Some(42.0));
    assert_eq!(v1.strict_equals(&v2), Some(true));

    // String (pointer type): the copy has to come from the engine.
    let s1 = Value::from_raw(&rt, raw_pointer(KIND_STRING, 0x2000));
    assert!(s1.duplicate().is_none());
    let s2 = Value::from_raw(&rt, raw_pointer(KIND_STRING, 0x2008));
    assert_eq!(s1.strict_equals(&s2), None);
    // Each of the two owns a unit of its own.
    assert_eq!(s1.release(), Some(raw_pointer(KIND_STRING, 0x2000)));
    assert_eq!(s2.release(), Some(raw_pointer(KIND_STRING, 0x2008)));
}

#[test]
fn bigint_operations() {
    let rt = Runtime::adopt(1).unwrap();
    let bi = BigInt::adopt(&rt, 0x3000);
    assert_eq!(bi.truncate_to_i64((-42i64) as u64), -42);
    assert_eq!(bi.truncate_to_i64(100), 100);
    assert_eq!(bi.truncate_to_i64(u64::MAX), -1);
    assert_eq!(bi.truncate_to_i64(1u64 << 63), i64::MIN);
    assert_eq!(bi.truncate_to_i64((1u64 << 63) - 1), i64::MAX);
    assert!(BigInt::supports_radix(10));
    assert!(BigInt::supports_radix(16));
    assert!(BigInt::supports_radix(2));
    assert!(BigInt::supports_radix(36));
    assert!(!BigInt::supports_radix(1));
    assert!(!BigInt::supports_radix(37));
    assert!(!BigInt::supports_radix(-10));
}

#[test]
fn array_buffer_into_value() {
    let rt = Runtime::adopt(1).unwrap();
    let buf = ArrayBuffer::adopt(&rt, 0x4000);
    let val: Value = buf.into();
    assert!(val.is_object());
    assert_eq!(val.handle(), Some(0x4000));
}

#[test]
fn array_buffer_from_js() {
    let rt = Runtime::adopt(1).unwrap();
    let val = Value::from_raw(&rt, raw_pointer(KIND_OBJECT, 0x4100));
    assert!(val.is_object());
    // The engine says that the object is a byte buffer.
    let buf: ArrayBuffer = val.into_array_buffer(true).unwrap();
    assert_eq!(buf.window(0x9000, 8), 8);
    assert_eq!(buf.window(0, 8), 0);
    assert_eq!(buf.window(0x9000, 0), 0);
}

#[test]
fn weak_object_lock() {
    let rt = Runtime::adopt(1).unwrap();
    let obj = Object::adopt(&rt, 0x5000);
    let weak = WeakObject::adopt(&rt, 0x5008);
    // Object is still alive, so lock should succeed
    let locked = weak.lock(&rt, raw_pointer(KIND_OBJECT, obj.handle()), Ok(())).unwrap();
    assert!(locked.is_some());
    assert!(locked.unwrap().is_object());
}

#[test]
fn weak_object_lock_after_collection() {
    let rt = Runtime::adopt(1).unwrap();
    let weak = WeakObject::adopt(&rt, 0x5008);
    let locked = weak.lock(&rt, undefined_value(), Ok(())).unwrap();
    assert!(locked.is_none());
    let failed = weak.lock(&rt, undefined_value(), Err(Error::JsException("x".into())));
    assert!(matches!(failed, Err(Error::JsException(m)) if m == "x"));
}

#[test]
fn prepared_javascript() {
    let rt = Runtime::adopt(1).unwrap();
    let script = rt.eval_with_url("1 + 2", "test.js");
    assert_eq!((script.code, script.url), ("1 + 2", "test.js"));
    let prepared = PreparedJavaScript::adopt(&rt, 0x6000, Ok(())).unwrap();
    let result = Value::settle(&rt, raw_number(3.0), Ok(())).unwrap();
    assert_eq!(float(result.as_number()), Some(3.0));

    // Evaluate again (reuse)
    assert_eq!(prepared.handle(), 0x6000);
    let result2 = Value::settle(&rt, raw_number(3.0), Ok(())).unwrap();
    assert_eq!(float(result2.as_number()), Some(3.0));
}

#[test]
fn prepared_javascript_failures() {
    let rt = Runtime::adopt(1).unwrap();
    match PreparedJavaScript::adopt(&rt, 0, Ok(())) {
        Err(Error::RuntimeError(m)) => assert_eq!(m, "failed to prepare JavaScript"),
        other => panic!("expected RuntimeError, got: {other:?}"),
    }
    match PreparedJavaScript::adopt(&rt, 0x6000, Err(Error::JsException("bad".into()))) {
        Err(Error::JsException(m)) => assert_eq!(m, "bad"),
        other => panic!("expected JsException, got: {other:?}"),
    }
}

#[test]
fn propnameid_from_utf8() {
    let rt = Runtime::adopt(1).unwrap();
    let name = PropNameId::adopt(&rt, 0x7000);
    assert_eq!(name.to_rust_string(b"hello".to_vec()).unwrap(), "hello");
}

#[test]
fn js_string_operations() {
    let rt = Runtime::adopt(1).unwrap();
    let s1 = JsString::adopt(&rt, 0x8000);
    assert_eq!(s1.to_rust_string(b"hello".to_vec()).unwrap(), "hello");
    assert_eq!(s1.to_rust_string(Vec::new()).unwrap(), "");
    match s1.to_rust_string(vec![0x68, 0xff, 0x69]) {
        Err(Error::ConversionError(_)) => {}
        other => panic!("expected ConversionError, got: {other:?}"),
    }
}

#[test]
fn object_is_checks() {
    let rt = Runtime::adopt(1).unwrap();
    // An array: the engine says "array" and "not a function".
    let arr = Value::from_raw(&rt, raw_pointer(KIND_OBJECT, 0x9000));
    let refused = arr.into_function(false).unwrap_err();
    assert!(matches!(
        refused.error,
        Error::TypeError { expected: "function", got: "object" }
    ));
    let arr: Array = refused.value.into_array(true).unwrap();
    assert_eq!(arr.handle(), 0x9000);

    // A function: the engine says "function" and "not an array".
    let func = Value::from_raw(&rt, raw_pointer(KIND_OBJECT, 0x9008));
    let refused = func.into_array(false).unwrap_err();
    assert!(matches!(refused.error, Error::TypeError { expected: "array", got: "object" }));
    let func: Function = refused.value.into_function(true).unwrap();
    assert_eq!(func.handle(), 0x9008);
}

#[test]
fn kind_codes_round_trip() {
    let kinds = [
        ValueKind::Undefined,
        ValueKind::Null,
        ValueKind::Boolean,
        ValueKind::Number,
        ValueKind::Symbol,
        ValueKind::BigInt,
        ValueKind::String,
        ValueKind::Object,
    ];
    for (code, kind) in kinds.iter().enumerate() {
        assert_eq!(kind.raw(), code as i32);
        assert_eq!(ValueKind::from_raw(code as i32), *kind);
    }
    assert_eq!(ValueKind::from_raw(8), ValueKind::Undefined);
    assert_eq!(ValueKind::from_raw(-1), ValueKind::Undefined);
    assert_eq!(ValueKind::from_raw(i32::MAX), ValueKind::Undefined);
    assert_eq!(
        [KIND_UNDEFINED, KIND_NULL, KIND_BOOLEAN, KIND_NUMBER, KIND_SYMBOL, KIND_BIGINT, KIND_STRING, KIND_OBJECT],
        [0, 1, 2, 3, 4, 5, 6, 7]
    );
}

#[test]
fn kind_names() {
    assert_eq!(ValueKind::Undefined.name(), "undefined");
    assert_eq!(ValueKind::Null.name(), "null");
    assert_eq!(ValueKind::Boolean.name(), "boolean");
    assert_eq!(ValueKind::Number.name(), "number");
    assert_eq!(ValueKind::Symbol.name(), "symbol");
    assert_eq!(ValueKind::BigInt.name(), "bigint");
    assert_eq!(ValueKind::String.name(), "string");
    assert_eq!(ValueKind::Object.name(), "object");
}

#[test]
fn pointer_kinds_are_the_four_that_hold_handles() {
    assert!(!ValueKind::Undefined.is_pointer());
    assert!(!ValueKind::Null.is_pointer());
    assert!(!ValueKind::Boolean.is_pointer());
    assert!(!ValueKind::Number.is_pointer());
    assert!(ValueKind::Symbol.is_pointer());
    assert!(ValueKind::BigInt.is_pointer());
    assert!(ValueKind::String.is_pointer());
    assert!(ValueKind::Object.is_pointer());
}

#[test]
fn raw_values_are_normalised_on_entry() {
    let rt = Runtime::adopt(1).unwrap();
    // Stray payload bits of an inline kind are dropped.
    let u = Value::from_raw(&rt, RawValue { kind: KIND_UNDEFINED, payload: 77 });
    assert_eq!(u.into_raw(), undefined_value());
    let b = Value::from_raw(&rt, RawValue { kind: KIND_BOOLEAN, payload: 0x100 });
    assert_eq!(b.as_bool(), Some(true));
    assert_eq!(b.into_raw(), raw_boolean(true));
    // A kind code that the engine never writes reads as undefined.
    let odd = Value::from_raw(&rt, RawValue { kind: 99, payload: 5 });
    assert!(odd.is_undefined());
    assert_eq!(odd.kind(), ValueKind::Undefined);
    assert_eq!(odd.into_raw(), undefined_value());
    assert_eq!(RawValue { kind: 99, payload: 5 }.normalize(), undefined_value());
    // A handle is kept bit for bit.
    let s = Value::from_raw(&rt, raw_pointer(KIND_SYMBOL, u64::MAX));
    assert_eq!(s.into_raw(), raw_pointer(KIND_SYMBOL, u64::MAX));
}

#[test]
fn accessors_answer_only_for_their_kind() {
    let rt = Runtime::adopt(1).unwrap();
    let s = Value::from_raw(&rt, raw_pointer(KIND_STRING, 9));
    assert_eq!(s.as_bool(), None);
    assert!(s.as_number().is_none());
    assert_eq!(s.handle(), Some(9));
    let n = Value::from_number(num(1.5));
    assert_eq!(n.as_bool(), None);
    assert_eq!(n.handle(), None);
    let b = Value::from_bool(false);
    assert_eq!(b.as_bool(), Some(false));
    assert!(b.as_number().is_none());
    assert!(Value::undefined().as_bool().is_none());
    assert!(Value::null().as_number().is_none());
    assert!(s.is_string() && !s.is_object() && !s.is_symbol() && !s.is_bigint());
    assert!(n.is_number() && !n.is_boolean() && !n.is_null() && !n.is_undefined());
}

#[test]
fn handles_turn_into_values_and_back() {
    let rt = Runtime::adopt(1).unwrap();
    let v: Value = JsString::adopt(&rt, 11).into();
    assert_eq!(v.as_raw(), raw_pointer(KIND_STRING, 11));
    assert_eq!(v.into_string().unwrap().into_handle(), 11);

    let v: Value = Object::adopt(&rt, 12).into();
    assert_eq!(v.as_raw(), raw_pointer(KIND_OBJECT, 12));
    assert_eq!(v.into_object().unwrap().into_handle(), 12);

    let v: Value = Symbol::adopt(&rt, 13).into();
    assert_eq!(v.as_raw(), raw_pointer(KIND_SYMBOL, 13));
    assert_eq!(v.into_symbol().unwrap().into_handle(), 13);

    let v: Value = BigInt::adopt(&rt, 14).into();
    assert_eq!(v.as_raw(), raw_pointer(KIND_BIGINT, 14));
    assert_eq!(v.into_bigint().unwrap().into_handle(), 14);

    let v: Value = Array::adopt(&rt, 15).into();
    assert_eq!(v.as_raw(), raw_pointer(KIND_OBJECT, 15));
    assert_eq!(v.into_array(true).unwrap().into_handle(), 15);

    let v: Value = Function::adopt(&rt, 16).into();
    assert_eq!(v.as_raw(), raw_pointer(KIND_OBJECT, 16));
    assert_eq!(v.into_function(true).unwrap().into_handle(), 16);

    let v: Value = ArrayBuffer::adopt(&rt, 17).into();
    assert_eq!(v.as_raw(), raw_pointer(KIND_OBJECT, 17));
    assert_eq!(v.into_array_buffer(true).unwrap().into_handle(), 17);
}

#[test]
fn every_down_conversion_names_both_kinds() {
    let rt = Runtime::adopt(1).unwrap();
    let expect = |error: Error, expected: &str, got: &str| match error {
        Error::TypeError { expected: e, got: g } => assert_eq!((e, g), (expected, got)),
        other => panic!("expected TypeError, got: {other:?}"),
    };
    let n = || Value::from_raw(&rt, raw_boolean(true));
    expect(n().into_string().unwrap_err().error, "string", "boolean");
    expect(n().into_object().unwrap_err().error, "object", "boolean");
    expect(n().into_symbol().unwrap_err().error, "symbol", "boolean");
    expect(n().into_bigint().unwrap_err().error, "bigint", "boolean");
    // The engine's answer is not read for a value that is no object.
    expect(n().into_function(true).unwrap_err().error, "function", "boolean");
    expect(n().into_array(true).unwrap_err().error, "array", "boolean");
    expect(n().into_array_buffer(true).unwrap_err().error, "arraybuffer", "boolean");
    let o = || Value::from_raw(&rt, raw_pointer(KIND_OBJECT, 3));
    expect(o().into_string().unwrap_err().error, "string", "object");
    expect(o().into_array_buffer(false).unwrap_err().error, "arraybuffer", "object");
    let s = Value::from_raw(&rt, raw_pointer(KIND_STRING, 4));
    let refused = s.into_object().unwrap_err();
    expect(refused.error, "object", "string");
    assert_eq!(refused.value.into_raw(), raw_pointer(KIND_STRING, 4));
}

#[test]
fn strict_equality_of_inline_kinds_is_decided_here() {
    let eq = |a: Value, b: Value| a.strict_equals(&b);
    assert_eq!(eq(Value::undefined(), Value::undefined()), Some(true));
    assert_eq!(eq(Value::null(), Value::null()), Some(true));
    assert_eq!(eq(Value::undefined(), Value::null()), Some(false));
    assert_eq!(eq(Value::from_bool(true), Value::from_bool(true)), Some(true));
    assert_eq!(eq(Value::from_bool(true), Value::from_bool(false)), Some(false));
    assert_eq!(eq(Value::from_number(num(1.0)), Value::from_number(num(1.0))), Some(true));
    assert_eq!(eq(Value::from_number(num(1.0)), Value::from_number(num(2.0))), Some(false));
    assert_eq!(eq(Value::from_number(num(0.0)), Value::from_number(num(-0.0))), Some(true));
    assert_eq!(
        eq(Value::from_number(num(f64::NAN)), Value::from_number(num(f64::NAN))),
        Some(false)
    );
    assert_eq!(eq(Value::from_number(num(1.0)), Value::from_bool(true)), Some(false));
}

#[test]
fn strict_equality_of_pointer_kinds_is_left_to_the_engine() {
    let rt = Runtime::adopt(1).unwrap();
    let a = Value::from_raw(&rt, raw_pointer(KIND_OBJECT, 1));
    let b = Value::from_raw(&rt, raw_pointer(KIND_OBJECT, 1));
    let c = Value::from_raw(&rt, raw_pointer(KIND_STRING, 1));
    assert_eq!(a.strict_equals(&b), None);
    assert_eq!(a.strict_equals(&c), Some(false));
    assert_eq!(a.strict_equals(&Value::undefined()), Some(false));
}

#[test]
fn release_owes_a_unit_only_for_pointer_kinds() {
    let rt = Runtime::adopt(1).unwrap();
    assert_eq!(Value::undefined().release(), None);
    assert_eq!(Value::null().release(), None);
    assert_eq!(Value::from_bool(true).release(), None);
    assert_eq!(Value::from_number(num(7.0)).release(), None);
    for kind in [KIND_SYMBOL, KIND_BIGINT, KIND_STRING, KIND_OBJECT] {
        let v = Value::from_raw(&rt, raw_pointer(kind, 21));
        assert_eq!(v.release(), Some(raw_pointer(kind, 21)));
    }
}

#[test]
fn duplicate_and_release_many_times() {
    let rt = Runtime::adopt(1).unwrap();
    // A ledger that plays the engine's reference count for one handle.
    let mut units: i64 = 0;
    let mut owned: Vec<Value> = Vec::new();
    for round in 0..10_000u64 {
        let v = Value::from_raw(&rt, raw_pointer(KIND_OBJECT, 0xabc0));
        units += 1;
        assert!(v.duplicate().is_none());
        // The engine hands out a second unit for the same object.
        let copy = Value::from_raw(&rt, raw_pointer(KIND_OBJECT, 0xabc0));
        units += 1;
        if round % 2 == 0 {
            owned.push(copy);
        } else if copy.release().is_some() {
            units -= 1;
        }
        if v.release().is_some() {
            units -= 1;
        }
    }
    assert_eq!(units, owned.len() as i64);
    for v in owned {
        assert!(v.release().is_some());
        units -= 1;
    }
    assert_eq!(units, 0);
}

#[test]
fn a_second_owner_comes_from_the_engines_clone() {
    let rt = Runtime::adopt(1).unwrap();
    let s1 = Value::from_raw(&rt, raw_pointer(KIND_STRING, 0x2000));
    // What the engine returns when asked to clone the string.
    let s2 = s1.retained(&rt, raw_pointer(KIND_STRING, 0x2008)).unwrap();
    assert_eq!(s2.kind(), s1.kind());
    assert_eq!(s2.handle(), Some(0x2008));
    // The first is as it was, and each gives back a unit of its own.
    assert_eq!(s1.handle(), Some(0x2000));
    assert_eq!(s1.release(), Some(raw_pointer(KIND_STRING, 0x2000)));
    assert_eq!(s2.release(), Some(raw_pointer(KIND_STRING, 0x2008)));
    // A clone of another kind is not taken for the value's, and an inline
    // value needs none.
    let o = Value::from_raw(&rt, raw_pointer(KIND_OBJECT, 0x3000));
    assert!(o.retained(&rt, raw_pointer(KIND_STRING, 0x3008)).is_none());
    assert!(o.retained(&rt, undefined_value()).is_none());
    assert!(Value::from_bool(true).retained(&rt, raw_boolean(true)).is_none());
}

#[test]
fn from_raw_clone_copies_only_inline_kinds() {
    let rt = Runtime::adopt(1).unwrap();
    let n = raw_number(2.5);
    let v = Value::from_raw_clone(&rt, &n).unwrap();
    assert_eq!(v.into_raw(), n);
    let s = raw_pointer(KIND_STRING, 5);
    assert!(Value::from_raw_clone(&rt, &s).is_none());
}

#[test]
fn settle_prefers_the_pending_error() {
    let rt = Runtime::adopt(1).unwrap();
    let r = Value::settle(&rt, raw_number(1.0), Err(Error::JsException("boom".into())));
    assert!(matches!(r, Err(Error::JsException(m)) if m == "boom"));
}

#[test]
fn function_arguments_are_borrowed_in_order() {
    let rt = Runtime::adopt(1).unwrap();
    let args = vec![
        Value::from_number(num(21.0)),
        Value::from_raw(&rt, raw_pointer(KIND_STRING, 0x10)),
        Value::undefined(),
    ];
    let borrowed: Vec<&Value> = args.iter().collect();
    let raw = Function::arguments(&borrowed);
    assert_eq!(raw, vec![raw_number(21.0), raw_pointer(KIND_STRING, 0x10), undefined_value()]);
    // The values still own what they owned.
    assert_eq!(args[1].handle(), Some(0x10));
    assert!(Function::arguments(&[]).is_empty());
}
