use wasmtest::doc::Number;
use wasmtest::error::ErrorHandler;
use wasmtest::parser::Type;
use wasmtest::values::{coerce, prepare_values, test_equality, Failure, Value};

fn lit(i: i64) -> Number {
    Number {
        int: Some(i),
        bits64: (i as f64).to_bits(),
        bits32: ((i as f64) as f32).to_bits(),
        text: i.to_string(),
    }
}

fn float(x: f64) -> Number {
    Number { int: None, bits64: x.to_bits(), bits32: (x as f32).to_bits(), text: x.to_string() }
}

#[test]
fn integers_narrow_to_thirty_two_bits() {
    assert_eq!(coerce(Type::I32, &lit(7)), Ok(Value::I32(7)));
    assert_eq!(coerce(Type::I32, &lit((1i64 << 32) + 5)), Ok(Value::I32(5)));
    assert_eq!(coerce(Type::I32, &lit(-1)), Ok(Value::I32(-1)));
    assert_eq!(coerce(Type::I64, &lit(1i64 << 40)), Ok(Value::I64(1i64 << 40)));
}

#[test]
fn float_literal_is_not_an_integer() {
    assert_eq!(
        coerce(Type::I32, &float(1.5)),
        Err(Failure::NotAnInteger { literal: "1.5".to_string(), ty: Type::I32 })
    );
    assert_eq!(
        coerce(Type::I64, &float(2.5)),
        Err(Failure::NotAnInteger { literal: "2.5".to_string(), ty: Type::I64 })
    );
}

#[test]
fn floats_keep_their_bits() {
    assert_eq!(coerce(Type::F32, &float(0.1)), Ok(Value::F32(0.1f32.to_bits())));
    assert_eq!(coerce(Type::F64, &float(0.1)), Ok(Value::F64(0.1f64.to_bits())));
    assert_eq!(coerce(Type::F64, &lit(3)), Ok(Value::F64(3.0f64.to_bits())));
}

#[test]
fn argument_count_must_match() {
    assert_eq!(
        prepare_values(&vec![Type::I32, Type::I32], &vec![lit(1)]),
        Err(Failure::ArgCount { expected: 2, got: 1 })
    );
    assert_eq!(
        prepare_values(&vec![Type::I32, Type::F64], &vec![lit(1), float(0.5)]),
        Ok(vec![Value::I32(1), Value::F64(0.5f64.to_bits())])
    );
}

#[test]
fn float_comparison_is_bit_exact() {
    let expected = vec![float(0.1)];
    assert_eq!(test_equality(&expected, &vec![Some(Value::F32(0.1f32.to_bits()))]), Ok(()));
    let widened = (0.1f32 as f64).to_bits();
    assert_eq!(
        test_equality(&expected, &vec![Some(Value::F64(widened))]),
        Err(Failure::F64Mismatch { expected: 0.1f64.to_bits(), actual: widened })
    );
    let neg_zero = vec![float(-0.0)];
    assert_eq!(
        test_equality(&neg_zero, &vec![Some(Value::F64(0.0f64.to_bits()))]),
        Err(Failure::F64Mismatch { expected: (-0.0f64).to_bits(), actual: 0.0f64.to_bits() })
    );
}

#[test]
fn integer_results_are_compared_by_value() {
    assert_eq!(test_equality(&vec![lit(42)], &vec![Some(Value::I32(42))]), Ok(()));
    assert_eq!(
        test_equality(&vec![lit(41)], &vec![Some(Value::I32(42))]),
        Err(Failure::IntMismatch { expected: 41, actual: 42 })
    );
    assert_eq!(
        test_equality(&vec![lit(5)], &vec![Some(Value::I64(6))]),
        Err(Failure::IntMismatch { expected: 5, actual: 6 })
    );
    assert_eq!(
        test_equality(&vec![float(1.5)], &vec![Some(Value::I32(1))]),
        Err(Failure::NotAnIntegerResult { expected: "1.5".to_string(), actual: 1 })
    );
    assert_eq!(
        test_equality(&vec![float(2.5)], &vec![Some(Value::I64(-3))]),
        Err(Failure::NotAnIntegerResult { expected: "2.5".to_string(), actual: -3 })
    );
    assert_eq!(test_equality(&vec![lit(1)], &vec![None]), Err(Failure::UnexpectedReturnType));
}

#[test]
fn result_count_must_match() {
    assert_eq!(
        test_equality(&vec![], &vec![Some(Value::I32(1))]),
        Err(Failure::ResultCount { expected: 0, got: 1 })
    );
}

#[test]
fn error_handler_collects_in_order() {
    let mut h = ErrorHandler::new();
    assert!(!h.has_error());
    h.report("f".to_string(), Failure::Trapped);
    h.report("g".to_string(), Failure::NoFunction);
    assert!(h.has_error());
    let r = h.records();
    assert_eq!(r.len(), 2);
    assert_eq!(r[0].fun, "f");
    assert_eq!(r[0].failure, Failure::Trapped);
    assert_eq!(r[1].fun, "g");
}

#[test]
fn silent_report_sets_the_flag_only() {
    let mut h = ErrorHandler::new();
    h.silent_report();
    assert!(h.has_error());
    assert!(h.records().is_empty());
}
