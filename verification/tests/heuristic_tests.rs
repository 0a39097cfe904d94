use xapirpc::heuristic::as_value_heuristic;
use xapirpc::value::WireValue;

#[test]
fn infer_bool_true() {
    assert_eq!(as_value_heuristic("true"), WireValue::Bool(true));
}

#[test]
fn infer_bool_false() {
    assert_eq!(as_value_heuristic("false"), WireValue::Bool(false));
}

#[test]
fn infer_bool_is_case_sensitive() {
    assert_eq!(as_value_heuristic("True"), WireValue::Str("True".to_string()));
    assert_eq!(as_value_heuristic("FALSE"), WireValue::Str("FALSE".to_string()));
}

#[test]
fn infer_int() {
    assert_eq!(as_value_heuristic("42"), WireValue::Int64(42));
}

#[test]
fn infer_int_negative() {
    assert_eq!(as_value_heuristic("-7"), WireValue::Int64(-7));
}

#[test]
fn infer_int_plus_sign() {
    assert_eq!(as_value_heuristic("+7"), WireValue::Int64(7));
}

#[test]
fn infer_one_and_zero_are_integers_not_booleans() {
    assert_eq!(as_value_heuristic("1"), WireValue::Int64(1));
    assert_eq!(as_value_heuristic("0"), WireValue::Int64(0));
}

#[test]
fn infer_int_extremes() {
    assert_eq!(
        as_value_heuristic("9223372036854775807"),
        WireValue::Int64(i64::MAX)
    );
    assert_eq!(
        as_value_heuristic("-9223372036854775808"),
        WireValue::Int64(i64::MIN)
    );
}

#[test]
fn infer_int_overflow_becomes_double() {
    // one past i64::MAX no longer parses as an integer, but does as a double
    assert_eq!(
        as_value_heuristic("9223372036854775808"),
        WireValue::Double(9223372036854775808.0f64.to_bits())
    );
}

#[test]
fn infer_double() {
    assert_eq!(
        as_value_heuristic("3.14"),
        WireValue::Double(3.14f64.to_bits())
    );
}

#[test]
fn infer_double_exponential() {
    assert_eq!(
        as_value_heuristic("1e3"),
        WireValue::Double(1000.0f64.to_bits())
    );
}

#[test]
fn infer_double_infinity_spelling() {
    assert_eq!(
        as_value_heuristic("inf"),
        WireValue::Double(f64::INFINITY.to_bits())
    );
}

#[test]
fn infer_int_far_past_the_range_becomes_double() {
    assert_eq!(
        as_value_heuristic("18446744073709551616"),
        WireValue::Double(18446744073709551616.0f64.to_bits())
    );
    assert_eq!(
        as_value_heuristic("-9223372036854775809"),
        WireValue::Double((-9223372036854775809.0f64).to_bits())
    );
}

#[test]
fn infer_string() {
    assert_eq!(as_value_heuristic("abc"), WireValue::Str("abc".to_string()));
}

#[test]
fn infer_empty_string() {
    assert_eq!(as_value_heuristic(""), WireValue::Str(String::new()));
}

#[test]
fn infer_string_with_spaces() {
    assert_eq!(
        as_value_heuristic("4 2"),
        WireValue::Str("4 2".to_string())
    );
}

#[test]
fn infer_bare_sign_is_a_string() {
    assert_eq!(as_value_heuristic("-"), WireValue::Str("-".to_string()));
    assert_eq!(as_value_heuristic("+"), WireValue::Str("+".to_string()));
}
