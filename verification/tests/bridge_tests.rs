use xapirpc::bridge::RpcHelpers;
use xapirpc::error::RpcError;
use xapirpc::value::DateTimeValue;
use xapirpc::value::JsonNumber;
use xapirpc::value::JsonValue;
use xapirpc::value::WireValue;

fn float(x: f64) -> JsonValue {
    JsonValue::Number(JsonNumber::Float(x.to_bits()))
}

#[test]
fn as_json_integers_go_through_a_double() {
    assert_eq!(WireValue::Int64(2048).as_json(), float(2048.0));
    assert_eq!(WireValue::Int32(-5).as_json(), float(-5.0));
}

#[test]
fn as_json_large_integer_loses_precision() {
    // 2^53 + 1 is not exactly representable in a double; the nearest double
    // is 2^53. That lossy boundary is deliberate.
    let got = WireValue::Int64((1i64 << 53) + 1).as_json();
    assert_eq!(got, float(9007199254740992.0));
}

#[test]
fn as_json_scalars() {
    assert_eq!(WireValue::Bool(true).as_json(), JsonValue::Bool(true));
    assert_eq!(
        WireValue::Str("vm1".to_string()).as_json(),
        JsonValue::Str("vm1".to_string())
    );
    assert_eq!(
        WireValue::Double(2.5f64.to_bits()).as_json(),
        float(2.5)
    );
    assert_eq!(WireValue::Nil.as_json(), JsonValue::Null);
}

#[test]
fn as_json_bytes_become_padded_base64() {
    assert_eq!(
        WireValue::Bytes(vec![1, 2, 3]).as_json(),
        JsonValue::Str("AQID".to_string())
    );
    assert_eq!(
        WireValue::Bytes(vec![255]).as_json(),
        JsonValue::Str("/w==".to_string())
    );
    assert_eq!(
        WireValue::Bytes(Vec::new()).as_json(),
        JsonValue::Str(String::new())
    );
}

#[test]
fn as_json_datetime_is_canonical() {
    let dt = DateTimeValue { year: 2024, month: 1, day: 2, hour: 3, minute: 4, second: 5 };
    assert_eq!(
        WireValue::DateTime(dt).as_json(),
        JsonValue::Str("20240102T03:04:05".to_string())
    );
}

#[test]
fn as_json_datetime_pads_with_zeros() {
    let dt = DateTimeValue { year: 7, month: 12, day: 31, hour: 23, minute: 59, second: 0 };
    assert_eq!(
        WireValue::DateTime(dt).as_json(),
        JsonValue::Str("00071231T23:59:00".to_string())
    );
}

#[test]
fn as_json_datetime_fields_wider_than_the_padding_keep_all_digits() {
    let dt = DateTimeValue { year: 123456, month: 1, day: 1, hour: 0, minute: 0, second: 0 };
    assert_eq!(
        WireValue::DateTime(dt).as_json(),
        JsonValue::Str("1234560101T00:00:00".to_string())
    );
}

#[test]
fn as_json_struct_keeps_keys_and_order() {
    let w = WireValue::Struct(vec![
        ("name".to_string(), WireValue::Str("vm1".to_string())),
        ("memory".to_string(), WireValue::Int64(2048)),
    ]);
    assert_eq!(
        w.as_json(),
        JsonValue::Object(vec![
            ("name".to_string(), JsonValue::Str("vm1".to_string())),
            ("memory".to_string(), float(2048.0)),
        ])
    );
}

#[test]
fn as_json_array_keeps_order() {
    let w = WireValue::Array(vec![WireValue::Bool(false), WireValue::Int64(1), WireValue::Nil]);
    assert_eq!(
        w.as_json(),
        JsonValue::Array(vec![JsonValue::Bool(false), float(1.0), JsonValue::Null])
    );
}

#[test]
fn from_json_exact_integer_becomes_int64() {
    assert_eq!(
        WireValue::from_json(&JsonValue::Number(JsonNumber::Int(5))),
        WireValue::Int64(5)
    );
}

#[test]
fn from_json_other_number_becomes_double() {
    assert_eq!(
        WireValue::from_json(&float(2.5)),
        WireValue::Double(2.5f64.to_bits())
    );
}

#[test]
fn from_json_nested() {
    let j = JsonValue::Object(vec![
        ("flag".to_string(), JsonValue::Bool(true)),
        (
            "items".to_string(),
            JsonValue::Array(vec![JsonValue::Str("x".to_string()), JsonValue::Null]),
        ),
    ]);
    assert_eq!(
        WireValue::from_json(&j),
        WireValue::Struct(vec![
            ("flag".to_string(), WireValue::Bool(true)),
            (
                "items".to_string(),
                WireValue::Array(vec![WireValue::Str("x".to_string()), WireValue::Nil]),
            ),
        ])
    );
}

fn float_only_sample() -> JsonValue {
    JsonValue::Object(vec![
        ("a".to_string(), float(2.5)),
        (
            "b".to_string(),
            JsonValue::Array(vec![
                JsonValue::Bool(true),
                JsonValue::Null,
                JsonValue::Str("x".to_string()),
            ]),
        ),
    ])
}

#[test]
fn json_round_trip_is_identity_for_float_numbers() {
    let j = float_only_sample();
    assert_eq!(WireValue::from_json(&j).as_json(), float_only_sample());
}

#[test]
fn json_round_trip_retags_integer_numbers() {
    // the one JSON shape the trip does not preserve: an integer-tagged
    // number comes back tagged as a double
    let j = JsonValue::Number(JsonNumber::Int(5));
    assert_eq!(WireValue::from_json(&j).as_json(), float(5.0));
}

#[test]
fn wire_round_trip_loses_bytes_and_datetime_tags() {
    let dt = DateTimeValue { year: 2024, month: 1, day: 2, hour: 3, minute: 4, second: 5 };
    let w = WireValue::Struct(vec![
        ("blob".to_string(), WireValue::Bytes(vec![1, 2, 3])),
        ("when".to_string(), WireValue::DateTime(dt)),
    ]);
    let back = WireValue::from_json(&w.as_json());
    assert_eq!(
        back,
        WireValue::Struct(vec![
            ("blob".to_string(), WireValue::Str("AQID".to_string())),
            ("when".to_string(), WireValue::Str("20240102T03:04:05".to_string())),
        ])
    );
}

#[test]
fn wire_round_trip_keeps_strings_and_doubles() {
    let w = WireValue::Array(vec![
        WireValue::Str("abc".to_string()),
        WireValue::Double(1.5f64.to_bits()),
        WireValue::Bool(false),
        WireValue::Nil,
    ]);
    let back = WireValue::from_json(&w.as_json());
    assert_eq!(
        back,
        WireValue::Array(vec![
            WireValue::Str("abc".to_string()),
            WireValue::Double(1.5f64.to_bits()),
            WireValue::Bool(false),
            WireValue::Nil,
        ])
    );
}

#[test]
fn rpc_value_returns_the_value_member() {
    let env = WireValue::Struct(vec![("Value".to_string(), WireValue::Int64(5))]);
    assert_eq!(env.rpc_value(), Ok(WireValue::Int64(5)));
}

#[test]
fn rpc_value_fault_renders_the_description_as_json() {
    let env = WireValue::Struct(vec![(
        "ErrorDescription".to_string(),
        WireValue::Array(vec![
            WireValue::Str("X".to_string()),
            WireValue::Str("Y".to_string()),
        ]),
    )]);
    assert_eq!(
        env.rpc_value(),
        Err(RpcError::Fault(JsonValue::Array(vec![
            JsonValue::Str("X".to_string()),
            JsonValue::Str("Y".to_string()),
        ])))
    );
}

#[test]
fn rpc_value_on_empty_struct_is_malformed() {
    let env = WireValue::Struct(Vec::new());
    assert_eq!(
        env.rpc_value(),
        Err(RpcError::MalformedResponse(WireValue::Struct(Vec::new())))
    );
}

#[test]
fn rpc_value_on_non_struct_is_malformed() {
    let env = WireValue::Int64(1);
    assert_eq!(
        env.rpc_value(),
        Err(RpcError::MalformedResponse(WireValue::Int64(1)))
    );
}

#[test]
fn rpc_value_prefers_value_over_error_description() {
    let env = WireValue::Struct(vec![
        (
            "ErrorDescription".to_string(),
            WireValue::Str("boom".to_string()),
        ),
        ("Value".to_string(), WireValue::Bool(true)),
    ]);
    assert_eq!(env.rpc_value(), Ok(WireValue::Bool(true)));
}
