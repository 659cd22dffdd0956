use web3_proxy::json::{JsonMember, JsonValue};
use web3_proxy::jsonrpc::{JsonRpcErrorData, JsonRpcForwardedResponse};
use web3_proxy::primitives::H256;
use web3_proxy::text::{
    bytes_to_hex_data, chars_of, i64_to_decimal, starts_with, str_eq, u64_to_decimal,
    u64_to_hex_quantity,
};

#[test]
fn decimal_of_numbers() {
    assert_eq!(u64_to_decimal(0), "0");
    assert_eq!(u64_to_decimal(9), "9");
    assert_eq!(u64_to_decimal(10), "10");
    assert_eq!(u64_to_decimal(1234567890), "1234567890");
    assert_eq!(u64_to_decimal(u64::MAX), "18446744073709551615");
}

#[test]
fn decimal_of_signed_numbers() {
    assert_eq!(i64_to_decimal(0), "0");
    assert_eq!(i64_to_decimal(-32601), "-32601");
    assert_eq!(i64_to_decimal(i64::MIN), "-9223372036854775808");
    assert_eq!(i64_to_decimal(i64::MAX), "9223372036854775807");
}

#[test]
fn quantities_have_no_leading_zeros() {
    assert_eq!(u64_to_hex_quantity(0), "0x0");
    assert_eq!(u64_to_hex_quantity(1), "0x1");
    assert_eq!(u64_to_hex_quantity(100), "0x64");
    assert_eq!(u64_to_hex_quantity(255), "0xff");
    assert_eq!(u64_to_hex_quantity(256), "0x100");
    assert_eq!(u64_to_hex_quantity(u64::MAX), "0xffffffffffffffff");
}

#[test]
fn data_has_two_digits_for_each_byte() {
    assert_eq!(bytes_to_hex_data(&vec![]), "0x");
    assert_eq!(bytes_to_hex_data(&vec![0]), "0x00");
    assert_eq!(bytes_to_hex_data(&vec![0x0a, 0xbc, 0xff, 0x01]), "0x0abcff01");
}

#[test]
fn characters_of_text() {
    assert_eq!(chars_of(""), Vec::<char>::new());
    assert_eq!(chars_of("a\u{2026}b"), vec!['a', '\u{2026}', 'b']);
}

#[test]
fn prefixes_of_text() {
    assert!(starts_with("execution reverted: no", "execution reverted"));
    assert!(starts_with("abc", ""));
    assert!(starts_with("abc", "abc"));
    assert!(!starts_with("ab", "abc"));
    assert!(!starts_with("execution failed", "execution reverted"));
}

#[test]
fn hash_forms() {
    let mut bytes = [0u8; 32];
    bytes[0] = 0x12;
    bytes[1] = 0x34;
    bytes[30] = 0xab;
    bytes[31] = 0xcd;
    let hash = H256 { bytes };
    assert_eq!(
        hash.to_hex(),
        "0x123400000000000000000000000000000000000000000000000000000000abcd"
    );
    assert_eq!(hash.to_short_text(), "0x1234\u{2026}abcd");
    assert!(hash.same(&H256 { bytes }));
    assert!(!hash.same(&H256::zero()));
    assert_eq!(H256::zero().bytes, [0u8; 32]);
}

fn sample_object() -> JsonValue {
    JsonValue::Object(vec![
        JsonMember { name: "to".to_string(), value: JsonValue::Text("0xdef".to_string()) },
        JsonMember {
            name: "list".to_string(),
            value: JsonValue::Array(vec![
                JsonValue::Null,
                JsonValue::Bool(true),
                JsonValue::Bool(false),
                JsonValue::Number("-1.5e3".to_string()),
            ]),
        },
        JsonMember { name: "empty".to_string(), value: JsonValue::Object(vec![]) },
    ])
}

#[test]
fn compact_text_of_values() {
    assert_eq!(JsonValue::Null.to_text(), "null");
    assert_eq!(JsonValue::Bool(true).to_text(), "true");
    assert_eq!(JsonValue::Bool(false).to_text(), "false");
    assert_eq!(JsonValue::Number("42".to_string()).to_text(), "42");
    assert_eq!(JsonValue::Text("0x10".to_string()).to_text(), "\"0x10\"");
    assert_eq!(JsonValue::Array(vec![]).to_text(), "[]");
    assert_eq!(
        sample_object().to_text(),
        "{\"to\":\"0xdef\",\"list\":[null,true,false,-1.5e3],\"empty\":{}}"
    );
}

#[test]
fn text_is_escaped_between_quotes() {
    let text = JsonValue::Text("a\"b\\c\nd\re\tf\u{8}g\u{c}h\u{1}i\u{1f}j\u{e9}".to_string());
    assert_eq!(
        text.to_text(),
        "\"a\\\"b\\\\c\\nd\\re\\tf\\bg\\fh\\u0001i\\u001fj\u{e9}\""
    );
}

#[test]
fn compact_text_agrees_with_serde_json() {
    let text = sample_object().to_text();
    let parsed: serde_json::Value = serde_json::from_str(&text).unwrap();
    assert_eq!(parsed["to"], serde_json::Value::String("0xdef".to_string()));
    assert_eq!(parsed["list"][3].as_f64(), Some(-1500.0));
    let escaped = JsonValue::Text("q\"\\\n\u{1}\u{7f}".to_string()).to_text();
    assert_eq!(escaped, serde_json::to_string("q\"\\\n\u{1}\u{7f}").unwrap());
}

fn from_serde(value: serde_json::Value) -> JsonValue {
    match value {
        serde_json::Value::Null => JsonValue::Null,
        serde_json::Value::Bool(b) => JsonValue::Bool(b),
        serde_json::Value::Number(n) => JsonValue::Number(n.to_string()),
        serde_json::Value::String(s) => JsonValue::Text(s),
        serde_json::Value::Array(items) => {
            JsonValue::Array(items.into_iter().map(from_serde).collect())
        }
        serde_json::Value::Object(members) => JsonValue::Object(
            members
                .into_iter()
                .map(|(name, value)| JsonMember { name, value: from_serde(value) })
                .collect(),
        ),
    }
}

#[test]
fn encoding_then_decoding_is_identity() {
    let values = vec![
        JsonValue::Null,
        JsonValue::Bool(true),
        JsonValue::Number("17".to_string()),
        JsonValue::Number("-3".to_string()),
        JsonValue::Text("0x10".to_string()),
        JsonValue::Text("line\nbreak \"quoted\" back\\slash \u{1} \u{2026}".to_string()),
        JsonValue::Array(vec![JsonValue::Null, JsonValue::Text("a".to_string())]),
        JsonValue::Object(vec![
            JsonMember { name: "a".to_string(), value: JsonValue::Array(vec![]) },
            JsonMember {
                name: "b \"c\"".to_string(),
                value: JsonValue::Object(vec![JsonMember {
                    name: "d".to_string(),
                    value: JsonValue::Number("1".to_string()),
                }]),
            },
        ]),
    ];
    for value in values {
        let decoded: serde_json::Value = serde_json::from_str(&value.to_text()).unwrap();
        assert_eq!(from_serde(decoded), value);
    }
    let response = JsonRpcForwardedResponse::from_value(
        JsonValue::Text("0x10".to_string()),
        JsonValue::Number("1".to_string()),
    );
    let decoded: serde_json::Value = serde_json::from_str(&response.to_text()).unwrap();
    assert_eq!(decoded["jsonrpc"], "2.0");
    assert_eq!(from_serde(decoded["id"].clone()), response.id);
    assert_eq!(Some(from_serde(decoded["result"].clone())), response.result);
    assert!(decoded.get("error").is_none());
}

#[test]
fn numbers_must_read_as_numbers() {
    assert!(sample_object().is_well_formed());
    assert!(JsonValue::Number("0".to_string()).is_well_formed());
    assert!(JsonValue::Number("-12.5e+3".to_string()).is_well_formed());
    assert!(!JsonValue::Number("".to_string()).is_well_formed());
    assert!(!JsonValue::Number("null".to_string()).is_well_formed());
    assert!(!JsonValue::Number("+1".to_string()).is_well_formed());
    assert!(!JsonValue::Number("1,2".to_string()).is_well_formed());
    assert!(JsonValue::Text("anything".to_string()).is_well_formed());
    assert!(!JsonValue::Array(vec![
        JsonValue::Null,
        JsonValue::Object(vec![JsonMember {
            name: "n".to_string(),
            value: JsonValue::Number("x".to_string()),
        }]),
    ])
    .is_well_formed());
}

#[test]
fn copies_are_equal() {
    let value = sample_object();
    assert_eq!(value.duplicate(), value);
}

#[test]
fn response_text_with_result() {
    let response = JsonRpcForwardedResponse::from_value(
        JsonValue::Text("0x10".to_string()),
        JsonValue::Number("1".to_string()),
    );
    assert_eq!(response.to_text(), "{\"jsonrpc\":\"2.0\",\"id\":1,\"result\":\"0x10\"}");
    assert_eq!(response.payload(), ",\"result\":\"0x10\"");
    assert!(!response.is_error());
    assert!(!response.is_null());
    assert_eq!(response.duplicate(), response);
}

#[test]
fn response_text_with_error() {
    let response = JsonRpcForwardedResponse::from_str("unsupported", -32601, None);
    assert_eq!(
        response.to_text(),
        "{\"jsonrpc\":\"2.0\",\"id\":null,\"error\":{\"code\":-32601,\"message\":\"unsupported\"}}"
    );
    assert!(response.is_error());
    assert!(!response.is_null());
    let with_data = JsonRpcForwardedResponse::from_response_data(
        JsonRpcErrorData {
            message: "slow down".to_string(),
            code: -32005,
            data: Some(JsonValue::Number("7".to_string())),
        },
        JsonValue::Text("a".to_string()),
    );
    assert_eq!(
        with_data.to_text(),
        "{\"jsonrpc\":\"2.0\",\"id\":\"a\",\"error\":{\"code\":-32005,\"message\":\"slow down\",\"data\":7}}"
    );
}

#[test]
fn null_result_is_null() {
    let response = JsonRpcForwardedResponse::from_value(JsonValue::Null, JsonValue::Null);
    assert!(response.is_null());
    assert!(!response.is_error());
}

#[test]
fn texts_are_the_same_where_every_character_is() {
    assert!(str_eq("eth_call", "eth_call"));
    assert!(str_eq("", ""));
    assert!(str_eq("caf\u{e9}", "caf\u{e9}"));
    assert!(!str_eq("eth_call", "eth_calls"));
    assert!(!str_eq("eth_call", "eth_cal"));
    assert!(!str_eq("eth_call", "eth_calL"));
    assert!(!str_eq("", "a"));
}

#[test]
fn every_character_is_written_as_serde_json_writes_it() {
    for code in (0u32..0x3000).chain([0xd7ff, 0xe000, 0xfffd, 0xffff, 0x1_0000, 0x1_f600, 0x10_ffff]) {
        let c = match char::from_u32(code) {
            Some(c) => c,
            None => continue,
        };
        let text = format!("a{}b", c);
        assert_eq!(
            JsonValue::Text(text.clone()).to_text(),
            serde_json::to_string(&text).unwrap(),
            "character {:#x}",
            code
        );
    }
}
