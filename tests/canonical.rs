use doc_conditions::canonical::{canonical_bytes, signed_message_bytes};
use doc_conditions::document::{JsonValue, SignedData};

fn text(s: &str) -> JsonValue {
    JsonValue::Text(s.to_string())
}

#[test]
fn scalars_render_compactly() {
    assert_eq!(canonical_bytes(&JsonValue::Null), b"null".to_vec());
    assert_eq!(canonical_bytes(&JsonValue::Bool(true)), b"true".to_vec());
    assert_eq!(canonical_bytes(&JsonValue::Bool(false)), b"false".to_vec());
    assert_eq!(canonical_bytes(&JsonValue::Number(0)), b"0".to_vec());
    assert_eq!(canonical_bytes(&JsonValue::Number(-1200000)), b"-1200000".to_vec());
    assert_eq!(canonical_bytes(&JsonValue::Number(i64::MIN)), b"-9223372036854775808".to_vec());
    assert_eq!(canonical_bytes(&JsonValue::Number(i64::MAX)), b"9223372036854775807".to_vec());
}

#[test]
fn strings_are_escaped() {
    assert_eq!(canonical_bytes(&text("a\"b\\c")), br#""a\"b\\c""#.to_vec());
    assert_eq!(canonical_bytes(&text("l1\nl2\tx\r\u{8}\u{c}")), br#""l1\nl2\tx\r\b\f""#.to_vec());
    assert_eq!(canonical_bytes(&text("\u{1}\u{1f}")), br#""\u0001\u001f""#.to_vec());
    assert_eq!(canonical_bytes(&text("é")), "\"é\"".as_bytes().to_vec());
}

#[test]
fn nested_values_render_in_member_order() {
    let v = JsonValue::Object(vec![
        ("amount".to_string(), JsonValue::Number(100)),
        ("items".to_string(), JsonValue::Array(vec![JsonValue::Number(1), text("x"), JsonValue::Array(vec![])])),
        ("meta".to_string(), JsonValue::Object(vec![])),
    ]);
    assert_eq!(canonical_bytes(&v), br#"{"amount":100,"items":[1,"x",[]],"meta":{}}"#.to_vec());
}

#[test]
fn rendering_matches_compact_json_of_sorted_members() {
    let v = JsonValue::Object(vec![
        ("a".to_string(), JsonValue::Bool(false)),
        ("b".to_string(), text("q\"\u{2}")),
        ("c".to_string(), JsonValue::Array(vec![JsonValue::Null, JsonValue::Number(-5)])),
    ]);
    let parsed: serde_json::Value = serde_json::from_str(r#"{ "c": [null, -5], "b": "q\"\u0002", "a": false }"#).unwrap();
    assert_eq!(canonical_bytes(&v), serde_json::to_vec(&parsed).unwrap());
}

#[test]
fn signed_message_covers_data_and_time() {
    let d = SignedData {
        data: JsonValue::Object(vec![("amount".to_string(), JsonValue::Number(100))]),
        signature: String::new(),
        signed_at: "2024-05-01T10:00:00Z".to_string(),
        signer: "alice".to_string(),
    };
    assert_eq!(
        signed_message_bytes(&d),
        br#"{"data":{"amount":100},"signed_at":"2024-05-01T10:00:00Z"}"#.to_vec()
    );
}
