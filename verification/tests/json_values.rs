use hurl_lib::json::{get_json_value, parse_json, to_json_text, JsonValue};

#[test]
fn test_parse_json_document() {
    let doc = parse_json(r#"{"a":1,"b":[true,null,"x"]}"#).unwrap();
    match &doc {
        JsonValue::Obj(members) => {
            assert_eq!(members.len(), 2);
            assert_eq!(members[0].0, "a");
        }
        _ => panic!("expected an object"),
    }
    assert!(parse_json("{not json").is_err());
}

#[test]
fn test_json_render_round_trip() {
    let text = r#"{"a":1,"b":[true,null,"x"],"s":"q\"uote"}"#;
    let doc = parse_json(text).unwrap();
    let rendered = to_json_text(&doc);
    let again = parse_json(&rendered).unwrap();
    assert!(doc.deep_eq(&again));
    assert_eq!(rendered, text);
}

#[test]
fn test_json_render_escapes() {
    let v = JsonValue::Str("line\nbreak\t\"q\" \\ \u{1}".to_string());
    let rendered = to_json_text(&v);
    assert_eq!(rendered, "\"line\\nbreak\\t\\\"q\\\" \\\\ \\u0001\"");
    let back = parse_json(&rendered).unwrap();
    assert!(back.deep_eq(&v));
}

#[test]
fn test_json_render_numbers() {
    assert_eq!(to_json_text(&JsonValue::Num(0)), "0");
    assert_eq!(to_json_text(&JsonValue::Num(-17)), "-17");
    assert_eq!(
        to_json_text(&JsonValue::Num(i64::MIN)),
        "-9223372036854775808"
    );
    assert_eq!(to_json_text(&JsonValue::Null), "null");
    assert_eq!(to_json_text(&JsonValue::Bool(false)), "false");
}

#[test]
fn test_json_deep_eq_is_structural() {
    let a = parse_json(r#"{"x":[1,{"y":2}]}"#).unwrap();
    let b = parse_json(r#"{"x":[1,{"y":2}]}"#).unwrap();
    let c = parse_json(r#"{"x":[1,{"y":3}]}"#).unwrap();
    assert!(a.deep_eq(&b));
    assert!(!a.deep_eq(&c));
    assert!(a.duplicate().deep_eq(&a));
}

#[test]
fn test_get_json_value_plain_keys() {
    let doc = parse_json(r#"{"user":{"name":"John"},"n":5}"#).unwrap();
    let name = get_json_value(&doc, "user.name").unwrap();
    assert_eq!(name.as_str(), Some("John"));
    assert!(get_json_value(&doc, "user.missing").is_none());
    assert!(get_json_value(&doc, "n.deeper").is_none());
}

#[test]
fn test_json_accessors() {
    let v = parse_json(r#"{"b":true,"n":9,"s":"t","z":null}"#).unwrap();
    assert_eq!(get_json_value(&v, "b").unwrap().as_bool(), Some(true));
    assert_eq!(get_json_value(&v, "n").unwrap().as_i64(), Some(9));
    assert_eq!(get_json_value(&v, "s").unwrap().as_str(), Some("t"));
    assert!(get_json_value(&v, "z").unwrap().is_null());
    assert_eq!(get_json_value(&v, "s").unwrap().as_i64(), None);
}

#[test]
fn test_json_big_number_kept_as_text() {
    let doc = parse_json(r#"{"big":18446744073709551615}"#).unwrap();
    let big = get_json_value(&doc, "big").unwrap();
    assert!(matches!(big, JsonValue::NumText(_)));
    assert_eq!(to_json_text(&big), "18446744073709551615");
}
