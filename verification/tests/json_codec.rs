use sharkd_bridge::json::{parse_dec_u64, u64_to_dec, JsonValue};
use sharkd_bridge::rpc::parse_dec_i64;
use sharkd_bridge::json_in::parse_json;
use sharkd_bridge::json_out::render_json;

fn render(v: &JsonValue) -> String {
    render_json(v)
}

fn reparse_render(text: &str) -> String {
    let v = parse_json(text).expect("input should parse");
    render_json(&v)
}

#[test]
fn renders_scalars() {
    assert_eq!(render(&JsonValue::Null), "null");
    assert_eq!(render(&JsonValue::Bool(true)), "true");
    assert_eq!(render(&JsonValue::Bool(false)), "false");
    assert_eq!(render(&JsonValue::Num("42".to_string())), "42");
    assert_eq!(render(&JsonValue::Str("hi".to_string())), "\"hi\"");
}

#[test]
fn renders_nested_structures() {
    let v = JsonValue::Obj(vec![
        ("a".to_string(), JsonValue::Arr(vec![
            JsonValue::Num("1".to_string()),
            JsonValue::Null,
        ])),
        ("b".to_string(), JsonValue::Str("x".to_string())),
    ]);
    assert_eq!(render(&v), "{\"a\":[1,null],\"b\":\"x\"}");
}

#[test]
fn renders_string_escapes() {
    let v = JsonValue::Str("a\"b\\c\nd\te\r".to_string());
    assert_eq!(render(&v), "\"a\\\"b\\\\c\\nd\\te\\r\"");
}

#[test]
fn parses_scalars() {
    assert!(matches!(parse_json("null"), Some(JsonValue::Null)));
    assert!(matches!(parse_json("true"), Some(JsonValue::Bool(true))));
    assert!(matches!(parse_json("false"), Some(JsonValue::Bool(false))));
    match parse_json("12.5e3") {
        Some(JsonValue::Num(s)) => assert_eq!(s, "12.5e3"),
        other => panic!("expected a number, got {:?}", other.is_some()),
    }
}

#[test]
fn parses_nested_with_whitespace() {
    let v = parse_json(" { \"a\" : [ 1 , 2 ] , \"b\" : { \"c\" : null } } ").expect("parses");
    assert_eq!(render_json(&v), "{\"a\":[1,2],\"b\":{\"c\":null}}");
}

#[test]
fn parses_string_escapes() {
    match parse_json("\"a\\n\\t\\\"\\\\b\\/\"") {
        Some(JsonValue::Str(s)) => assert_eq!(s, "a\n\t\"\\b/"),
        _ => panic!("expected a string"),
    }
}

#[test]
fn rejects_malformed_input() {
    assert!(parse_json("").is_none());
    assert!(parse_json("tru").is_none());
    assert!(parse_json("{").is_none());
    assert!(parse_json("[1,]").is_none());
    assert!(parse_json("{\"a\"}").is_none());
    assert!(parse_json("\"unterminated").is_none());
    assert!(parse_json("1 2").is_none());
    assert!(parse_json("\"\\u0041\"").is_none());
}

#[test]
fn round_trips_through_text() {
    let cases = [
        "null",
        "true",
        "[1,2,3]",
        "{\"a\":\"b c\",\"d\":[{\"e\":-1.5},\"f\\ng\"]}",
        "{\"frames\":120,\"duration\":12.5}",
    ];
    for c in cases {
        assert_eq!(reparse_render(c), c);
        assert_eq!(reparse_render(&reparse_render(c)), reparse_render(c));
    }
}

#[test]
fn decimal_text_of_integers() {
    assert_eq!(u64_to_dec(0), "0");
    assert_eq!(u64_to_dec(7), "7");
    assert_eq!(u64_to_dec(1234567890), "1234567890");
    assert_eq!(u64_to_dec(u64::MAX), "18446744073709551615");
}

#[test]
fn reads_decimal_text() {
    assert_eq!(parse_dec_u64("0"), Some(0));
    assert_eq!(parse_dec_u64("18446744073709551615"), Some(u64::MAX));
    assert_eq!(parse_dec_u64("18446744073709551616"), None);
    assert_eq!(parse_dec_u64(""), None);
    assert_eq!(parse_dec_u64("1a"), None);
    assert_eq!(parse_dec_u64("-1"), None);
}

#[test]
fn member_lookup_finds_first_binding() {
    let v = parse_json("{\"k\":1,\"k\":2,\"m\":3}").expect("parses");
    match v.get("k") {
        Some(JsonValue::Num(s)) => assert_eq!(s, "1"),
        _ => panic!("expected the first binding of k"),
    }
    assert!(v.get("absent").is_none());
}

#[test]
fn reads_signed_decimal_text() {
    assert_eq!(parse_dec_i64("0"), Some(0));
    assert_eq!(parse_dec_i64("-1"), Some(-1));
    assert_eq!(parse_dec_i64("9223372036854775807"), Some(i64::MAX));
    assert_eq!(parse_dec_i64("-9223372036854775808"), Some(i64::MIN));
    assert_eq!(parse_dec_i64("-9223372036854775809"), None);
    assert_eq!(parse_dec_i64("9223372036854775808"), None);
    assert_eq!(parse_dec_i64("-"), None);
    assert_eq!(parse_dec_i64("--1"), None);
}
