use sharkd_bridge::json::JsonValue;
use sharkd_bridge::json_out::render_json;
use sharkd_bridge::rpc::{
    decode_response_line, decode_response_value, encode_request, RpcChannel, RpcError, StubEngine,
};

#[test]
fn encodes_request_without_params() {
    let line = encode_request(1, "status", None);
    assert_eq!(line, "{\"jsonrpc\":\"2.0\",\"id\":1,\"method\":\"status\"}\n");
}

#[test]
fn encodes_request_with_params() {
    let params = JsonValue::Obj(vec![("limit".to_string(), JsonValue::Num("50".to_string()))]);
    let line = encode_request(3, "frames", Some(params));
    assert_eq!(
        line,
        "{\"jsonrpc\":\"2.0\",\"id\":3,\"method\":\"frames\",\"params\":{\"limit\":50}}\n"
    );
}

#[test]
fn channel_ids_count_up() {
    let mut ch = RpcChannel::new();
    let (id1, _) = ch.encode_next("status", None);
    let (id2, _) = ch.encode_next("status", None);
    assert_eq!(id1, 1);
    assert_eq!(id2, 2);
}

#[test]
fn decodes_result_line() {
    let line = "{\"jsonrpc\":\"2.0\",\"id\":1,\"result\":{\"frames\":120}}";
    match decode_response_line(line) {
        Ok(v) => match v.get("frames") {
            Some(JsonValue::Num(s)) => assert_eq!(s, "120"),
            _ => panic!("expected the frames member"),
        },
        Err(_) => panic!("expected a result"),
    }
}

#[test]
fn decodes_error_line() {
    let line = "{\"jsonrpc\":\"2.0\",\"id\":1,\"error\":{\"code\":-32600,\"message\":\"bad request\"}}";
    match decode_response_line(line) {
        Err(RpcError::Remote { code, message }) => {
            assert_eq!(code, -32600);
            assert_eq!(message, "bad request");
        },
        _ => panic!("expected the remote error"),
    }
}

#[test]
fn error_wins_over_result() {
    let line = "{\"error\":{\"code\":1,\"message\":\"m\"},\"result\":5}";
    assert!(matches!(
        decode_response_line(line),
        Err(RpcError::Remote { code: 1, .. })
    ));
}

#[test]
fn line_without_result_or_error_is_protocol_failure() {
    assert!(matches!(
        decode_response_line("{\"jsonrpc\":\"2.0\",\"id\":1}"),
        Err(RpcError::Protocol)
    ));
    assert!(matches!(decode_response_line("not json"), Err(RpcError::Protocol)));
    assert!(matches!(
        decode_response_line("{\"error\":{\"code\":\"x\",\"message\":\"m\"}}"),
        Err(RpcError::Protocol)
    ));
}

#[test]
fn decoding_a_matching_response_returns_the_result_unchanged() {
    let result = JsonValue::Obj(vec![
        ("a".to_string(), JsonValue::Arr(vec![JsonValue::Num("1".to_string())])),
        ("b".to_string(), JsonValue::Str("x".to_string())),
    ]);
    let rendered_result = render_json(&result);
    let response = JsonValue::Obj(vec![
        ("jsonrpc".to_string(), JsonValue::Str("2.0".to_string())),
        ("id".to_string(), JsonValue::Num("7".to_string())),
        ("result".to_string(), result),
    ]);
    let line = render_json(&response);
    match decode_response_line(&line) {
        Ok(v) => assert_eq!(render_json(&v), rendered_result),
        Err(_) => panic!("expected the result back"),
    }
    let reparsed = sharkd_bridge::json_in::parse_json(&line).expect("parses");
    match decode_response_value(reparsed) {
        Ok(v) => assert_eq!(render_json(&v), rendered_result),
        Err(_) => panic!("expected the result back"),
    }
}

fn answered_id(r: Result<JsonValue, RpcError>) -> String {
    match r {
        Ok(v) => match v.get("answered") {
            Some(JsonValue::Num(s)) => s.clone(),
            _ => panic!("expected the answered tag"),
        },
        Err(_) => panic!("expected a result"),
    }
}

#[test]
fn exchanges_pair_answers_with_their_own_requests() {
    let mut ch = RpcChannel::new();
    let mut eng = StubEngine::new();
    let r1 = ch.call_stub(&mut eng, "status", None);
    let r2 = ch.call_stub(
        &mut eng,
        "frames",
        Some(JsonValue::Obj(vec![("limit".to_string(), JsonValue::Num("5".to_string()))])),
    );
    let tag1 = answered_id(r1);
    let tag2 = answered_id(r2);
    assert_eq!(tag1, "1");
    assert_eq!(tag2, "2");
    assert_ne!(tag1, tag2);
    assert_eq!(eng.served, 2);
}
