use echotype_core::json::{JsonValue, json_to_text};
use echotype_core::decode::parse_json_text;
use echotype_core::protocol::{Request, Response, encode_request, encode_response, parse_response,
    interpret_response};
use echotype_core::errors::BridgeError;

fn s(t: &str) -> String {
    String::from(t)
}

fn obj(members: Vec<(&str, JsonValue)>) -> JsonValue {
    JsonValue::Obj(members.into_iter().map(|(k, v)| (s(k), v)).collect())
}

#[test]
fn request_line_shape() {
    let line = encode_request(Request {
        cmd: s("get_settings"),
        args: obj(vec![]),
    });
    assert_eq!(line, "{\"cmd\":\"get_settings\",\"args\":{}}\n");
}

#[test]
fn request_line_single_newline_at_end() {
    let line = encode_request(Request {
        cmd: s("inject_text"),
        args: obj(vec![("text", JsonValue::Str(s("two\nlines and \"quotes\"")))]),
    });
    assert!(line.ends_with('\n'));
    assert_eq!(line.matches('\n').count(), 1, "newlines inside are escaped");
}

#[test]
fn request_round_trip() {
    let line = encode_request(Request {
        cmd: s("save_history"),
        args: obj(vec![
            ("transcript", JsonValue::Str(s("hello"))),
            ("duration", JsonValue::Num(s("2.5"))),
        ]),
    });
    let back = parse_json_text(line.trim_end()).expect("request line parses");
    match back {
        JsonValue::Obj(ms) => {
            assert_eq!(ms[0], (s("cmd"), JsonValue::Str(s("save_history"))));
            match &ms[1].1 {
                JsonValue::Obj(args) => {
                    assert_eq!(args[0], (s("transcript"), JsonValue::Str(s("hello"))));
                    assert_eq!(args[1], (s("duration"), JsonValue::Num(s("2.5"))));
                },
                _ => panic!("args must be an object"),
            }
        },
        _ => panic!("request must be an object"),
    }
}

#[test]
fn response_round_trip_ok() {
    let resp = Response {
        ok: true,
        result: Some(obj(vec![("polisher_mode", JsonValue::Str(s("none")))])),
        error: None,
    };
    let line = encode_response(resp);
    let back = parse_response(&line).expect("reply line parses");
    assert_eq!(
        back,
        Response {
            ok: true,
            result: Some(obj(vec![("polisher_mode", JsonValue::Str(s("none")))])),
            error: None,
        }
    );
}

#[test]
fn response_round_trip_error() {
    let resp = Response { ok: false, result: None, error: Some(s("db locked")) };
    let line = encode_response(resp);
    assert_eq!(line, "{\"ok\":false,\"error\":\"db locked\"}\n");
    let back = parse_response(&line).expect("reply line parses");
    assert_eq!(back, Response { ok: false, result: None, error: Some(s("db locked")) });
}

#[test]
fn null_result_reads_as_absent() {
    let back = parse_response("{\"ok\":true,\"result\":null}\n").unwrap();
    assert_eq!(back, Response { ok: true, result: None, error: None });
}

#[test]
fn unknown_fields_are_tolerated() {
    let back = parse_response("{\"extra\":1,\"ok\":true}").unwrap();
    assert_eq!(back, Response { ok: true, result: None, error: None });
}

#[test]
fn malformed_replies_are_rejected() {
    for bad in [
        "", "not json", "[1,2]", "42", "{\"result\":1}", "{\"ok\":\"yes\"}",
        "{\"ok\":true,\"error\":7}",
    ] {
        assert!(parse_response(bad).is_none(), "{bad:?} should be rejected");
    }
}

#[test]
fn scenario_get_settings_success() {
    // A helper replying with a settings object: the call returns the value.
    let reply = "{\"ok\":true,\"result\":{\"polisher_mode\":\"none\"}}";
    let resp = parse_response(reply).expect("well-formed reply");
    let out = interpret_response(resp).expect("ok reply yields its result");
    assert_eq!(out, obj(vec![("polisher_mode", JsonValue::Str(s("none")))]));
}

#[test]
fn scenario_get_settings_failure() {
    // A helper reporting a failure: the call fails with its message.
    let reply = "{\"ok\":false,\"error\":\"db locked\"}";
    let resp = parse_response(reply).expect("well-formed reply");
    let err = interpret_response(resp).expect_err("failed reply yields an error");
    assert_eq!(err, BridgeError::HelperReportedError(s("db locked")));
}

#[test]
fn ok_without_result_is_null_success() {
    let resp = parse_response("{\"ok\":true}").unwrap();
    assert_eq!(interpret_response(resp), Ok(JsonValue::Null));
}

#[test]
fn failure_without_message_gets_default() {
    let resp = parse_response("{\"ok\":false}").unwrap();
    assert_eq!(
        interpret_response(resp),
        Err(BridgeError::HelperReportedError(s("Unknown helper error")))
    );
}

#[test]
fn error_messages() {
    assert_eq!(
        BridgeError::HelperNotFound(s("/tmp/x")).describe(),
        "helper executable not found at /tmp/x"
    );
    assert_eq!(
        BridgeError::SpawnFailed(s("permission denied")).describe(),
        "failed to spawn helper: permission denied"
    );
    assert_eq!(
        BridgeError::HelperUnavailable.describe(),
        "helper process not running after restart"
    );
    assert_eq!(BridgeError::TransportError(s("Write error: pipe")).describe(), "Write error: pipe");
    assert_eq!(
        BridgeError::HelperTimeout { command: s("get_context"), elapsed_ms: 10250 }.describe(),
        "helper timeout after 10s (cmd: get_context). Process killed."
    );
    assert_eq!(
        BridgeError::HelperClosed.describe(),
        "helper process closed unexpectedly"
    );
    assert_eq!(
        BridgeError::ProtocolError(s("garbage")).describe(),
        "JSON parse error (raw: garbage)"
    );
    assert_eq!(BridgeError::HelperReportedError(s("boom")).describe(), "boom");
}

#[test]
fn encoded_request_is_valid_to_serde_json() {
    let line = encode_request(Request {
        cmd: s("get_context"),
        args: obj(vec![]),
    });
    let v: serde_json::Value = serde_json::from_str(&line).unwrap();
    assert_eq!(v["cmd"], serde_json::Value::from("get_context"));
    assert!(v["args"].is_object());
}
