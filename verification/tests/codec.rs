use echotype_core::json::{JsonValue, json_to_text};
use echotype_core::decode::parse_json_text;

fn s(t: &str) -> String {
    String::from(t)
}

fn obj(members: Vec<(&str, JsonValue)>) -> JsonValue {
    JsonValue::Obj(members.into_iter().map(|(k, v)| (s(k), v)).collect())
}

fn roundtrip(v: JsonValue) {
    let text = json_to_text(&v);
    let back = parse_json_text(&text).expect("canonical text must parse");
    assert_eq!(back, v);
}

#[test]
fn roundtrip_scalars() {
    roundtrip(JsonValue::Null);
    roundtrip(JsonValue::Bool(true));
    roundtrip(JsonValue::Bool(false));
    roundtrip(JsonValue::Num(s("0")));
    roundtrip(JsonValue::Num(s("-12")));
    roundtrip(JsonValue::Num(s("3.25")));
    roundtrip(JsonValue::Num(s("6.02e23")));
    roundtrip(JsonValue::Num(s("-1.5E-8")));
    roundtrip(JsonValue::Str(s("")));
    roundtrip(JsonValue::Str(s("hello world")));
}

#[test]
fn roundtrip_escapes() {
    roundtrip(JsonValue::Str(s("a\"b\\c/d")));
    roundtrip(JsonValue::Str(s("line1\nline2\r\ttabbed")));
    roundtrip(JsonValue::Str(s("\u{1}\u{2}\u{1f}")));
    roundtrip(JsonValue::Str(s("中文與 emoji 🎤")));
}

#[test]
fn roundtrip_nested() {
    roundtrip(obj(vec![
        ("cmd", JsonValue::Str(s("get_settings"))),
        (
            "args",
            obj(vec![
                ("limit", JsonValue::Num(s("50"))),
                ("flags", JsonValue::Arr(vec![JsonValue::Bool(true), JsonValue::Null])),
                ("nested", obj(vec![("deep", JsonValue::Arr(vec![obj(vec![])]))])),
            ]),
        ),
    ]));
    roundtrip(JsonValue::Arr(vec![]));
    roundtrip(obj(vec![]));
}

#[test]
fn encoder_canonical_text() {
    let v = obj(vec![
        ("ok", JsonValue::Bool(true)),
        ("result", obj(vec![("polisher_mode", JsonValue::Str(s("none")))])),
    ]);
    assert_eq!(json_to_text(&v), "{\"ok\":true,\"result\":{\"polisher_mode\":\"none\"}}");
    assert_eq!(
        json_to_text(&JsonValue::Str(s("a\"b\\\n\u{1f}"))),
        "\"a\\\"b\\\\\\n\\u001f\""
    );
}

#[test]
fn parser_accepts_whitespace() {
    let v = parse_json_text(" {\n\t\"ok\" : true , \"result\" : [ 1 , 2 ] }\r\n").unwrap();
    assert_eq!(
        v,
        obj(vec![
            ("ok", JsonValue::Bool(true)),
            ("result", JsonValue::Arr(vec![JsonValue::Num(s("1")), JsonValue::Num(s("2"))])),
        ])
    );
}

#[test]
fn parser_rejects_malformed() {
    for bad in [
        "", "nul", "tru", "{", "[", "{\"a\":}", "{\"a\" 1}", "[1,]", "{,}", "\"unterminated",
        "01", "--2", "1.", "1e", "+5", "\"bad \\x escape\"", "{\"a\":1}trailing", "[1 2]",
        "{\"a\":1,,\"b\":2}",
    ] {
        assert!(parse_json_text(bad).is_none(), "{bad:?} should be rejected");
    }
}

#[test]
fn parser_keeps_number_text() {
    let v = parse_json_text("[1.50, 2e+4, -0.0]").unwrap();
    assert_eq!(
        v,
        JsonValue::Arr(vec![
            JsonValue::Num(s("1.50")),
            JsonValue::Num(s("2e+4")),
            JsonValue::Num(s("-0.0")),
        ])
    );
}

#[test]
fn duplicate_keys_take_first() {
    let v = parse_json_text("{\"a\":1,\"a\":2}").unwrap();
    match &v {
        JsonValue::Obj(ms) => assert_eq!(ms.len(), 2),
        _ => panic!("expected an object"),
    }
    // The protocol reads the first binding; both survive re-encoding.
    assert_eq!(json_to_text(&v), "{\"a\":1,\"a\":2}");
}

#[test]
fn cross_check_with_serde_json() {
    // Our canonical text is valid JSON to serde_json, with the same content.
    let mine = obj(vec![
        ("text", JsonValue::Str(s("line1\nline2 \"quoted\" 中文"))),
        ("n", JsonValue::Num(s("-3.5e2"))),
        ("list", JsonValue::Arr(vec![JsonValue::Null, JsonValue::Bool(false)])),
    ]);
    let text = json_to_text(&mine);
    let parsed: serde_json::Value = serde_json::from_str(&text).expect("serde_json parses it");
    assert_eq!(parsed["text"], serde_json::Value::from("line1\nline2 \"quoted\" 中文"));
    assert_eq!(parsed["n"], serde_json::Value::from(-3.5e2));
    assert_eq!(parsed["list"].as_array().unwrap().len(), 2);

    // And what serde_json emits, our parser reads back with the same shape.
    let theirs = serde_json::to_string(&parsed).unwrap();
    let back = parse_json_text(&theirs).expect("serde_json output parses");
    match &back {
        JsonValue::Obj(ms) => assert_eq!(ms.len(), 3),
        _ => panic!("expected an object"),
    }
}

#[test]
fn unicode_escapes() {
    assert_eq!(parse_json_text("\"\\u0041\\u00e9\"").unwrap(), JsonValue::Str(s("A\u{e9}")));
    // Upper-case hex digits are fine.
    assert_eq!(parse_json_text("\"\\u004A\"").unwrap(), JsonValue::Str(s("J")));
    // A supplementary character arrives as a surrogate pair.
    assert_eq!(parse_json_text("\"\\ud83d\\ude00\"").unwrap(), JsonValue::Str(s("\u{1f600}")));
    // What our parser reads matches what serde_json reads.
    let v: serde_json::Value = serde_json::from_str("\"\\ud83d\\ude00\"").unwrap();
    assert_eq!(v.as_str().unwrap(), "\u{1f600}");
}

#[test]
fn ill_formed_unicode_escapes_are_rejected() {
    // A lone surrogate unit, a truncated pair, a pair in the wrong
    // order, and a short escape are all malformed.
    for bad in ["\"\\ud800\"", "\"\\ud83d x\"", "\"\\udc00\\ud800\"", "\"\\u12\""] {
        assert!(parse_json_text(bad).is_none(), "{bad:?} should be rejected");
    }
}
