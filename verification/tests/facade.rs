use echotype_core::json::JsonValue;
use echotype_core::decode::parse_json_text;
use echotype_core::commands::{app_context_from_json, history_list_from_json,
    audio_devices_from_json, dictionary_from_json, extract_recording, polisher_mode_of,
    mic_status_from, shape_start_recording, shape_request_microphone, polished_text_for,
    autostart_change, request_with_no_args, request_get_history, request_set_setting,
    request_inject_text, request_set_dictionary, request_save_history, AppContext};
use echotype_core::protocol::encode_request;
use echotype_core::permissions::preferences_url;
use echotype_core::logger::{LogLevel, should_log, level_from_name};
use echotype_core::errors::BridgeError;
use echotype_core::util::u64_to_dec;

fn s(t: &str) -> String {
    String::from(t)
}

fn parse(t: &str) -> JsonValue {
    parse_json_text(t).expect("test input must be valid")
}

#[test]
fn app_context_reads_optionals() {
    let v = parse("{\"app_name\":\"Mail\",\"web_url\":null,\"window_title\":\"Inbox\"}");
    let c = app_context_from_json(&v).unwrap();
    assert_eq!(c.app_name, Some(s("Mail")));
    assert_eq!(c.window_title, Some(s("Inbox")));
    assert_eq!(c.web_url, None);
    assert_eq!(c.bundle_id, None);
}

#[test]
fn app_context_rejects_wrong_types() {
    assert!(app_context_from_json(&parse("{\"app_name\":3}")).is_none());
    assert!(app_context_from_json(&parse("[1]")).is_none());
}

#[test]
fn history_list_reads_entries() {
    let v = parse(
        "[{\"id\":\"1\",\"transcript\":\"hi\",\"asr_engine\":\"whisper\",\
         \"created_at\":\"2024-01-01\",\"app_name\":\"Mail\"}]",
    );
    let l = history_list_from_json(&v).unwrap();
    assert_eq!(l.len(), 1);
    assert_eq!(l[0].id, "1");
    assert_eq!(l[0].transcript, "hi");
    assert_eq!(l[0].app_name, Some(s("Mail")));
    assert_eq!(l[0].polished_text, None);
}

#[test]
fn history_list_rejects_missing_required_field() {
    let v = parse("[{\"id\":\"1\",\"transcript\":\"hi\",\"asr_engine\":\"whisper\"}]");
    assert!(history_list_from_json(&v).is_none(), "created_at is required");
}

#[test]
fn audio_devices_read() {
    let v = parse(
        "[{\"id\":\"d1\",\"name\":\"Mic\",\"is_default\":true},\
          {\"id\":\"d2\",\"name\":\"Other\",\"is_default\":false}]",
    );
    let l = audio_devices_from_json(&v).unwrap();
    assert_eq!(l.len(), 2);
    assert!(l[0].is_default);
    assert_eq!(l[1].name, "Other");
    assert!(audio_devices_from_json(&parse("[{\"id\":\"d\"}]")).is_none());
}

#[test]
fn dictionary_reads_words() {
    let l = dictionary_from_json(&parse("[\"alpha\",\"beta\"]")).unwrap();
    assert_eq!(l, vec![s("alpha"), s("beta")]);
    assert!(dictionary_from_json(&parse("[\"a\",3]")).is_none());
}

#[test]
fn recording_fields_extracted() {
    let v = parse("{\"transcript\":\"hello\",\"duration\":2.5,\"asr_engine\":\"whisper\"}");
    let (t, d, e) = extract_recording(&v).unwrap();
    assert_eq!(t, "hello");
    assert_eq!(d, "2.5");
    assert_eq!(e, "whisper");
}

#[test]
fn recording_fields_each_missing_is_an_error() {
    assert_eq!(
        extract_recording(&parse("{}")),
        Err(s("Missing transcript field"))
    );
    assert_eq!(
        extract_recording(&parse("{\"transcript\":\"x\"}")),
        Err(s("Missing duration field"))
    );
    assert_eq!(
        extract_recording(&parse("{\"transcript\":\"x\",\"duration\":1}")),
        Err(s("Missing asr_engine field"))
    );
    assert_eq!(
        extract_recording(&parse("{\"transcript\":7,\"duration\":1,\"asr_engine\":\"w\"}")),
        Err(s("Missing transcript field")),
        "a mistyped field counts as missing"
    );
}

#[test]
fn polisher_mode_defaults_to_none() {
    assert_eq!(polisher_mode_of(&parse("{\"polisher_mode\":\"local\"}")), "local");
    assert_eq!(polisher_mode_of(&parse("{}")), "none");
    assert_eq!(polisher_mode_of(&parse("{\"polisher_mode\":3}")), "none");
    assert_eq!(polisher_mode_of(&parse("null")), "none");
}

#[test]
fn polished_text_passes_through() {
    assert_eq!(polished_text_for(&s("local"), &s("hello")), "hello");
    assert_eq!(polished_text_for(&s("none"), &s("hello")), "hello");
}

#[test]
fn mic_status_shapes() {
    assert_eq!(mic_status_from(&Ok(JsonValue::Str(s("authorized")))), "authorized");
    assert_eq!(mic_status_from(&Ok(JsonValue::Null)), "unknown");
    assert_eq!(mic_status_from(&Err(BridgeError::HelperClosed)), "error");
}

#[test]
fn reply_shapes() {
    assert_eq!(shape_start_recording(&JsonValue::Str(s("started"))), "started");
    assert_eq!(shape_start_recording(&JsonValue::Null), "ok");
    assert_eq!(shape_request_microphone(&JsonValue::Str(s("authorized"))), "authorized");
    assert_eq!(shape_request_microphone(&JsonValue::Bool(true)), "denied");
}

#[test]
fn autostart_only_for_launch_at_login() {
    assert_eq!(autostart_change("launchAtLogin", "true"), Some(true));
    assert_eq!(autostart_change("launchAtLogin", "false"), Some(false));
    assert_eq!(autostart_change("launchAtLogin", "TRUE"), Some(false));
    assert_eq!(autostart_change("polisher_mode", "true"), None);
}

#[test]
fn request_builders() {
    let r = request_with_no_args("get_context");
    assert_eq!(encode_request(r), "{\"cmd\":\"get_context\",\"args\":{}}\n");

    let r = request_get_history(None);
    assert_eq!(encode_request(r), "{\"cmd\":\"get_history\",\"args\":{\"limit\":50}}\n");
    let r = request_get_history(Some(7));
    assert_eq!(encode_request(r), "{\"cmd\":\"get_history\",\"args\":{\"limit\":7}}\n");

    let r = request_set_setting(s("polisher_mode"), s("none"));
    assert_eq!(
        encode_request(r),
        "{\"cmd\":\"set_setting\",\"args\":{\"key\":\"polisher_mode\",\"value\":\"none\"}}\n"
    );

    let r = request_inject_text(s("hi there"));
    assert_eq!(encode_request(r), "{\"cmd\":\"inject_text\",\"args\":{\"text\":\"hi there\"}}\n");

    let r = request_set_dictionary(vec![s("alpha"), s("beta")]);
    assert_eq!(
        encode_request(r),
        "{\"cmd\":\"set_dictionary\",\"args\":{\"words\":[\"alpha\",\"beta\"]}}\n"
    );
}

#[test]
fn save_history_request_shape() {
    let ctx = AppContext {
        app_name: Some(s("Mail")),
        bundle_id: None,
        window_title: Some(s("Inbox")),
        web_url: None,
        web_domain: None,
        web_title: None,
        context_before: None,
        context_after: None,
        selected_text: None,
    };
    let r = request_save_history(&s("hi"), &s("hi"), &Some(ctx), &s("whisper"), &s("2.5"));
    assert_eq!(
        encode_request(r),
        "{\"cmd\":\"save_history\",\"args\":{\"transcript\":\"hi\",\"polished_text\":\"hi\",\
         \"app_name\":\"Mail\",\"window_title\":\"Inbox\",\"web_url\":null,\"web_domain\":null,\
         \"web_title\":null,\"asr_engine\":\"whisper\",\"duration\":2.5}}\n"
    );
    let r = request_save_history(&s("hi"), &s("hi"), &None, &s("whisper"), &s("2.5"));
    assert!(encode_request(r).contains("\"app_name\":null"));
}

#[test]
fn preference_panes() {
    assert_eq!(
        preferences_url("microphone").unwrap(),
        "x-apple.systempreferences:com.apple.preference.security?Privacy_Microphone"
    );
    assert_eq!(
        preferences_url("accessibility").unwrap(),
        "x-apple.systempreferences:com.apple.preference.security?Privacy_Accessibility"
    );
    assert_eq!(
        preferences_url("input_monitoring").unwrap(),
        "x-apple.systempreferences:com.apple.preference.security?Privacy_ListenEvent"
    );
    assert_eq!(preferences_url("camera"), Err(s("Unknown pane: camera")));
}

#[test]
fn log_levels() {
    assert!(should_log(LogLevel::Error, LogLevel::Info));
    assert!(should_log(LogLevel::Info, LogLevel::Info));
    assert!(!should_log(LogLevel::Debug, LogLevel::Info));
    assert!(should_log(LogLevel::Debug, LogLevel::Debug));
    assert!(!should_log(LogLevel::Warn, LogLevel::Error));
}

#[test]
fn level_names() {
    assert_eq!(level_from_name("debug"), Some(LogLevel::Debug));
    assert_eq!(level_from_name("INFO"), Some(LogLevel::Info));
    assert_eq!(level_from_name("Warn"), Some(LogLevel::Warn));
    assert_eq!(level_from_name("WARNING"), Some(LogLevel::Warn));
    assert_eq!(level_from_name("error"), Some(LogLevel::Error));
    assert_eq!(level_from_name("loud"), None);
    assert_eq!(level_from_name(""), None);
}

#[test]
fn decimal_text() {
    assert_eq!(u64_to_dec(0), "0");
    assert_eq!(u64_to_dec(7), "7");
    assert_eq!(u64_to_dec(105), "105");
    assert_eq!(u64_to_dec(u64::MAX), "18446744073709551615");
}
