use swiftscope::device::{
    base_args, debugserver_command_args, extract_app_binary, extract_process_identifier,
    install_command_args, launch_command_args, log_stream_args, session_state_record,
    temp_json_name,
};
use swiftscope::json::JsonValue;
use swiftscope::session::program_from_config;
use swiftscope::text::{i64_to_dec, str_eq, tag_line, trim_str, u16_to_dec, u64_to_dec};

fn obj(entries: Vec<(&str, JsonValue)>) -> JsonValue {
    JsonValue::Object(
        entries
            .into_iter()
            .map(|(k, v)| (String::from(k), v))
            .collect(),
    )
}

fn text(s: &str) -> JsonValue {
    JsonValue::Text(String::from(s))
}

#[test]
fn finds_pid_in_nested_json() {
    let value = obj(vec![
        ("status", text("success")),
        ("result", obj(vec![("processIdentifier", JsonValue::Int(4242))])),
    ]);
    assert_eq!(extract_process_identifier(&value), Some(4242));
}

#[test]
fn fallback_to_pid_key() {
    let value = obj(vec![("pid", JsonValue::Int(1337))]);
    assert_eq!(extract_process_identifier(&value), Some(1337));
}

#[test]
fn extracts_app_binary_from_json() {
    let value = obj(vec![
        ("status", text("ok")),
        ("result", obj(vec![("app_binary", text("/tmp/MyApp.app/MyApp"))])),
    ]);
    let path = extract_app_binary(&value).expect("missing app_binary");
    assert!(path.ends_with("MyApp"), "unexpected path: {:?}", path);
}

#[test]
fn app_binary_prefers_earlier_keys_and_trims() {
    let value = obj(vec![
        ("program", text("/fallback")),
        ("executablePath", text("  /primary  ")),
    ]);
    assert_eq!(extract_app_binary(&value).as_deref(), Some("/primary"));
    assert_eq!(extract_app_binary(&JsonValue::Int(3)), None);
}

#[test]
fn find_i64_prefers_direct_member() {
    let value = obj(vec![
        ("inner", obj(vec![("pid", JsonValue::Int(1))])),
        ("pid", JsonValue::Int(2)),
    ]);
    assert_eq!(value.find_i64("pid"), Some(2));
    let value = JsonValue::Array(vec![
        JsonValue::Null,
        obj(vec![("pid", JsonValue::Int(9))]),
    ]);
    assert_eq!(value.find_i64("pid"), Some(9));
    assert_eq!(value.find_i64("other"), None);
}

#[test]
fn json_accessors_read_plain_values() {
    let value = obj(vec![("a", text("x")), ("b", JsonValue::Int(7))]);
    assert_eq!(value.get("a").and_then(|v| v.as_str().cloned()).as_deref(), Some("x"));
    assert_eq!(value.get("b").and_then(|v| v.as_i64()), Some(7));
    assert!(value.get("c").is_none());
    assert_eq!(JsonValue::BigNum.as_i64(), None);
}

#[test]
fn program_from_config_reads_program_member() {
    let config = obj(vec![("program", text("/opt/app/Binary"))]);
    assert_eq!(program_from_config(&config).as_deref(), Some("/opt/app/Binary"));
    let config = obj(vec![("program", JsonValue::Int(3))]);
    assert_eq!(program_from_config(&config), None);
}

#[test]
fn trim_removes_unicode_whitespace() {
    assert_eq!(trim_str("  hello\tworld \n"), "hello\tworld");
    assert_eq!(trim_str("\u{a0}\u{2003}x\u{2028}"), "x");
    assert_eq!(trim_str("   "), "");
    assert_eq!(trim_str(""), "");
    assert_eq!(trim_str("plain"), "plain");
}

#[test]
fn string_equality_is_character_exact() {
    assert!(str_eq("abc", "abc"));
    assert!(!str_eq("abc", "abd"));
    assert!(!str_eq("abc", "ab"));
    assert!(str_eq("", ""));
}

#[test]
fn decimal_rendering_matches_expected_values() {
    assert_eq!(u64_to_dec(0), "0");
    assert_eq!(u64_to_dec(12345), "12345");
    assert_eq!(u64_to_dec(u64::MAX), "18446744073709551615");
    assert_eq!(u16_to_dec(2331), "2331");
    assert_eq!(i64_to_dec(-42), "-42");
    assert_eq!(i64_to_dec(7), "7");
    assert_eq!(i64_to_dec(i64::MIN), "-9223372036854775808");
}

#[test]
fn tag_line_brackets_the_tag() {
    assert_eq!(tag_line("bridge", "hello"), "[bridge] hello");
    assert_eq!(tag_line("log-err", ""), "[log-err] ");
}

#[test]
fn devicectl_argument_vectors() {
    assert_eq!(base_args(""), Vec::<String>::new());
    assert_eq!(base_args("devicectl"), vec![String::from("devicectl")]);
    assert_eq!(
        install_command_args("devicectl", "UDID-1", "/tmp/My.app"),
        vec![
            String::from("devicectl"),
            String::from("device"),
            String::from("install"),
            String::from("--device"),
            String::from("UDID-1"),
            String::from("/tmp/My.app"),
        ]
    );
    assert_eq!(
        launch_command_args(
            "devicectl",
            "UDID-1",
            &vec![String::from("--extra")],
            "/tmp/out.json",
            "com.example.App",
        ),
        vec![
            String::from("devicectl"),
            String::from("device"),
            String::from("process"),
            String::from("launch"),
            String::from("--device"),
            String::from("UDID-1"),
            String::from("--start-stopped"),
            String::from("--terminate-existing"),
            String::from("--extra"),
            String::from("-j"),
            String::from("/tmp/out.json"),
            String::from("com.example.App"),
        ]
    );
    assert_eq!(
        debugserver_command_args(
            "devicectl",
            "UDID-1",
            "/Developer/usr/libexec/debugserver",
            4242,
        ),
        vec![
            String::from("devicectl"),
            String::from("device"),
            String::from("process"),
            String::from("launch"),
            String::from("--device"),
            String::from("UDID-1"),
            String::from("--console"),
            String::from("/Developer/usr/libexec/debugserver"),
            String::from("stdio"),
            String::from("--attach=4242"),
        ]
    );
    assert_eq!(
        log_stream_args("devicectl", "UDID-1"),
        vec![
            String::from("devicectl"),
            String::from("device"),
            String::from("log"),
            String::from("stream"),
            String::from("--device"),
            String::from("UDID-1"),
        ]
    );
}

#[test]
fn session_state_record_carries_launch_metadata() {
    let record = session_state_record(
        "UDID-1",
        "com.example.App",
        2331,
        Some(String::from("/tmp/MyApp.app/MyApp")),
    );
    assert_eq!(
        record.get("device").and_then(|v| v.as_str().cloned()).as_deref(),
        Some("UDID-1")
    );
    assert_eq!(
        record.get("bundle_id").and_then(|v| v.as_str().cloned()).as_deref(),
        Some("com.example.App")
    );
    assert_eq!(record.get("listen_port").and_then(|v| v.as_i64()), Some(2331));
    assert_eq!(
        record.get("app_binary").and_then(|v| v.as_str().cloned()).as_deref(),
        Some("/tmp/MyApp.app/MyApp")
    );
    let record = session_state_record("UDID-1", "com.example.App", 2331, None);
    assert!(matches!(record.get("app_binary"), Some(JsonValue::Null)));
}

#[test]
fn temp_json_name_is_deterministic() {
    assert_eq!(temp_json_name("launch", 1700000000123), "ios_llm_launch_1700000000123.json");
}
