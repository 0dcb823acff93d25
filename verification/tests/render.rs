use tapproxy::render::format_addr;
use tapproxy::render::json_escape;
use tapproxy::render::render_data_line;
use tapproxy::render::render_event_line;
use tapproxy::render::u16_string;

#[test]
fn escape_passthrough_and_shorthands() {
    assert_eq!(json_escape("plain text"), "plain text");
    assert_eq!(json_escape("a\"b"), "a\\\"b");
    assert_eq!(json_escape("a\\b"), "a\\\\b");
    assert_eq!(json_escape("\n\r\t"), "\\n\\r\\t");
    assert_eq!(json_escape("\x08\x0C"), "\\b\\f");
    assert_eq!(json_escape("\x01\x1F"), "\\u0001\\u001f");
    assert_eq!(json_escape("caf\u{e9}"), "caf\u{e9}");
    assert_eq!(json_escape(""), "");
}

#[test]
fn u16_rendering() {
    assert_eq!(u16_string(0), "0");
    assert_eq!(u16_string(7), "7");
    assert_eq!(u16_string(80), "80");
    assert_eq!(u16_string(65535), "65535");
}

#[test]
fn addr_rendering() {
    assert_eq!(format_addr("127.0.0.1", 9000, false), "127.0.0.1:9000");
    assert_eq!(format_addr("::1", 9001, true), "[::1]:9001");
}

#[test]
fn event_line_exact() {
    let line = render_event_line(
        "2024-01-02T03:04:05.000006Z",
        "abc12",
        "open",
        "127.0.0.1:50000",
        "127.0.0.1:9001",
    );
    assert_eq!(
        line,
        "{\"time\":\"2024-01-02T03:04:05.000006Z\",\"ConnID\":\"abc12\",\"event\":\"open\",\"from\":\"127.0.0.1:50000\",\"to\":\"127.0.0.1:9001\"}"
    );
}

#[test]
fn data_line_exact() {
    let line = render_data_line(
        "2024-01-02T03:04:05.000006Z",
        "abc12",
        b"100% \"x\"\n\x00",
        "1.2.3.4:5",
        "6.7.8.9:10",
    );
    assert_eq!(
        line,
        "{\"time\":\"2024-01-02T03:04:05.000006Z\",\"ConnID\":\"abc12\",\"data\":\"100%25 \\\"x\\\"\\n%00\",\"from\":\"1.2.3.4:5\",\"to\":\"6.7.8.9:10\"}"
    );
}

#[test]
fn rendered_lines_are_valid_json() {
    let line = render_data_line("t", "id000", b"\x00\x01%\"\\\n\xFFabc", "a:1", "b:2");
    let value: serde_json::Value = serde_json::from_str(&line).unwrap();
    assert_eq!(value.get("ConnID").unwrap().as_str().unwrap(), "id000");
    assert_eq!(
        value.get("data").unwrap().as_str().unwrap(),
        "%00%01%25\"\\\n%FFabc"
    );
    assert_eq!(value.get("from").unwrap().as_str().unwrap(), "a:1");
    assert_eq!(value.get("to").unwrap().as_str().unwrap(), "b:2");
    let keys: Vec<&String> = value.as_object().unwrap().keys().collect();
    assert_eq!(keys.len(), 5);
}
