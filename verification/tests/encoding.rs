use tapproxy::encoding::encode_data;
use tapproxy::render::json_escape;

#[test]
fn test_printable_ascii() {
    assert_eq!(encode_data(b"Hello World"), "Hello World");
}

#[test]
fn test_json_escapes() {
    // Returns actual characters, the JSON layer will escape them
    assert_eq!(encode_data(b"Line1\nLine2"), "Line1\nLine2");
    assert_eq!(encode_data(b"\r\n"), "\r\n");
    assert_eq!(encode_data(b"Tab\there"), "Tab\there");
    assert_eq!(encode_data(b"Say \"Hi\""), "Say \"Hi\"");
    assert_eq!(encode_data(b"Path\\to\\file"), "Path\\to\\file");
    assert_eq!(encode_data(b"\x08\x0C"), "\x08\x0C");
}

#[test]
fn test_percent_encoding() {
    assert_eq!(encode_data(b"100%"), "100%25");
    assert_eq!(encode_data(b"50% off\n"), "50%25 off\n");
}

#[test]
fn test_control_chars() {
    assert_eq!(encode_data(b"\x00"), "%00");
    assert_eq!(encode_data(b"\x01\x02"), "%01%02");
    assert_eq!(encode_data(b"\x7F"), "%7F");
}

#[test]
fn test_non_ascii() {
    assert_eq!(encode_data(b"\x89PNG"), "%89PNG");
    assert_eq!(encode_data(b"\xFF\xFE"), "%FF%FE");
    // caf\xC3\xA9 is "café" in UTF-8: the bytes are encoded individually
    assert_eq!(encode_data(b"caf\xC3\xA9"), "caf%C3%A9");
}

#[test]
fn encode_mixed_sequence() {
    assert_eq!(encode_data(b"\x00\x01\x7F"), "%00%01%7F");
}

#[test]
fn encode_is_total_and_percent_stays_wellformed() {
    // Every byte value encodes, and after one further JSON-string escape
    // pass every remaining % starts a %XX triplet of uppercase hex digits.
    let mut all: Vec<u8> = Vec::new();
    for b in 0..=255u8 {
        all.push(b);
    }
    let escaped = json_escape(&encode_data(&all));
    let chars: Vec<char> = escaped.chars().collect();
    let mut i: usize = 0;
    while i < chars.len() {
        if chars[i] == '%' {
            assert!(i + 2 < chars.len());
            for off in 1..=2 {
                let c = chars[i + off];
                assert!(c.is_ascii_digit() || ('A'..='F').contains(&c));
            }
            i += 3;
        } else {
            i += 1;
        }
    }
}

#[test]
fn encode_empty_payload() {
    assert_eq!(encode_data(b""), "");
}
