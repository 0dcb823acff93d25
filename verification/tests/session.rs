use tapproxy::connid::ConnIdGenerator;
use tapproxy::output::OutputWriter;
use tapproxy::session::Direction;
use tapproxy::session::LogEvent;
use tapproxy::session::Session;

const HOUR_MS: u64 = 3_600_000;

#[test]
fn failed_connect_leaves_no_trail() {
    let mut session = Session::start("abcde".to_string(), "127.0.0.1:50000".to_string());
    assert!(!session.finished());
    session.on_connect_failed();
    assert!(session.finished());
}

#[test]
fn session_lifecycle_and_events() {
    let mut session = Session::start("abcde".to_string(), "127.0.0.1:50000".to_string());
    let open = session.on_connect_ok("127.0.0.1:9001".to_string());
    match open {
        LogEvent::Open { conn_id, from, to } => {
            assert_eq!(conn_id, "abcde");
            assert_eq!(from, "127.0.0.1:50000");
            assert_eq!(to, "127.0.0.1:9001");
        },
        _ => panic!("expected an open event"),
    }
    let data = session.on_chunk(Direction::ServerToClient, b"100%");
    match data {
        LogEvent::Data { conn_id, data, from, to } => {
            assert_eq!(conn_id, "abcde");
            assert_eq!(data, "100%25");
            assert_eq!(from, "127.0.0.1:9001");
            assert_eq!(to, "127.0.0.1:50000");
        },
        _ => panic!("expected a data event"),
    }
    let close = session.on_direction_end(Direction::ClientToServer, true);
    match close {
        Some(LogEvent::Close { conn_id, from, to }) => {
            assert_eq!(conn_id, "abcde");
            assert_eq!(from, "127.0.0.1:50000");
            assert_eq!(to, "127.0.0.1:9001");
        },
        _ => panic!("expected a close event"),
    }
    assert!(!session.finished());
    let silent = session.on_direction_end(Direction::ServerToClient, false);
    assert!(silent.is_none());
    assert!(session.finished());
}

#[test]
fn echo_session_log_sequence() {
    // The observable log of an echoed payload: rule 9000 to 9001, the
    // client sends "abc", the echo comes back; after the drain the log
    // holds open, data from the client, data from the server, then the
    // close lines, all under one connection identifier.
    let mut generator = ConnIdGenerator::with_seed(12345);
    let conn_id = generator.next();
    let client = "127.0.0.1:50000".to_string();
    let mut session = Session::start(conn_id.clone(), client.clone());
    let mut writer = OutputWriter::new(HOUR_MS);

    let open = session.on_connect_ok("127.0.0.1:9001".to_string());
    if let LogEvent::Open { conn_id, from, to } = &open {
        writer.log_event(conn_id, "open", from, to);
    }
    let sent = session.on_chunk(Direction::ClientToServer, b"abc");
    if let LogEvent::Data { conn_id, from, to, .. } = &sent {
        writer.log_data(conn_id, b"abc", from, to);
    }
    let echoed = session.on_chunk(Direction::ServerToClient, b"abc");
    if let LogEvent::Data { conn_id, from, to, .. } = &echoed {
        writer.log_data(conn_id, b"abc", from, to);
    }
    if let Some(LogEvent::Close { conn_id, from, to }) =
        session.on_direction_end(Direction::ClientToServer, true)
    {
        writer.log_event(&conn_id, "close", &from, &to);
    }
    if let Some(LogEvent::Close { conn_id, from, to }) =
        session.on_direction_end(Direction::ServerToClient, true)
    {
        writer.log_event(&conn_id, "close", &from, &to);
    }
    assert!(session.finished());

    let content = writer.flush_all().unwrap();
    let lines: Vec<&str> = content.lines().collect();
    assert_eq!(lines.len(), 5);
    for line in &lines {
        let value: serde_json::Value = serde_json::from_str(line).unwrap();
        assert_eq!(
            value.get("ConnID").unwrap().as_str().unwrap(),
            conn_id.as_str()
        );
    }
    let first: serde_json::Value = serde_json::from_str(lines[0]).unwrap();
    assert_eq!(first.get("event").unwrap().as_str().unwrap(), "open");
    let second: serde_json::Value = serde_json::from_str(lines[1]).unwrap();
    assert_eq!(second.get("data").unwrap().as_str().unwrap(), "abc");
    assert_eq!(second.get("from").unwrap().as_str().unwrap(), "127.0.0.1:50000");
    let third: serde_json::Value = serde_json::from_str(lines[2]).unwrap();
    assert_eq!(third.get("data").unwrap().as_str().unwrap(), "abc");
    assert_eq!(third.get("from").unwrap().as_str().unwrap(), "127.0.0.1:9001");
    let fourth: serde_json::Value = serde_json::from_str(lines[3]).unwrap();
    assert_eq!(fourth.get("event").unwrap().as_str().unwrap(), "close");
    assert_eq!(fourth.get("from").unwrap().as_str().unwrap(), "127.0.0.1:50000");
    let fifth: serde_json::Value = serde_json::from_str(lines[4]).unwrap();
    assert_eq!(fifth.get("event").unwrap().as_str().unwrap(), "close");
    assert_eq!(fifth.get("from").unwrap().as_str().unwrap(), "127.0.0.1:9001");
}
