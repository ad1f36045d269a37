use factorio_bridge::parser::{parse_log_line, LogRecord};

#[test]
fn test_parse_log_line() {
    assert_eq!(
        parse_log_line("[CHAT] Foo: bar"),
        Some(LogRecord::Chat {
            username: "Foo".to_string(),
            msg: "bar".to_string()
        })
    );
    assert_eq!(
        parse_log_line("[JOIN] user joined"),
        Some(LogRecord::Join("user".to_string()))
    );
    assert_eq!(
        parse_log_line("[LEAVE] user left"),
        Some(LogRecord::Leave("user".to_string()))
    );
    assert_eq!(parse_log_line("[CHAT] <server>: hi"), None);
}

#[test]
fn chat_line_with_timestamp_prefix() {
    assert_eq!(
        parse_log_line("2024-01-01 12:00:00 [CHAT] Foo_9: hello there"),
        Some(LogRecord::Chat {
            username: "Foo_9".to_string(),
            msg: "hello there".to_string()
        })
    );
}

#[test]
fn chat_message_may_contain_more_colons() {
    assert_eq!(
        parse_log_line("[CHAT] Foo: a: b: c"),
        Some(LogRecord::Chat {
            username: "Foo".to_string(),
            msg: "a: b: c".to_string()
        })
    );
}

#[test]
fn no_marker_yields_nothing() {
    assert_eq!(parse_log_line(""), None);
    assert_eq!(parse_log_line("plain text line"), None);
    assert_eq!(parse_log_line("2024-01-01 server started"), None);
}

#[test]
fn marker_with_malformed_payload_yields_nothing() {
    assert_eq!(parse_log_line("x[CHAT]y"), None);
    assert_eq!(parse_log_line("[CHAT] Foo:"), None);
    assert_eq!(parse_log_line("[CHAT] : hi"), None);
    assert_eq!(parse_log_line("[JOIN] us er joined"), None);
    assert_eq!(parse_log_line("[JOIN] joined"), None);
    assert_eq!(parse_log_line("[LEAVE] user lef"), None);
}

#[test]
fn chat_marker_takes_precedence_over_join() {
    // a chat marker anywhere selects the chat pattern, even malformed
    assert_eq!(parse_log_line("[CHAT] [JOIN] user joined"), None);
    // the leftmost chat match is the one captured
    assert_eq!(
        parse_log_line("x[CHAT]y [CHAT] Foo: bar"),
        Some(LogRecord::Chat {
            username: "Foo".to_string(),
            msg: "bar".to_string()
        })
    );
}

#[test]
fn leftmost_server_chat_is_filtered() {
    assert_eq!(parse_log_line("[CHAT] <server>: [CHAT] Foo: bar"), None);
}

#[test]
fn join_and_leave_capture_exact_user() {
    assert_eq!(
        parse_log_line("ts [JOIN] A_b9 joined the game"),
        Some(LogRecord::Join("A_b9".to_string()))
    );
    assert_eq!(
        parse_log_line("ts [LEAVE] A_b9 left the game"),
        Some(LogRecord::Leave("A_b9".to_string()))
    );
}
