use factorio_bridge::channel::EventChannel;
use factorio_bridge::events::{accepts_chat, inbound_event, line_to_event, DomainEvent};
use factorio_bridge::router::{
    command_followup, dispatch, drain_all, route_all, Action, Reply, SinkError,
};
use factorio_bridge::watcher::watch_line;

fn game(text: &str, silent: bool) -> DomainEvent {
    DomainEvent::GameMessage {
        text: text.to_string(),
        silent,
    }
}

#[test]
fn chat_line_end_to_end() {
    let ev = line_to_event("[CHAT] Foo: bar").unwrap();
    assert_eq!(ev, game("\u{1F4AC}Foo: bar", false));
    assert_eq!(
        dispatch(ev),
        Action::SendChat {
            text: "\u{1F4AC}Foo: bar".to_string(),
            silent: false
        }
    );
}

#[test]
fn join_line_end_to_end() {
    let ev = line_to_event("[JOIN] user joined").unwrap();
    assert_eq!(ev, game("\u{1F60A}user joined", true));
}

#[test]
fn leave_line_end_to_end() {
    let ev = line_to_event("[LEAVE] user left").unwrap();
    assert_eq!(ev, game("\u{1F44B}user left", true));
}

#[test]
fn unrecognized_line_emits_nothing() {
    assert_eq!(line_to_event("nothing to see"), None);
    assert_eq!(line_to_event("[CHAT] <server>: hi"), None);
}

#[test]
fn inbound_command_end_to_end() {
    let ev = inbound_event(Some("Bob"), Some("/give diamond"), 42).unwrap();
    assert_eq!(
        ev,
        DomainEvent::ChatCommand {
            reply_target: 42,
            command_text: "/give diamond".to_string()
        }
    );
    assert_eq!(
        dispatch(ev),
        Action::ExecThenReply {
            reply_to: 42,
            cmd: "/give diamond".to_string()
        }
    );
    // on success the console's response is replied to message 42
    assert_eq!(
        command_followup(42, Ok("gave 1 diamond".to_string())),
        Some(Reply {
            reply_to: 42,
            text: "gave 1 diamond".to_string()
        })
    );
}

#[test]
fn inbound_text_end_to_end() {
    let ev = inbound_event(Some("Alice"), Some("hello"), 7).unwrap();
    assert_eq!(
        ev,
        DomainEvent::ChatMessage {
            text: "Alice: hello".to_string()
        }
    );
    // documented current behavior: free chat text runs as a console command
    assert_eq!(
        dispatch(ev),
        Action::ExecCommand {
            cmd: "Alice: hello".to_string()
        }
    );
}

#[test]
fn inbound_photo_becomes_img_text() {
    assert_eq!(
        inbound_event(Some("Alice"), None, 7),
        Some(DomainEvent::ChatMessage {
            text: "Alice: [IMG]".to_string()
        })
    );
}

#[test]
fn inbound_without_sender_is_skipped() {
    assert_eq!(inbound_event(None, Some("hello"), 7), None);
    assert_eq!(inbound_event(None, None, 7), None);
}

#[test]
fn empty_inbound_text_is_forwarded_with_sender() {
    assert_eq!(
        inbound_event(Some("Alice"), Some(""), 7),
        Some(DomainEvent::ChatMessage {
            text: "Alice: ".to_string()
        })
    );
}

#[test]
fn only_the_configured_chat_is_served() {
    assert!(accepts_chat(-100123, -100123));
    assert!(!accepts_chat(-100123, 7));
}

#[test]
fn failed_command_produces_no_reply() {
    assert_eq!(command_followup(1, Err(SinkError::Connect)), None);
    assert_eq!(command_followup(1, Err(SinkError::Auth)), None);
    assert_eq!(command_followup(1, Err(SinkError::Exec)), None);
    assert_eq!(command_followup(1, Err(SinkError::Send)), None);
}

#[test]
fn route_all_keeps_arrival_order() {
    let events = vec![
        game("one", false),
        DomainEvent::ChatMessage {
            text: "two".to_string(),
        },
        DomainEvent::ChatCommand {
            reply_target: 3,
            command_text: "/three".to_string(),
        },
    ];
    let actions = route_all(events);
    assert_eq!(
        actions,
        vec![
            Action::SendChat {
                text: "one".to_string(),
                silent: false
            },
            Action::ExecCommand {
                cmd: "two".to_string()
            },
            Action::ExecThenReply {
                reply_to: 3,
                cmd: "/three".to_string()
            },
        ]
    );
}

#[test]
fn watched_lines_flow_through_the_bus() {
    let mut ch = EventChannel::new(16);
    assert!(watch_line("[CHAT] Foo: bar", &mut ch));
    assert!(watch_line("not a game event", &mut ch));
    assert!(watch_line("[JOIN] user joined", &mut ch));
    assert_eq!(ch.len(), 2);
    let actions = drain_all(&mut ch);
    assert_eq!(
        actions,
        vec![
            Action::SendChat {
                text: "\u{1F4AC}Foo: bar".to_string(),
                silent: false
            },
            Action::SendChat {
                text: "\u{1F60A}user joined".to_string(),
                silent: true
            },
        ]
    );
}

#[test]
fn full_channel_makes_the_watcher_wait() {
    let mut ch = EventChannel::new(1);
    assert!(watch_line("[CHAT] Foo: one", &mut ch));
    // a recognized line cannot enter a full channel and must be retried
    assert!(!watch_line("[CHAT] Foo: two", &mut ch));
    // an unrecognized line contributes nothing and is done even when full
    assert!(watch_line("noise", &mut ch));
    assert_eq!(ch.len(), 1);
    assert_eq!(
        ch.recv(),
        Some(DomainEvent::GameMessage {
            text: "\u{1F4AC}Foo: one".to_string(),
            silent: false
        })
    );
    assert!(watch_line("[CHAT] Foo: two", &mut ch));
}

#[test]
fn draining_the_bus_dispatches_in_arrival_order() {
    let mut ch = EventChannel::new(16);
    assert!(ch.try_send(game("hello", false)));
    assert!(ch.try_send(DomainEvent::ChatMessage {
        text: "Bob: hi".to_string(),
    }));
    assert!(ch.try_send(DomainEvent::ChatCommand {
        reply_target: 9,
        command_text: "/time".to_string(),
    }));
    let actions = drain_all(&mut ch);
    assert_eq!(
        actions,
        vec![
            Action::SendChat {
                text: "hello".to_string(),
                silent: false
            },
            Action::ExecCommand {
                cmd: "Bob: hi".to_string()
            },
            Action::ExecThenReply {
                reply_to: 9,
                cmd: "/time".to_string()
            },
        ]
    );
    assert_eq!(ch.len(), 0);
    assert_eq!(ch.recv(), None);
}

#[test]
fn channel_is_fifo() {
    let mut ch = EventChannel::new(16);
    assert!(ch.try_send(game("e1", false)));
    assert!(ch.try_send(game("e2", true)));
    assert!(ch.try_send(game("e3", false)));
    assert_eq!(ch.recv(), Some(game("e1", false)));
    assert_eq!(ch.recv(), Some(game("e2", true)));
    assert_eq!(ch.recv(), Some(game("e3", false)));
    assert_eq!(ch.recv(), None);
}

#[test]
fn full_channel_refuses_and_drops_nothing() {
    let mut ch = EventChannel::new(2);
    assert_eq!(ch.capacity(), 2);
    assert!(ch.try_send(game("e1", false)));
    assert!(ch.try_send(game("e2", false)));
    // capacity reached: a further send is refused until a slot drains
    assert!(!ch.try_send(game("e3", false)));
    assert_eq!(ch.len(), 2);
    // the router drains one slot; the producer's retry now succeeds
    assert_eq!(ch.recv(), Some(game("e1", false)));
    assert!(ch.try_send(game("e3", false)));
    // nothing was lost or reordered
    assert_eq!(ch.recv(), Some(game("e2", false)));
    assert_eq!(ch.recv(), Some(game("e3", false)));
    assert_eq!(ch.recv(), None);
}
