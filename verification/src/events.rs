//! Domain events and the mappings that produce them: from parsed log
//! records on the game side, and from inbound chat messages on the chat
//! side.

use vstd::prelude::*;
use vstd::string::StringExecFns;
use crate::parser::{LogRecord, LogRecordView, joined_suffix, left_suffix, opt_record_view, spec_parse, parse_log_line};

verus! {

/// One event on the bus: a game occurrence to announce in the chat, a
/// plain chat message to forward to the game console, or a chat command
/// to run on the console with a threaded reply.
#[derive(PartialEq, Eq, Debug)]
pub enum DomainEvent {
    GameMessage { text: String, silent: bool },
    ChatMessage { text: String },
    ChatCommand { reply_target: i32, command_text: String },
}

/// Mathematical model of a `DomainEvent`.
pub enum DomainEventView {
    GameMessage { text: Seq<char>, silent: bool },
    ChatMessage { text: Seq<char> },
    ChatCommand { reply_target: i32, command_text: Seq<char> },
}

impl View for DomainEvent {
    type V = DomainEventView;

    open spec fn view(&self) -> DomainEventView {
        match self {
            DomainEvent::GameMessage { text, silent } => DomainEventView::GameMessage {
                text: text@,
                silent: *silent,
            },
            DomainEvent::ChatMessage { text } => DomainEventView::ChatMessage { text: text@ },
            DomainEvent::ChatCommand { reply_target, command_text } => DomainEventView::ChatCommand {
                reply_target: *reply_target,
                command_text: command_text@,
            },
        }
    }
}

pub open spec fn opt_event_view(r: Option<DomainEvent>) -> Option<DomainEventView> {
    match r {
        Some(e) => Some(e@),
        None => None,
    }
}

// ---------------------------------------------------------------------------
// Game side: log record to event
// ---------------------------------------------------------------------------

/// Announcement text of a player chat line.
pub open spec fn game_chat_text(username: Seq<char>, msg: Seq<char>) -> Seq<char> {
    seq!['💬'] + username + seq![':', ' '] + msg
}

/// Announcement text of a join line.
pub open spec fn game_join_text(username: Seq<char>) -> Seq<char> {
    seq!['😊'] + username + joined_suffix()
}

/// Announcement text of a leave line.
pub open spec fn game_leave_text(username: Seq<char>) -> Seq<char> {
    seq!['👋'] + username + left_suffix()
}

/// What event each log record becomes: chat lines are announced aloud,
/// join and leave lines silently (no notification).
pub open spec fn spec_record_event(r: LogRecordView) -> DomainEventView {
    match r {
        LogRecordView::Chat { username, msg } => DomainEventView::GameMessage {
            text: game_chat_text(username, msg),
            silent: false,
        },
        LogRecordView::Join(username) => DomainEventView::GameMessage {
            text: game_join_text(username),
            silent: true,
        },
        LogRecordView::Leave(username) => DomainEventView::GameMessage {
            text: game_leave_text(username),
            silent: true,
        },
    }
}

/// Turn a parsed log record into the event the watcher emits.
pub fn record_to_event(rec: LogRecord) -> (e: DomainEvent)
    ensures
        e@ == spec_record_event(rec@),
{
    match rec {
        LogRecord::Chat { username, msg } => {
            let mut text = String::from_str("💬");
            text.append(username.as_str());
            text.append(": ");
            text.append(msg.as_str());
            proof {
                reveal_strlit("💬");
                reveal_strlit(": ");
                assert(text@ =~= game_chat_text(username@, msg@));
            }
            DomainEvent::GameMessage { text, silent: false }
        },
        LogRecord::Join(username) => {
            let mut text = String::from_str("😊");
            text.append(username.as_str());
            text.append(" joined");
            proof {
                reveal_strlit("😊");
                reveal_strlit(" joined");
                assert(text@ =~= game_join_text(username@));
            }
            DomainEvent::GameMessage { text, silent: true }
        },
        LogRecord::Leave(username) => {
            let mut text = String::from_str("👋");
            text.append(username.as_str());
            text.append(" left");
            proof {
                reveal_strlit("👋");
                reveal_strlit(" left");
                assert(text@ =~= game_leave_text(username@));
            }
            DomainEvent::GameMessage { text, silent: true }
        },
    }
}

/// What the watcher emits for one log line: the parsed record's event, or
/// nothing when the line is unrecognized or filtered.
pub open spec fn spec_line_event(s: Seq<char>) -> Option<DomainEventView> {
    match spec_parse(s) {
        Some(r) => Some(spec_record_event(r)),
        None => None,
    }
}

/// Parse one log line and map it to the event to put on the bus, if any.
pub fn line_to_event(line: &str) -> (r: Option<DomainEvent>)
    ensures
        opt_event_view(r) == spec_line_event(line@),
{
    match parse_log_line(line) {
        Some(rec) => {
            proof {
                assert(opt_record_view(Some(rec)) == spec_parse(line@));
            }
            Some(record_to_event(rec))
        },
        None => None,
    }
}

// ---------------------------------------------------------------------------
// Chat side: inbound message to event
// ---------------------------------------------------------------------------

/// Text shown for a message that carries no text (a photo or attachment).
pub open spec fn img_marker() -> Seq<char> {
    seq!['[', 'I', 'M', 'G', ']']
}

/// Sender-qualified text: "sender: body".
pub open spec fn sender_text(sender: Seq<char>, body: Seq<char>) -> Seq<char> {
    sender + seq![':', ' '] + body
}

pub open spec fn opt_str_view(o: Option<&str>) -> Option<Seq<char>> {
    match o {
        Some(s) => Some(s@),
        None => None,
    }
}

/// What event an accepted inbound chat message becomes. A message whose
/// sender cannot be resolved is skipped (no event, never a failure). A
/// text starting with the command prefix becomes a command carrying the
/// message id for the threaded reply; any other text is forwarded with
/// the sender's name; a message without text stands for an attachment.
pub open spec fn spec_inbound_event(
    sender: Option<Seq<char>>,
    text: Option<Seq<char>>,
    msg_id: i32,
) -> Option<DomainEventView> {
    match sender {
        None => None,
        Some(name) => Some(
            match text {
                Some(t) => {
                    if t.len() > 0 && t[0] == '/' {
                        DomainEventView::ChatCommand { reply_target: msg_id, command_text: t }
                    } else {
                        DomainEventView::ChatMessage { text: sender_text(name, t) }
                    }
                },
                None => DomainEventView::ChatMessage { text: sender_text(name, img_marker()) },
            },
        ),
    }
}

/// The listener serves exactly one configured chat: a message from any
/// other chat is discarded before classification.
pub fn accepts_chat(configured_chat: i64, incoming_chat: i64) -> (b: bool)
    ensures
        b == (configured_chat == incoming_chat),
{
    configured_chat == incoming_chat
}

/// Classify one inbound chat message into the event the listener emits.
pub fn inbound_event(sender: Option<&str>, text: Option<&str>, msg_id: i32) -> (r: Option<DomainEvent>)
    ensures
        opt_event_view(r) == spec_inbound_event(opt_str_view(sender), opt_str_view(text), msg_id),
{
    match sender {
        None => None,
        Some(name) => match text {
            Some(t) => {
                if t.unicode_len() > 0 && t.get_char(0) == '/' {
                    Some(DomainEvent::ChatCommand { reply_target: msg_id, command_text: t.to_owned() })
                } else {
                    let mut out = name.to_owned();
                    out.append(": ");
                    out.append(t);
                    proof {
                        reveal_strlit(": ");
                        assert(out@ =~= sender_text(name@, t@));
                    }
                    Some(DomainEvent::ChatMessage { text: out })
                }
            },
            None => {
                let mut out = name.to_owned();
                out.append(": [IMG]");
                proof {
                    reveal_strlit(": [IMG]");
                    assert(out@ =~= sender_text(name@, img_marker()));
                }
                Some(DomainEvent::ChatMessage { text: out })
            },
        },
    }
}

} // verus!
