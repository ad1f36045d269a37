//! Core of a game-server-to-chat bridge: a log-line parser that turns raw
//! text lines into typed records, the mapping from records and inbound chat
//! messages to domain events, the router that decides which sink each event
//! goes to, and a bounded FIFO channel model for the event bus.

use vstd::prelude::*;

pub mod channel;
pub mod events;
pub mod parser;
pub mod router;
pub mod watcher;

verus! {

/// Process configuration, assembled once at startup and passed by value
/// into the components; no ambient global state.
pub struct Config {
    pub telegram_token: String,
    pub telegram_chat_id: i64,
    pub rcon_host: String,
    pub rcon_password: String,
    pub factorio_log_file: String,
}

} // verus!
