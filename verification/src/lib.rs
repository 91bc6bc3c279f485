//! A WebSocket chat: its protocol, its server and its client.

pub mod client;
pub mod list;
pub mod protocol;
pub mod server;
pub mod text;
