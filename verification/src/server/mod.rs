//! The server: who is connected, what they may do, and what is sent to whom.

pub mod account;
pub mod addr;
pub mod backoff;
pub mod config;
pub mod laws;
pub mod operations;
pub mod peers;
pub mod rate;
pub mod send;
pub mod session;
pub mod table;
pub mod tasks;
