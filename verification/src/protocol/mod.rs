//! The protocol between client and server.

pub mod debug;
pub mod error;
pub mod format;
pub mod frame;
pub mod json;
pub mod laws;
pub mod message;
pub mod roundtrip;
pub mod rules;
pub mod validate;
