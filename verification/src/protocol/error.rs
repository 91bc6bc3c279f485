//! The reasons for which the protocol refuses a message.

use vstd::prelude::*;
use vstd::string::*;

use super::message::{
    MAX_CHAT_MESSAGE_LEN, MAX_HISTORY_ENTRIES, MAX_NEW_LOGIN_LEN, MAX_NEW_ROOM_LEN,
    MAX_PASSWORD_LEN, MAX_PAYLOAD_LEN, MIN_LOGIN_LEN, MIN_PASSWORD_LEN,
};
use crate::text::{decimal, u64_text};

verus! {

/// Why a value does not fit the protocol.
#[derive(Clone, Copy, Debug, PartialEq, Eq)]
pub enum ProtocolError {
    LoginTooShort,
    LoginTooLong,
    LoginCharacters,
    LoginReserved,
    RoomEmpty,
    RoomTooLong,
    RoomCharacters,
    MessageEmpty,
    MessageTooLong,
    PasswordTooShort,
    PasswordEmpty,
    PasswordTooLong,
    PasswordNul,
    /// The named field holds nothing but white space.
    FieldEmpty { field: &'static str },
    /// The named field is longer than `max_len` bytes.
    FieldTooLong { field: &'static str, max_len: usize },
    /// The named field holds a control character.
    FieldControl { field: &'static str },
    RoomListTooLong,
    RoomHistoryTooLong,
    PayloadTooLong,
    CloseFrame,
    BinaryFrame,
    PingFrame,
    PongFrame,
    RawFrame,
}

impl ProtocolError {
    /// The error as a sentence that can be shown to a user.
    pub open spec fn text(self) -> Seq<char> {
        match self {
            ProtocolError::LoginTooShort => "Login too short (minimum "@ + decimal(
                MIN_LOGIN_LEN as nat,
            ) + " bytes)"@,
            ProtocolError::LoginTooLong => "Login too long (maximum "@ + decimal(
                MAX_NEW_LOGIN_LEN as nat,
            ) + " bytes)"@,
            ProtocolError::LoginCharacters =>
                "Login can only contain ASCII letters, numbers, and underscores"@,
            ProtocolError::LoginReserved => "Login uses a reserved server or system name"@,
            ProtocolError::RoomEmpty => "Room name cannot be empty"@,
            ProtocolError::RoomTooLong => "Room name too long (maximum "@ + decimal(
                MAX_NEW_ROOM_LEN as nat,
            ) + " bytes)"@,
            ProtocolError::RoomCharacters =>
                "Room name can only contain ASCII letters, numbers, underscores, and hyphens"@,
            ProtocolError::MessageEmpty => "Message cannot be empty"@,
            ProtocolError::MessageTooLong => "Message too long (maximum "@ + decimal(
                MAX_CHAT_MESSAGE_LEN as nat,
            ) + " bytes)"@,
            ProtocolError::PasswordTooShort => "Password too short (minimum "@ + decimal(
                MIN_PASSWORD_LEN as nat,
            ) + " bytes)"@,
            ProtocolError::PasswordEmpty => "Password cannot be empty"@,
            ProtocolError::PasswordTooLong => "Password too long (maximum "@ + decimal(
                MAX_PASSWORD_LEN as nat,
            ) + " bytes)"@,
            ProtocolError::PasswordNul => "Password cannot contain NUL bytes"@,
            ProtocolError::FieldEmpty { field } => field@ + " must not be empty"@,
            ProtocolError::FieldTooLong { field, max_len } => field@ + " exceeds "@ + decimal(
                max_len as nat,
            ) + " bytes"@,
            ProtocolError::FieldControl { field } => field@
                + " cannot contain control characters"@,
            ProtocolError::RoomListTooLong => "room list exceeds "@ + decimal(
                MAX_HISTORY_ENTRIES as nat,
            ) + " entries"@,
            ProtocolError::RoomHistoryTooLong => "room history exceeds "@ + decimal(
                MAX_HISTORY_ENTRIES as nat,
            ) + " entries"@,
            ProtocolError::PayloadTooLong => "websocket text message exceeds "@ + decimal(
                MAX_PAYLOAD_LEN as nat,
            ) + " bytes"@,
            ProtocolError::CloseFrame => "websocket close frame"@,
            ProtocolError::BinaryFrame => "expected websocket text message, got binary frame"@,
            ProtocolError::PingFrame => "expected websocket text message, got ping frame"@,
            ProtocolError::PongFrame => "expected websocket text message, got pong frame"@,
            ProtocolError::RawFrame => "expected websocket text message, got raw frame"@,
        }
    }

    /// The error as a sentence that can be shown to a user.
    pub fn to_string(&self) -> (t: String)
        ensures
            t@ == self.text(),
    {
        match self {
            ProtocolError::LoginTooShort => counted(
                "Login too short (minimum ",
                MIN_LOGIN_LEN,
                " bytes)",
            ),
            ProtocolError::LoginTooLong => counted(
                "Login too long (maximum ",
                MAX_NEW_LOGIN_LEN,
                " bytes)",
            ),
            ProtocolError::LoginCharacters =>
                "Login can only contain ASCII letters, numbers, and underscores".to_owned(),
            ProtocolError::LoginReserved =>
                "Login uses a reserved server or system name".to_owned(),
            ProtocolError::RoomEmpty => "Room name cannot be empty".to_owned(),
            ProtocolError::RoomTooLong => counted(
                "Room name too long (maximum ",
                MAX_NEW_ROOM_LEN,
                " bytes)",
            ),
            ProtocolError::RoomCharacters =>
                "Room name can only contain ASCII letters, numbers, underscores, and hyphens".to_owned(),
            ProtocolError::MessageEmpty => "Message cannot be empty".to_owned(),
            ProtocolError::MessageTooLong => counted(
                "Message too long (maximum ",
                MAX_CHAT_MESSAGE_LEN,
                " bytes)",
            ),
            ProtocolError::PasswordTooShort => counted(
                "Password too short (minimum ",
                MIN_PASSWORD_LEN,
                " bytes)",
            ),
            ProtocolError::PasswordEmpty => "Password cannot be empty".to_owned(),
            ProtocolError::PasswordTooLong => counted(
                "Password too long (maximum ",
                MAX_PASSWORD_LEN,
                " bytes)",
            ),
            ProtocolError::PasswordNul => "Password cannot contain NUL bytes".to_owned(),
            ProtocolError::FieldEmpty { field } => {
                (*field).to_owned().concat(" must not be empty")
            },
            ProtocolError::FieldTooLong { field, max_len } => {
                let start = (*field).to_owned().concat(" exceeds ");
                counted(start.as_str(), *max_len, " bytes")
            },
            ProtocolError::FieldControl { field } => {
                (*field).to_owned().concat(" cannot contain control characters")
            },
            ProtocolError::RoomListTooLong => counted(
                "room list exceeds ",
                MAX_HISTORY_ENTRIES,
                " entries",
            ),
            ProtocolError::RoomHistoryTooLong => counted(
                "room history exceeds ",
                MAX_HISTORY_ENTRIES,
                " entries",
            ),
            ProtocolError::PayloadTooLong => counted(
                "websocket text message exceeds ",
                MAX_PAYLOAD_LEN,
                " bytes",
            ),
            ProtocolError::CloseFrame => "websocket close frame".to_owned(),
            ProtocolError::BinaryFrame =>
                "expected websocket text message, got binary frame".to_owned(),
            ProtocolError::PingFrame =>
                "expected websocket text message, got ping frame".to_owned(),
            ProtocolError::PongFrame =>
                "expected websocket text message, got pong frame".to_owned(),
            ProtocolError::RawFrame => "expected websocket text message, got raw frame".to_owned(),
        }
    }
}

/// A sentence around a number.
fn counted(start: &str, n: usize, end: &str) -> (t: String)
    ensures
        t@ == start@ + decimal(n as nat) + end@,
{
    start.to_owned().concat(u64_text(n as u64).as_str()).concat(end)
}

} // verus!
