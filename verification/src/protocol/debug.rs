//! Client messages as text for logs, with the passwords left out.

use vstd::prelude::*;
use vstd::string::*;

use super::message::{ClientMessage, ClientMessageView};
use crate::text::{decimal, u64_text};

verus! {

/// A text between quotes as logs show it, its special characters escaped.
pub uninterp spec fn quoted(s: Seq<char>) -> Seq<char>;

/// A text between quotes as logs show it.
///
/// Formats a `str` with `core::fmt::Debug`, which puts the text between quotes
/// and escapes its special characters. The result depends on the text alone.
#[verifier::external_body]
fn quoted_text(s: &str) -> (t: String)
    ensures
        t@ == quoted(s@),
{
    format!("{:?}", s)
}

/// A client message as logs show it. A password is shown as three stars.
pub open spec fn client_debug(m: ClientMessageView) -> Seq<char> {
    match m {
        ClientMessageView::CreateAccount { login, passwd } => "CreateAccount { login: "@ + quoted(
            login,
        ) + ", passwd: \"***\" }"@,
        ClientMessageView::Login { login, passwd } => "Login { login: "@ + quoted(login)
            + ", passwd: \"***\" }"@,
        ClientMessageView::JoinRoom { room } => "JoinRoom { room: "@ + quoted(room) + " }"@,
        ClientMessageView::LeaveRoom { room } => "LeaveRoom { room: "@ + quoted(room) + " }"@,
        ClientMessageView::SendMessage { room, message } => "SendMessage { room: "@ + quoted(room)
            + ", message: "@ + quoted(message) + " }"@,
        ClientMessageView::GetHistory { room, cursor } => "GetHistory { room: "@ + quoted(room)
            + ", cursor: "@ + (match cursor {
            Some(n) => "Some("@ + decimal(n as nat) + ")"@,
            None => "None"@,
        }) + " }"@,
        ClientMessageView::Logout => "Logout"@,
    }
}

impl ClientMessage {
    /// The message as logs show it.
    pub fn debug_string(&self) -> (t: String)
        ensures
            t@ == client_debug(self@),
    {
        match self {
            ClientMessage::CreateAccount { login, passwd: _ } => {
                let mut t = "CreateAccount { login: ".to_owned();
                t.append(quoted_text(login.as_str()).as_str());
                t.append(", passwd: \"***\" }");
                t
            },
            ClientMessage::Login { login, passwd: _ } => {
                let mut t = "Login { login: ".to_owned();
                t.append(quoted_text(login.as_str()).as_str());
                t.append(", passwd: \"***\" }");
                t
            },
            ClientMessage::JoinRoom { room } => {
                let mut t = "JoinRoom { room: ".to_owned();
                t.append(quoted_text(room.as_str()).as_str());
                t.append(" }");
                t
            },
            ClientMessage::LeaveRoom { room } => {
                let mut t = "LeaveRoom { room: ".to_owned();
                t.append(quoted_text(room.as_str()).as_str());
                t.append(" }");
                t
            },
            ClientMessage::SendMessage { room, message } => {
                let mut t = "SendMessage { room: ".to_owned();
                t.append(quoted_text(room.as_str()).as_str());
                t.append(", message: ");
                t.append(quoted_text(message.as_str()).as_str());
                t.append(" }");
                t
            },
            ClientMessage::GetHistory { room, cursor } => {
                let mut t = "GetHistory { room: ".to_owned();
                t.append(quoted_text(room.as_str()).as_str());
                t.append(", cursor: ");
                match cursor {
                    Some(n) => {
                        let some = "Some(".to_owned().concat(u64_text(*n).as_str()).concat(")");
                        t.append(some.as_str());
                    },
                    None => {
                        t.append("None");
                    },
                }
                t.append(" }");
                t
            },
            ClientMessage::Logout => "Logout".to_owned(),
        }
    }
}

} // verus!
