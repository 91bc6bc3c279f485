//! The messages as JSON text: one object whose only key is the kind of message.

use vstd::prelude::*;
use vstd::string::*;

use super::error::ProtocolError;
use super::message::{
    entries, texts, ClientMessage, ClientMessageView, Delivery, DeliveryView, HistoryEntry,
    HistoryEntryView, ServerMessage, ServerMessageView,
};
use super::validate::{
    client_trimmed, client_verdict, normalized_client_message, server_verdict,
    validate_server_message,
};
use crate::text::{decimal, decimal_int, i64_text, u64_text};

verus! {

/// The digit of a number below sixteen.
pub open spec fn hex_digit(d: int) -> char {
    if d < 10 {
        (48 + d) as char
    } else {
        (87 + d) as char
    }
}

/// A character inside a JSON string literal.
pub open spec fn escaped(c: char) -> Seq<char> {
    if c == '"' || c == '\\' {
        seq!['\\', c]
    } else if c == '\u{8}' {
        seq!['\\', 'b']
    } else if c == '\u{c}' {
        seq!['\\', 'f']
    } else if c == '\n' {
        seq!['\\', 'n']
    } else if c == '\r' {
        seq!['\\', 'r']
    } else if c == '\t' {
        seq!['\\', 't']
    } else if c <= '\u{1f}' {
        seq!['\\', 'u', '0', '0', hex_digit(c as int / 16), hex_digit(c as int % 16)]
    } else {
        seq![c]
    }
}

/// A text inside a JSON string literal.
pub open spec fn escaped_text(s: Seq<char>) -> Seq<char>
    decreases s.len(),
{
    if s.len() == 0 {
        Seq::empty()
    } else {
        escaped(s[0]) + escaped_text(s.drop_first())
    }
}

/// A text as a JSON string literal, quotes and escapes included.
pub open spec fn json_text(s: Seq<char>) -> Seq<char> {
    seq!['"'] + escaped_text(s) + seq!['"']
}

/// A text as a JSON string literal.
///
/// Calls `serde_json::to_string` on a `str`, which writes the text between
/// quotes. Quotes, backslashes and the control characters below the space are
/// escaped: by a letter of their own where there is one, and otherwise by their
/// number in four hexadecimal digits. Writing a string never fails.
#[verifier::external_body]
fn json_literal(s: &str) -> (t: String)
    ensures
        t@ == json_text(s@),
{
    serde_json::to_string(s).expect("a string is always written")
}

/// A truth value in JSON.
pub open spec fn json_bool(b: bool) -> Seq<char> {
    if b {
        "true"@
    } else {
        "false"@
    }
}

/// A number that may be missing, in JSON.
pub open spec fn json_option(n: Option<u64>) -> Seq<char> {
    match n {
        Some(n) => decimal(n as nat),
        None => "null"@,
    }
}

/// Texts one after the other, with commas between them.
pub open spec fn with_commas(parts: Seq<Seq<char>>) -> Seq<char>
    decreases parts.len(),
{
    if parts.len() == 0 {
        Seq::empty()
    } else if parts.len() == 1 {
        parts[0]
    } else {
        with_commas(parts.drop_last()) + ","@ + parts.last()
    }
}

/// A JSON array of items that are JSON already.
pub open spec fn json_array(items: Seq<Seq<char>>) -> Seq<char> {
    "["@ + with_commas(items) + "]"@
}

/// A history entry in JSON.
pub open spec fn entry_json(e: HistoryEntryView) -> Seq<char> {
    "{\"id\":"@ + decimal(e.id as nat) + ",\"login\":"@ + json_text(e.login) + ",\"timestamp\":"@
        + decimal_int(e.timestamp as int) + ",\"message\":"@ + json_text(e.message) + "}"@
}

/// A client message in JSON.
pub open spec fn client_json(m: ClientMessageView) -> Seq<char> {
    match m {
        ClientMessageView::CreateAccount { login, passwd } => "{\"CreateAccount\":{\"login\":"@
            + json_text(login) + ",\"passwd\":"@ + json_text(passwd) + "}}"@,
        ClientMessageView::Login { login, passwd } => "{\"Login\":{\"login\":"@ + json_text(login)
            + ",\"passwd\":"@ + json_text(passwd) + "}}"@,
        ClientMessageView::JoinRoom { room } => "{\"JoinRoom\":{\"room\":"@ + json_text(room)
            + "}}"@,
        ClientMessageView::LeaveRoom { room } => "{\"LeaveRoom\":{\"room\":"@ + json_text(room)
            + "}}"@,
        ClientMessageView::SendMessage { room, message } => "{\"SendMessage\":{\"room\":"@
            + json_text(room) + ",\"message\":"@ + json_text(message) + "}}"@,
        ClientMessageView::GetHistory { room, cursor } => "{\"GetHistory\":{\"room\":"@ + json_text(
            room,
        ) + ",\"cursor\":"@ + json_option(cursor) + "}}"@,
        ClientMessageView::Logout => "\"Logout\""@,
    }
}

/// A server message in JSON.
pub open spec fn server_json(m: ServerMessageView) -> Seq<char> {
    match m {
        ServerMessageView::LoginOk { login } => "{\"LoginOk\":{\"login\":"@ + json_text(login)
            + "}}"@,
        ServerMessageView::LoginFailed { reason } => "{\"LoginFailed\":{\"reason\":"@ + json_text(
            reason,
        ) + "}}"@,
        ServerMessageView::AccountCreated { login } => "{\"AccountCreated\":{\"login\":"@
            + json_text(login) + "}}"@,
        ServerMessageView::AccountCreationFailed { reason } =>
            "{\"AccountCreationFailed\":{\"reason\":"@ + json_text(reason) + "}}"@,
        ServerMessageView::IncomingMessage { login, room, message, timestamp } =>
            "{\"IncomingMessage\":{\"login\":"@ + json_text(login) + ",\"room\":"@ + json_text(room)
            + ",\"message\":"@ + json_text(message) + ",\"timestamp\":"@ + decimal_int(
            timestamp as int,
        ) + "}}"@,
        ServerMessageView::RoomList { rooms } => "{\"RoomList\":{\"rooms\":"@ + json_array(
            rooms.map_values(|r: Seq<char>| json_text(r)),
        ) + "}}"@,
        ServerMessageView::RoomHistory { room, messages, has_more } =>
            "{\"RoomHistory\":{\"room\":"@ + json_text(room) + ",\"messages\":"@ + json_array(
            messages.map_values(|e: HistoryEntryView| entry_json(e)),
        ) + ",\"has_more\":"@ + json_bool(has_more) + "}}"@,
        ServerMessageView::LogoutOk => "\"LogoutOk\""@,
        ServerMessageView::Error { message, code } => "{\"Error\":{\"message\":"@ + json_text(
            message,
        ) + ",\"code\":"@ + json_text(code) + "}}"@,
    }
}

/// A delivery in JSON: a chat message with its id, any other message as it is.
pub open spec fn delivery_json(d: DeliveryView) -> Seq<char> {
    match d.message {
        ServerMessageView::IncomingMessage { login, room, message, timestamp } =>
            "{\"IncomingMessage\":{\"id\":"@ + decimal(d.id as nat) + ",\"login\":"@ + json_text(
            login,
        ) + ",\"room\":"@ + json_text(room) + ",\"message\":"@ + json_text(message)
            + ",\"timestamp\":"@ + decimal_int(timestamp as int) + "}}"@,
        _ => server_json(d.message),
    }
}

/// Append a string literal to a text.
fn append_literal(t: &mut String, s: &str)
    ensures
        final(t)@ == old(t)@ + json_text(s@),
{
    let literal = json_literal(s);
    t.append(literal.as_str());
}

/// The text of a client message that is normalized already.
fn client_text(m: &ClientMessage) -> (t: String)
    ensures
        t@ == client_json(m@),
{
    match m {
        ClientMessage::CreateAccount { login, passwd } => {
            let mut t = "{\"CreateAccount\":{\"login\":".to_owned();
            append_literal(&mut t, login.as_str());
            t.append(",\"passwd\":");
            append_literal(&mut t, passwd.as_str());
            t.append("}}");
            t
        },
        ClientMessage::Login { login, passwd } => {
            let mut t = "{\"Login\":{\"login\":".to_owned();
            append_literal(&mut t, login.as_str());
            t.append(",\"passwd\":");
            append_literal(&mut t, passwd.as_str());
            t.append("}}");
            t
        },
        ClientMessage::JoinRoom { room } => {
            let mut t = "{\"JoinRoom\":{\"room\":".to_owned();
            append_literal(&mut t, room.as_str());
            t.append("}}");
            t
        },
        ClientMessage::LeaveRoom { room } => {
            let mut t = "{\"LeaveRoom\":{\"room\":".to_owned();
            append_literal(&mut t, room.as_str());
            t.append("}}");
            t
        },
        ClientMessage::SendMessage { room, message } => {
            let mut t = "{\"SendMessage\":{\"room\":".to_owned();
            append_literal(&mut t, room.as_str());
            t.append(",\"message\":");
            append_literal(&mut t, message.as_str());
            t.append("}}");
            t
        },
        ClientMessage::GetHistory { room, cursor } => {
            let mut t = "{\"GetHistory\":{\"room\":".to_owned();
            append_literal(&mut t, room.as_str());
            t.append(",\"cursor\":");
            match cursor {
                Some(n) => t.append(u64_text(*n).as_str()),
                None => t.append("null"),
            }
            t.append("}}");
            t
        },
        ClientMessage::Logout => "\"Logout\"".to_owned(),
    }
}

/// Append the list of room names as a JSON array.
fn append_rooms(t: &mut String, rooms: &Vec<String>)
    ensures
        final(t)@ == old(t)@ + json_array(
            texts(rooms@).map_values(|r: Seq<char>| json_text(r)),
        ),
{
    let ghost start = t@ + "["@;
    let ghost items = texts(rooms@).map_values(|r: Seq<char>| json_text(r));
    t.append("[");
    let mut i: usize = 0;
    proof {
        assert(start + with_commas(items.take(0)) =~= start);
    }
    while i < rooms.len()
        invariant
            items == texts(rooms@).map_values(|r: Seq<char>| json_text(r)),
            i <= rooms.len(),
            t@ == start + with_commas(items.take(i as int)),
        decreases rooms.len() - i,
    {
        proof {
            assert(items.take(i + 1).drop_last() =~= items.take(i as int));
            assert(items.take(i + 1).last() == json_text(rooms@[i as int]@));
            assert(start + with_commas(items.take(i + 1)) =~= if i == 0 {
                start + items.take(i + 1).last()
            } else {
                start + with_commas(items.take(i as int)) + ","@ + items.take(i + 1).last()
            });
        }
        if i > 0 {
            t.append(",");
        }
        append_literal(t, rooms[i].as_str());
        i = i + 1;
    }
    t.append("]");
    proof {
        assert(items.take(i as int) =~= items);
        assert(t@ =~= old(t)@ + json_array(items));
    }
}

/// Append a history entry as a JSON object.
fn append_entry(t: &mut String, e: &HistoryEntry)
    ensures
        final(t)@ == old(t)@ + entry_json(e@),
{
    let ghost before = t@;
    t.append("{\"id\":");
    t.append(u64_text(e.id).as_str());
    t.append(",\"login\":");
    append_literal(t, e.login.as_str());
    t.append(",\"timestamp\":");
    t.append(i64_text(e.timestamp).as_str());
    t.append(",\"message\":");
    append_literal(t, e.message.as_str());
    t.append("}");
    proof {
        assert(t@ =~= before + entry_json(e@));
    }
}

/// Append the entries of a history as a JSON array.
fn append_entries(t: &mut String, messages: &Vec<HistoryEntry>)
    ensures
        final(t)@ == old(t)@ + json_array(
            entries(messages@).map_values(|e: HistoryEntryView| entry_json(e)),
        ),
{
    let ghost start = t@ + "["@;
    let ghost items = entries(messages@).map_values(|e: HistoryEntryView| entry_json(e));
    t.append("[");
    let mut i: usize = 0;
    proof {
        assert(start + with_commas(items.take(0)) =~= start);
    }
    while i < messages.len()
        invariant
            items == entries(messages@).map_values(|e: HistoryEntryView| entry_json(e)),
            i <= messages.len(),
            t@ == start + with_commas(items.take(i as int)),
        decreases messages.len() - i,
    {
        proof {
            assert(items.take(i + 1).drop_last() =~= items.take(i as int));
            assert(items.take(i + 1).last() == entry_json(messages@[i as int]@));
            assert(start + with_commas(items.take(i + 1)) =~= if i == 0 {
                start + items.take(i + 1).last()
            } else {
                start + with_commas(items.take(i as int)) + ","@ + items.take(i + 1).last()
            });
        }
        if i > 0 {
            t.append(",");
        }
        append_entry(t, &messages[i]);
        i = i + 1;
    }
    t.append("]");
    proof {
        assert(items.take(i as int) =~= items);
        assert(t@ =~= old(t)@ + json_array(items));
    }
}

/// The text of a server message.
fn server_text(m: &ServerMessage) -> (t: String)
    ensures
        t@ == server_json(m@),
{
    match m {
        ServerMessage::LoginOk { login } => {
            let mut t = "{\"LoginOk\":{\"login\":".to_owned();
            append_literal(&mut t, login.as_str());
            t.append("}}");
            t
        },
        ServerMessage::LoginFailed { reason } => {
            let mut t = "{\"LoginFailed\":{\"reason\":".to_owned();
            append_literal(&mut t, reason.as_str());
            t.append("}}");
            t
        },
        ServerMessage::AccountCreated { login } => {
            let mut t = "{\"AccountCreated\":{\"login\":".to_owned();
            append_literal(&mut t, login.as_str());
            t.append("}}");
            t
        },
        ServerMessage::AccountCreationFailed { reason } => {
            let mut t = "{\"AccountCreationFailed\":{\"reason\":".to_owned();
            append_literal(&mut t, reason.as_str());
            t.append("}}");
            t
        },
        ServerMessage::IncomingMessage { login, room, message, timestamp } => {
            let mut t = "{\"IncomingMessage\":{\"login\":".to_owned();
            append_literal(&mut t, login.as_str());
            t.append(",\"room\":");
            append_literal(&mut t, room.as_str());
            t.append(",\"message\":");
            append_literal(&mut t, message.as_str());
            t.append(",\"timestamp\":");
            t.append(i64_text(*timestamp).as_str());
            t.append("}}");
            t
        },
        ServerMessage::RoomList { rooms } => {
            let mut t = "{\"RoomList\":{\"rooms\":".to_owned();
            append_rooms(&mut t, rooms);
            t.append("}}");
            t
        },
        ServerMessage::RoomHistory { room, messages, has_more } => {
            let mut t = "{\"RoomHistory\":{\"room\":".to_owned();
            append_literal(&mut t, room.as_str());
            t.append(",\"messages\":");
            append_entries(&mut t, messages);
            t.append(",\"has_more\":");
            if *has_more {
                t.append("true");
            } else {
                t.append("false");
            }
            t.append("}}");
            t
        },
        ServerMessage::LogoutOk => "\"LogoutOk\"".to_owned(),
        ServerMessage::Error { message, code } => {
            let mut t = "{\"Error\":{\"message\":".to_owned();
            append_literal(&mut t, message.as_str());
            t.append(",\"code\":");
            append_literal(&mut t, code.as_str());
            t.append("}}");
            t
        },
    }
}

/// The text in which a client message is sent: its names trimmed, every rule kept.
pub fn serialize_client_message(message: &ClientMessage) -> (r: Result<String, ProtocolError>)
    ensures
        match r {
            Ok(text) => client_verdict(client_trimmed(message@)) is Ok && text@ == client_json(
                client_trimmed(message@),
            ),
            Err(e) => client_verdict(client_trimmed(message@)) == Err::<(), ProtocolError>(e),
        },
{
    let normalized = normalized_client_message(message)?;
    Ok(client_text(&normalized))
}

/// The text in which a server message is sent.
pub fn serialize_server_message(message: &ServerMessage) -> (r: Result<String, ProtocolError>)
    ensures
        match r {
            Ok(text) => server_verdict(message@) is Ok && text@ == server_json(message@),
            Err(e) => server_verdict(message@) == Err::<(), ProtocolError>(e),
        },
{
    validate_server_message(message)?;
    Ok(server_text(message))
}

/// The text in which a delivery is sent.
pub fn serialize_delivery(delivery: &Delivery) -> (r: Result<String, ProtocolError>)
    ensures
        match r {
            Ok(text) => server_verdict(delivery@.message) is Ok && text@ == delivery_json(
                delivery@,
            ),
            Err(e) => server_verdict(delivery@.message) == Err::<(), ProtocolError>(e),
        },
{
    validate_server_message(&delivery.message)?;
    match &delivery.message {
        ServerMessage::IncomingMessage { login, room, message, timestamp } => {
            let mut t = "{\"IncomingMessage\":{\"id\":".to_owned();
            t.append(u64_text(delivery.id).as_str());
            t.append(",\"login\":");
            append_literal(&mut t, login.as_str());
            t.append(",\"room\":");
            append_literal(&mut t, room.as_str());
            t.append(",\"message\":");
            append_literal(&mut t, message.as_str());
            t.append(",\"timestamp\":");
            t.append(i64_text(*timestamp).as_str());
            t.append("}}");
            Ok(t)
        },
        _ => Ok(server_text(&delivery.message)),
    }
}

/// The text that asks to log in.
pub fn create_login(login: String, passwd: String) -> (r: Result<String, ProtocolError>)
    ensures
        ({
            let m = ClientMessageView::Login { login: login@, passwd: passwd@ };
            match r {
                Ok(text) => client_verdict(m) is Ok && text@ == client_json(m),
                Err(e) => client_verdict(m) == Err::<(), ProtocolError>(e),
            }
        }),
{
    serialize_client_message(&ClientMessage::Login { login, passwd })
}

/// The text that asks for a new account.
pub fn create_account(login: String, passwd: String) -> (r: Result<String, ProtocolError>)
    ensures
        ({
            let m = client_trimmed(
                ClientMessageView::CreateAccount { login: login@, passwd: passwd@ },
            );
            match r {
                Ok(text) => client_verdict(m) is Ok && text@ == client_json(m),
                Err(e) => client_verdict(m) == Err::<(), ProtocolError>(e),
            }
        }),
{
    serialize_client_message(&ClientMessage::CreateAccount { login, passwd })
}

/// The text of a chat message.
pub fn create_incoming_message(
    login: String,
    room: String,
    message: String,
    timestamp: i64,
) -> (r: Result<String, ProtocolError>)
    ensures
        ({
            let m = ServerMessageView::IncomingMessage {
                login: login@,
                room: room@,
                message: message@,
                timestamp,
            };
            match r {
                Ok(text) => server_verdict(m) is Ok && text@ == server_json(m),
                Err(e) => server_verdict(m) == Err::<(), ProtocolError>(e),
            }
        }),
{
    serialize_server_message(
        &ServerMessage::IncomingMessage { login, room, message, timestamp },
    )
}

} // verus!
