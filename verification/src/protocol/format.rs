//! The text of messages field by field: each under its own name, and each to be
//! read back from its text.

use vstd::prelude::*;
use vstd::string::*;

use super::debug::{client_debug, quoted};
use super::error::ProtocolError;
use super::json::{
    client_json, delivery_json, entry_json, escaped, escaped_text, hex_digit, json_array,
    json_bool, json_option, json_text, server_json, with_commas,
};
use super::message::{
    ClientMessage, ClientMessageView, Delivery, DeliveryView, HistoryEntryView, ServerMessage,
    ServerMessageView,
};
use crate::text::{decimal, decimal_int};

verus! {

// ── String literals ─────────────────────────────────────────────────────

/// The number that a hexadecimal digit stands for.
pub open spec fn hex_value(c: char) -> int {
    if '0' <= c <= '9' {
        c as int - 48
    } else {
        c as int - 87
    }
}

/// The character that stands behind a backslash in a JSON string literal.
pub open spec fn behind_backslash(c: char) -> char {
    if c == 'b' {
        '\u{8}'
    } else if c == 'f' {
        '\u{c}'
    } else if c == 'n' {
        '\n'
    } else if c == 'r' {
        '\r'
    } else if c == 't' {
        '\t'
    } else {
        c
    }
}

/// The text that the inside of a JSON string literal stands for.
pub open spec fn read_literal(t: Seq<char>) -> Seq<char>
    decreases t.len(),
{
    if t.len() == 0 {
        Seq::empty()
    } else if t[0] != '\\' || t.len() == 1 {
        seq![t[0]] + read_literal(t.skip(1))
    } else if t[1] != 'u' || t.len() < 6 {
        seq![behind_backslash(t[1])] + read_literal(t.skip(2))
    } else {
        let code = hex_value(t[2]) * 4096 + hex_value(t[3]) * 256 + hex_value(t[4]) * 16
            + hex_value(t[5]);
        seq![code as u32 as char] + read_literal(t.skip(6))
    }
}

/// One character is read back, and what follows it is left.
proof fn lemma_read_char(c: char, rest: Seq<char>)
    ensures
        read_literal(escaped(c) + rest) == seq![c] + read_literal(rest),
{
    let t = escaped(c) + rest;
    let n = escaped(c).len() as int;
    assert(t.skip(n) =~= rest);
    if n == 6 {
        let hi = c as int / 16;
        let lo = c as int % 16;
        assert(t[0] == '\\' && t[1] == 'u' && t[2] == '0' && t[3] == '0');
        assert(t[4] == hex_digit(hi) && t[5] == hex_digit(lo));
        assert(0 <= hi <= 1 && 0 <= lo < 16);
        assert(hex_value(hex_digit(hi)) == hi);
        assert(hex_value(hex_digit(lo)) == lo);
        assert(hi * 16 + lo == c as int);
        assert((c as int) as u32 as char == c);
    } else {
        assert(t[0] == escaped(c)[0]);
        if n == 2 {
            assert(t[1] == escaped(c)[1]);
        }
    }
}

/// A string literal stands between quotes, holds no quote that ends it early,
/// and is read back as the text that it was written for.
pub proof fn law_literals_are_read_back(s: Seq<char>)
    ensures
        json_text(s).len() == escaped_text(s).len() + 2,
        json_text(s)[0] == '"',
        json_text(s).last() == '"',
        json_text(s).subrange(1, json_text(s).len() - 1) == escaped_text(s),
        read_literal(escaped_text(s)) == s,
    decreases s.len(),
{
    assert(json_text(s).subrange(1, json_text(s).len() - 1) =~= escaped_text(s));
    if s.len() > 0 {
        law_literals_are_read_back(s.drop_first());
        lemma_read_char(s[0], escaped_text(s.drop_first()));
        assert(seq![s[0]] + s.drop_first() =~= s);
    } else {
        assert(read_literal(Seq::empty()) =~= s);
    }
}

/// Numbers, truth values and lists are written as JSON has them: numbers that
/// are missing as `null`, and the items of a list with commas between them.
pub proof fn law_values_are_written(n: u64, items: Seq<Seq<char>>, item: Seq<char>)
    ensures
        json_option(Some(n)) == decimal(n as nat),
        json_option(None) == "null"@,
        json_bool(true) == "true"@,
        json_bool(false) == "false"@,
        json_array(Seq::empty()) == "["@ + Seq::<char>::empty() + "]"@,
        json_array(seq![item]) == "["@ + item + "]"@,
        items.len() > 0 ==> json_array(items.push(item)) == "["@ + (with_commas(items) + ","@
            + item) + "]"@,
{
    assert(items.push(item).drop_last() =~= items);
}

// ── Objects ─────────────────────────────────────────────────────────────

/// How the object of a kind of message begins, up to its first value.
pub open spec fn opening(kind: Seq<char>, name: Seq<char>) -> Seq<char> {
    "{\""@ + kind + "\":{\""@ + name + "\":"@
}

/// What stands before a further value of an object.
pub open spec fn also(name: Seq<char>) -> Seq<char> {
    ",\""@ + name + "\":"@
}

/// The parts of the text of messages are names between the marks of JSON.
proof fn lemma_marks()
    ensures
        forall|k: Seq<char>, n: Seq<char>| #[trigger]
            opening(k, n) == seq!['{', '"'] + k + seq!['"', ':', '{', '"'] + n + seq!['"', ':'],
        forall|n: Seq<char>| #[trigger] also(n) == seq![',', '"'] + n + seq!['"', ':'],
{
    reveal_strlit("{\"");
    reveal_strlit("\":{\"");
    reveal_strlit("\":");
    reveal_strlit(",\"");
    assert("{\""@ =~= seq!['{', '"']);
    assert("\":{\""@ =~= seq!['"', ':', '{', '"']);
    assert("\":"@ =~= seq!['"', ':']);
    assert(",\""@ =~= seq![',', '"']);
}

/// A client message is an object of its kind with its fields under their names.
pub proof fn law_client_fields_are_named(
    login: Seq<char>,
    passwd: Seq<char>,
    room: Seq<char>,
    message: Seq<char>,
    cursor: Option<u64>,
)
    ensures
        client_json(ClientMessageView::CreateAccount { login, passwd }) == opening(
            "CreateAccount"@,
            "login"@,
        ) + json_text(login) + also("passwd"@) + json_text(passwd) + "}}"@,
        client_json(ClientMessageView::Login { login, passwd }) == opening("Login"@, "login"@)
            + json_text(login) + also("passwd"@) + json_text(passwd) + "}}"@,
        client_json(ClientMessageView::JoinRoom { room }) == opening("JoinRoom"@, "room"@)
            + json_text(room) + "}}"@,
        client_json(ClientMessageView::LeaveRoom { room }) == opening("LeaveRoom"@, "room"@)
            + json_text(room) + "}}"@,
        client_json(ClientMessageView::SendMessage { room, message }) == opening(
            "SendMessage"@,
            "room"@,
        ) + json_text(room) + also("message"@) + json_text(message) + "}}"@,
        client_json(ClientMessageView::GetHistory { room, cursor }) == opening(
            "GetHistory"@,
            "room"@,
        ) + json_text(room) + also("cursor"@) + json_option(cursor) + "}}"@,
        client_json(ClientMessageView::Logout) == "\"Logout\""@,
{
    lemma_marks();
    reveal_strlit("login");
    reveal_strlit("passwd");
    reveal_strlit("room");
    reveal_strlit("message");
    reveal_strlit("cursor");
    assert(also("passwd"@) == ",\"passwd\":"@) by {
        reveal_strlit(",\"passwd\":");
        assert(also("passwd"@) =~= ",\"passwd\":"@);
    }
    assert(also("message"@) == ",\"message\":"@) by {
        reveal_strlit(",\"message\":");
        assert(also("message"@) =~= ",\"message\":"@);
    }
    assert(also("cursor"@) == ",\"cursor\":"@) by {
        reveal_strlit(",\"cursor\":");
        assert(also("cursor"@) =~= ",\"cursor\":"@);
    }
    assert(opening("CreateAccount"@, "login"@) == "{\"CreateAccount\":{\"login\":"@) by {
        reveal_strlit("CreateAccount");
        reveal_strlit("{\"CreateAccount\":{\"login\":");
        assert(opening("CreateAccount"@, "login"@) =~= "{\"CreateAccount\":{\"login\":"@);
    }
    assert(opening("Login"@, "login"@) == "{\"Login\":{\"login\":"@) by {
        reveal_strlit("Login");
        reveal_strlit("{\"Login\":{\"login\":");
        assert(opening("Login"@, "login"@) =~= "{\"Login\":{\"login\":"@);
    }
    assert(opening("JoinRoom"@, "room"@) == "{\"JoinRoom\":{\"room\":"@) by {
        reveal_strlit("JoinRoom");
        reveal_strlit("{\"JoinRoom\":{\"room\":");
        assert(opening("JoinRoom"@, "room"@) =~= "{\"JoinRoom\":{\"room\":"@);
    }
    assert(opening("LeaveRoom"@, "room"@) == "{\"LeaveRoom\":{\"room\":"@) by {
        reveal_strlit("LeaveRoom");
        reveal_strlit("{\"LeaveRoom\":{\"room\":");
        assert(opening("LeaveRoom"@, "room"@) =~= "{\"LeaveRoom\":{\"room\":"@);
    }
    assert(opening("SendMessage"@, "room"@) == "{\"SendMessage\":{\"room\":"@) by {
        reveal_strlit("SendMessage");
        reveal_strlit("{\"SendMessage\":{\"room\":");
        assert(opening("SendMessage"@, "room"@) =~= "{\"SendMessage\":{\"room\":"@);
    }
    assert(opening("GetHistory"@, "room"@) == "{\"GetHistory\":{\"room\":"@) by {
        reveal_strlit("GetHistory");
        reveal_strlit("{\"GetHistory\":{\"room\":");
        assert(opening("GetHistory"@, "room"@) =~= "{\"GetHistory\":{\"room\":"@);
    }
}

/// What stands before the further fields of server messages.
proof fn lemma_server_names()
    ensures
        also("login"@) == ",\"login\":"@,
        also("room"@) == ",\"room\":"@,
        also("message"@) == ",\"message\":"@,
        also("timestamp"@) == ",\"timestamp\":"@,
        also("messages"@) == ",\"messages\":"@,
        also("has_more"@) == ",\"has_more\":"@,
        also("code"@) == ",\"code\":"@,
{
    lemma_marks();
    assert(also("login"@) == ",\"login\":"@) by {
        reveal_strlit("login");
        reveal_strlit(",\"login\":");
        assert(also("login"@) =~= ",\"login\":"@);
    }
    assert(also("room"@) == ",\"room\":"@) by {
        reveal_strlit("room");
        reveal_strlit(",\"room\":");
        assert(also("room"@) =~= ",\"room\":"@);
    }
    assert(also("message"@) == ",\"message\":"@) by {
        reveal_strlit("message");
        reveal_strlit(",\"message\":");
        assert(also("message"@) =~= ",\"message\":"@);
    }
    assert(also("timestamp"@) == ",\"timestamp\":"@) by {
        reveal_strlit("timestamp");
        reveal_strlit(",\"timestamp\":");
        assert(also("timestamp"@) =~= ",\"timestamp\":"@);
    }
    assert(also("messages"@) == ",\"messages\":"@) by {
        reveal_strlit("messages");
        reveal_strlit(",\"messages\":");
        assert(also("messages"@) =~= ",\"messages\":"@);
    }
    assert(also("has_more"@) == ",\"has_more\":"@) by {
        reveal_strlit("has_more");
        reveal_strlit(",\"has_more\":");
        assert(also("has_more"@) =~= ",\"has_more\":"@);
    }
    assert(also("code"@) == ",\"code\":"@) by {
        reveal_strlit("code");
        reveal_strlit(",\"code\":");
        assert(also("code"@) =~= ",\"code\":"@);
    }
}

/// How the objects of server messages begin.
proof fn lemma_server_openings()
    ensures
        opening("LoginOk"@, "login"@) == "{\"LoginOk\":{\"login\":"@,
        opening("LoginFailed"@, "reason"@) == "{\"LoginFailed\":{\"reason\":"@,
        opening("AccountCreated"@, "login"@) == "{\"AccountCreated\":{\"login\":"@,
        opening("AccountCreationFailed"@, "reason"@) == "{\"AccountCreationFailed\":{\"reason\":"@,
        opening("IncomingMessage"@, "login"@) == "{\"IncomingMessage\":{\"login\":"@,
        opening("IncomingMessage"@, "id"@) == "{\"IncomingMessage\":{\"id\":"@,
        opening("RoomList"@, "rooms"@) == "{\"RoomList\":{\"rooms\":"@,
        opening("RoomHistory"@, "room"@) == "{\"RoomHistory\":{\"room\":"@,
        opening("Error"@, "message"@) == "{\"Error\":{\"message\":"@,
{
    lemma_marks();
    reveal_strlit("login");
    reveal_strlit("reason");
    reveal_strlit("room");
    reveal_strlit("message");
    assert(opening("LoginOk"@, "login"@) == "{\"LoginOk\":{\"login\":"@) by {
        reveal_strlit("LoginOk");
        reveal_strlit("{\"LoginOk\":{\"login\":");
        assert(opening("LoginOk"@, "login"@) =~= "{\"LoginOk\":{\"login\":"@);
    }
    assert(opening("LoginFailed"@, "reason"@) == "{\"LoginFailed\":{\"reason\":"@) by {
        reveal_strlit("LoginFailed");
        reveal_strlit("{\"LoginFailed\":{\"reason\":");
        assert(opening("LoginFailed"@, "reason"@) =~= "{\"LoginFailed\":{\"reason\":"@);
    }
    assert(opening("AccountCreated"@, "login"@) == "{\"AccountCreated\":{\"login\":"@) by {
        reveal_strlit("AccountCreated");
        reveal_strlit("{\"AccountCreated\":{\"login\":");
        assert(opening("AccountCreated"@, "login"@) =~= "{\"AccountCreated\":{\"login\":"@);
    }
    assert(opening("AccountCreationFailed"@, "reason"@)
        == "{\"AccountCreationFailed\":{\"reason\":"@) by {
        reveal_strlit("AccountCreationFailed");
        reveal_strlit("{\"AccountCreationFailed\":{\"reason\":");
        assert(opening("AccountCreationFailed"@, "reason"@)
            =~= "{\"AccountCreationFailed\":{\"reason\":"@);
    }
    assert(opening("IncomingMessage"@, "login"@) == "{\"IncomingMessage\":{\"login\":"@) by {
        reveal_strlit("IncomingMessage");
        reveal_strlit("{\"IncomingMessage\":{\"login\":");
        assert(opening("IncomingMessage"@, "login"@) =~= "{\"IncomingMessage\":{\"login\":"@);
    }
    assert(opening("IncomingMessage"@, "id"@) == "{\"IncomingMessage\":{\"id\":"@) by {
        reveal_strlit("IncomingMessage");
        reveal_strlit("id");
        reveal_strlit("{\"IncomingMessage\":{\"id\":");
        assert(opening("IncomingMessage"@, "id"@) =~= "{\"IncomingMessage\":{\"id\":"@);
    }
    assert(opening("RoomList"@, "rooms"@) == "{\"RoomList\":{\"rooms\":"@) by {
        reveal_strlit("RoomList");
        reveal_strlit("rooms");
        reveal_strlit("{\"RoomList\":{\"rooms\":");
        assert(opening("RoomList"@, "rooms"@) =~= "{\"RoomList\":{\"rooms\":"@);
    }
    assert(opening("RoomHistory"@, "room"@) == "{\"RoomHistory\":{\"room\":"@) by {
        reveal_strlit("RoomHistory");
        reveal_strlit("{\"RoomHistory\":{\"room\":");
        assert(opening("RoomHistory"@, "room"@) =~= "{\"RoomHistory\":{\"room\":"@);
    }
    assert(opening("Error"@, "message"@) == "{\"Error\":{\"message\":"@) by {
        reveal_strlit("Error");
        reveal_strlit("{\"Error\":{\"message\":");
        assert(opening("Error"@, "message"@) =~= "{\"Error\":{\"message\":"@);
    }
}

/// A server message is an object of its kind with its fields under their names.
pub proof fn law_server_fields_are_named(
    login: Seq<char>,
    room: Seq<char>,
    text: Seq<char>,
    code: Seq<char>,
    timestamp: i64,
    rooms: Seq<Seq<char>>,
    messages: Seq<HistoryEntryView>,
    has_more: bool,
)
    ensures
        server_json(ServerMessageView::LoginOk { login }) == opening("LoginOk"@, "login"@)
            + json_text(login) + "}}"@,
        server_json(ServerMessageView::LoginFailed { reason: text }) == opening(
            "LoginFailed"@,
            "reason"@,
        ) + json_text(text) + "}}"@,
        server_json(ServerMessageView::AccountCreated { login }) == opening(
            "AccountCreated"@,
            "login"@,
        ) + json_text(login) + "}}"@,
        server_json(ServerMessageView::AccountCreationFailed { reason: text }) == opening(
            "AccountCreationFailed"@,
            "reason"@,
        ) + json_text(text) + "}}"@,
        server_json(ServerMessageView::IncomingMessage { login, room, message: text, timestamp })
            == opening("IncomingMessage"@, "login"@) + json_text(login) + also("room"@) + json_text(
            room,
        ) + also("message"@) + json_text(text) + also("timestamp"@) + decimal_int(timestamp as int)
            + "}}"@,
        server_json(ServerMessageView::RoomList { rooms }) == opening("RoomList"@, "rooms"@)
            + json_array(Seq::new(rooms.len(), |i: int| json_text(rooms[i]))) + "}}"@,
        server_json(ServerMessageView::RoomHistory { room, messages, has_more }) == opening(
            "RoomHistory"@,
            "room"@,
        ) + json_text(room) + also("messages"@) + json_array(
            Seq::new(messages.len(), |i: int| entry_json(messages[i])),
        ) + also("has_more"@) + json_bool(has_more) + "}}"@,
        server_json(ServerMessageView::LogoutOk) == "\"LogoutOk\""@,
        server_json(ServerMessageView::Error { message: text, code }) == opening(
            "Error"@,
            "message"@,
        ) + json_text(text) + also("code"@) + json_text(code) + "}}"@,
{
    lemma_server_names();
    lemma_server_openings();
    assert(Seq::new(rooms.len(), |i: int| json_text(rooms[i])) =~= rooms.map_values(
        |r: Seq<char>| json_text(r),
    ));
    assert(Seq::new(messages.len(), |i: int| entry_json(messages[i])) =~= messages.map_values(
        |e: HistoryEntryView| entry_json(e),
    ));
}

/// A chat message is delivered with its id before its other fields, and any
/// other message as it is; an entry of history is an object of its fields.
pub proof fn law_deliveries_and_entries(
    id: u64,
    login: Seq<char>,
    room: Seq<char>,
    message: Seq<char>,
    timestamp: i64,
    other: ServerMessageView,
)
    ensures
        delivery_json(
            DeliveryView {
                id,
                message: ServerMessageView::IncomingMessage { login, room, message, timestamp },
            },
        ) == opening("IncomingMessage"@, "id"@) + decimal(id as nat) + also("login"@) + json_text(
            login,
        ) + also("room"@) + json_text(room) + also("message"@) + json_text(message) + also(
            "timestamp"@,
        ) + decimal_int(timestamp as int) + "}}"@,
        !(other is IncomingMessage) ==> delivery_json(DeliveryView { id, message: other })
            == server_json(other),
        entry_json(HistoryEntryView { id, login, timestamp, message }) == "{\"id\":"@ + decimal(
            id as nat,
        ) + also("login"@) + json_text(login) + also("timestamp"@) + decimal_int(timestamp as int)
            + also("message"@) + json_text(message) + "}"@,
{
    lemma_server_names();
    lemma_server_openings();
}

/// Logs show of a message its kind and its fields by their names, and three
/// stars for a password.
pub proof fn law_logs_show_fields(
    login: Seq<char>,
    passwd: Seq<char>,
    room: Seq<char>,
    message: Seq<char>,
    cursor: u64,
)
    ensures
        client_debug(ClientMessageView::CreateAccount { login, passwd })
            == "CreateAccount { login: "@ + quoted(login) + ", passwd: \"***\" }"@,
        client_debug(ClientMessageView::Login { login, passwd }) == "Login { login: "@ + quoted(
            login,
        ) + ", passwd: \"***\" }"@,
        client_debug(ClientMessageView::JoinRoom { room }) == "JoinRoom { room: "@ + quoted(room)
            + " }"@,
        client_debug(ClientMessageView::LeaveRoom { room }) == "LeaveRoom { room: "@ + quoted(room)
            + " }"@,
        client_debug(ClientMessageView::SendMessage { room, message }) == "SendMessage { room: "@
            + quoted(room) + ", message: "@ + quoted(message) + " }"@,
        client_debug(ClientMessageView::GetHistory { room, cursor: None })
            == "GetHistory { room: "@ + quoted(room) + ", cursor: "@ + "None"@ + " }"@,
        client_debug(ClientMessageView::GetHistory { room, cursor: Some(cursor) })
            == "GetHistory { room: "@ + quoted(room) + ", cursor: "@ + ("Some("@ + decimal(
            cursor as nat,
        ) + ")"@) + " }"@,
        client_debug(ClientMessageView::Logout) == "Logout"@,
{
}

// ── Values and what is said of them ─────────────────────────────────────

/// What is said of a client message is said of its own fields.
pub proof fn law_client_messages_are_seen(m: ClientMessage)
    ensures
        match m {
            ClientMessage::CreateAccount { login, passwd } => m@ == (
            ClientMessageView::CreateAccount { login: login@, passwd: passwd@ }),
            ClientMessage::Login { login, passwd } => m@ == (ClientMessageView::Login {
                login: login@,
                passwd: passwd@,
            }),
            ClientMessage::JoinRoom { room } => m@ == (ClientMessageView::JoinRoom {
                room: room@,
            }),
            ClientMessage::LeaveRoom { room } => m@ == (ClientMessageView::LeaveRoom {
                room: room@,
            }),
            ClientMessage::SendMessage { room, message } => m@ == (
            ClientMessageView::SendMessage { room: room@, message: message@ }),
            ClientMessage::GetHistory { room, cursor } => m@ == (ClientMessageView::GetHistory {
                room: room@,
                cursor,
            }),
            ClientMessage::Logout => m@ == ClientMessageView::Logout,
        },
{
}

/// What is said of a server message is said of its own fields, and of a list of
/// the items that stand in it.
pub proof fn law_server_messages_are_seen(m: ServerMessage, id: u64)
    ensures
        (Delivery { id, message: m })@ == (DeliveryView { id, message: m@ }),
        match m {
            ServerMessage::LoginOk { login } => m@ == (ServerMessageView::LoginOk {
                login: login@,
            }),
            ServerMessage::LoginFailed { reason } => m@ == (ServerMessageView::LoginFailed {
                reason: reason@,
            }),
            ServerMessage::AccountCreated { login } => m@ == (
            ServerMessageView::AccountCreated { login: login@ }),
            ServerMessage::AccountCreationFailed { reason } => m@ == (
            ServerMessageView::AccountCreationFailed { reason: reason@ }),
            ServerMessage::IncomingMessage { login, room, message, timestamp } => m@ == (
            ServerMessageView::IncomingMessage {
                login: login@,
                room: room@,
                message: message@,
                timestamp,
            }),
            ServerMessage::RoomList { rooms } => m@ is RoomList && m@->rooms.len() == rooms@.len()
                && forall|i: int| 0 <= i < rooms@.len() ==> #[trigger] m@->rooms[i] == rooms@[i]@,
            ServerMessage::RoomHistory { room, messages, has_more } => {
                &&& m@ is RoomHistory
                &&& m@->RoomHistory_room == room@
                &&& m@->has_more == has_more
                &&& m@->messages.len() == messages@.len()
                &&& forall|i: int|
                    0 <= i < messages@.len() ==> #[trigger] m@->messages[i] == (HistoryEntryView {
                        id: messages@[i].id,
                        login: messages@[i].login@,
                        timestamp: messages@[i].timestamp,
                        message: messages@[i].message@,
                    })
            },
            ServerMessage::LogoutOk => m@ == ServerMessageView::LogoutOk,
            ServerMessage::Error { message, code } => m@ == (ServerMessageView::Error {
                message: message@,
                code: code@,
            }),
        },
{
}

/// The reasons for which a field is refused name the field and its limit.
pub proof fn law_reasons_name_the_field(field: &'static str, max_len: usize)
    ensures
        (ProtocolError::FieldEmpty { field }).text() == field@ + " must not be empty"@,
        (ProtocolError::FieldTooLong { field, max_len }).text() == field@ + " exceeds "@ + decimal(
            max_len as nat,
        ) + " bytes"@,
        (ProtocolError::FieldControl { field }).text() == field@
            + " cannot contain control characters"@,
{
}

} // verus!
