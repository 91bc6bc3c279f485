//! What holds of the protocol as a whole.

use vstd::prelude::*;
use vstd::string::*;

use super::debug::client_debug;
use super::json::{client_json, delivery_json, server_json};
use super::message::{
    ClientMessageView, DeliveryView, HistoryEntryView, ServerMessageView, MAX_ROOM_LEN,
};
use super::validate::{
    client_trimmed, client_verdict, entry_verdict, is_login_char, is_room_char,
    legacy_login_verdict, login_verdict, lowercase, room_verdict, server_verdict, text_verdict,
};
use crate::text::{
    has_control, has_prefix, is_blank, is_control, is_white_space, lemma_trimmed_is_trimmed,
    lemma_trimmed_keeps,
};

verus! {

/// Normalizing a client message twice is normalizing it once.
pub proof fn law_normalizing_is_idempotent(m: ClientMessageView)
    ensures
        client_trimmed(client_trimmed(m)) == client_trimmed(m),
{
    match m {
        ClientMessageView::CreateAccount { login, passwd } => lemma_trimmed_is_trimmed(login),
        ClientMessageView::JoinRoom { room } => lemma_trimmed_is_trimmed(room),
        ClientMessageView::LeaveRoom { room } => lemma_trimmed_is_trimmed(room),
        ClientMessageView::SendMessage { room, message } => lemma_trimmed_is_trimmed(room),
        ClientMessageView::GetHistory { room, cursor } => lemma_trimmed_is_trimmed(room),
        _ => {},
    }
}

/// A message that a client may send is accepted by the receiver, which leaves
/// it as it was sent.
pub proof fn law_what_is_sent_is_accepted(m: ClientMessageView)
    requires
        client_verdict(client_trimmed(m)) is Ok,
    ensures
        client_trimmed(client_trimmed(m)) == client_trimmed(m),
        client_verdict(client_trimmed(client_trimmed(m))) is Ok,
{
    law_normalizing_is_idempotent(m);
}

/// The text of a client message is never the text of a server message.
pub proof fn law_directions_are_disjoint(c: ClientMessageView, s: ServerMessageView, id: u64)
    ensures
        client_json(c) != server_json(s),
        client_json(c) != delivery_json((DeliveryView { id, message: s })),
{
    reveal_strlit("{\"CreateAccount\":{\"login\":");
    reveal_strlit("{\"Login\":{\"login\":");
    reveal_strlit("{\"JoinRoom\":{\"room\":");
    reveal_strlit("{\"LeaveRoom\":{\"room\":");
    reveal_strlit("{\"SendMessage\":{\"room\":");
    reveal_strlit("{\"GetHistory\":{\"room\":");
    reveal_strlit("\"Logout\"");
    reveal_strlit("{\"LoginOk\":{\"login\":");
    reveal_strlit("{\"LoginFailed\":{\"reason\":");
    reveal_strlit("{\"AccountCreated\":{\"login\":");
    reveal_strlit("{\"AccountCreationFailed\":{\"reason\":");
    reveal_strlit("{\"IncomingMessage\":{\"login\":");
    reveal_strlit("{\"IncomingMessage\":{\"id\":");
    reveal_strlit("{\"RoomList\":{\"rooms\":");
    reveal_strlit("{\"RoomHistory\":{\"room\":");
    reveal_strlit("\"LogoutOk\"");
    reveal_strlit("{\"Error\":{\"message\":");
    let ct = client_json(c);
    let st = server_json(s);
    let dt = delivery_json(DeliveryView { id, message: s });
    let tag = match c {
        ClientMessageView::CreateAccount { login, passwd } => 'C',
        ClientMessageView::Login { login, passwd } => 'L',
        ClientMessageView::JoinRoom { room } => 'J',
        ClientMessageView::LeaveRoom { room } => 'L',
        ClientMessageView::SendMessage { room, message } => 'S',
        ClientMessageView::GetHistory { room, cursor } => 'G',
        ClientMessageView::Logout => 'o',
    };
    assert(ct[2] == tag);
    assert(ct[7] == match c {
        ClientMessageView::Login { login, passwd } => '"',
        ClientMessageView::LeaveRoom { room } => 'R',
        _ => ct[7],
    });
    let other = match s {
        ServerMessageView::LoginOk { login } => 'L',
        ServerMessageView::LoginFailed { reason } => 'L',
        ServerMessageView::AccountCreated { login } => 'A',
        ServerMessageView::AccountCreationFailed { reason } => 'A',
        ServerMessageView::IncomingMessage { login, room, message, timestamp } => 'I',
        ServerMessageView::RoomList { rooms } => 'R',
        ServerMessageView::RoomHistory { room, messages, has_more } => 'R',
        ServerMessageView::LogoutOk => 'o',
        ServerMessageView::Error { message, code } => 'E',
    };
    assert(st[2] == other);
    assert(dt[2] == other);
    assert(st[7] == match s {
        ServerMessageView::LoginOk { login } => 'O',
        ServerMessageView::LoginFailed { reason } => 'F',
        _ => st[7],
    });
}

/// What logs show of a message does not depend on its password.
pub proof fn law_logs_hide_passwords(login: Seq<char>, one: Seq<char>, other: Seq<char>)
    ensures
        client_debug(ClientMessageView::Login { login, passwd: one }) == client_debug(
            ClientMessageView::Login { login, passwd: other },
        ),
        client_debug(ClientMessageView::CreateAccount { login, passwd: one }) == client_debug(
            ClientMessageView::CreateAccount { login, passwd: other },
        ),
{
}

/// A name made of visible ASCII characters is neither blank nor does it hold
/// control characters.
proof fn lemma_plain_name(s: Seq<char>)
    requires
        s.len() > 0,
        forall|i: int| 0 <= i < s.len() ==> is_room_char(#[trigger] s[i]),
    ensures
        !is_blank(s),
        !has_control(s),
{
    assert(!is_white_space(s[0]));
    assert(!is_white_space(s[s.len() - 1]));
    lemma_trimmed_keeps(s);
}

/// Whether a character is a visible one of ASCII or the space.
pub open spec fn is_printable(c: char) -> bool {
    ' ' <= c <= '~'
}

/// A text of printable characters that neither begins nor ends with a space
/// and is short enough can be sent in any field.
pub proof fn lemma_printable_text(s: Seq<char>, field: &'static str, max_len: usize)
    requires
        0 < s.len() <= max_len,
        forall|i: int| 0 <= i < s.len() ==> is_printable(#[trigger] s[i]),
        s[0] != ' ',
        s.last() != ' ',
    ensures
        text_verdict(s, field, max_len) is Ok,
        !has_control(s),
{
    assert(is_printable(s[0]) && is_printable(s[s.len() - 1]));
    lemma_trimmed_keeps(s);
    assert(vstd::utf8::is_ascii_chars(s)) by {
        assert forall|i: int| 0 <= i < s.len() implies s[i] as nat <= 127 by {
            assert(is_printable(s[i]));
        }
    }
    vstd::utf8::is_ascii_chars_encode_utf8(s);
    assert forall|i: int| 0 <= i < s.len() implies !is_control(#[trigger] s[i]) by {
        assert(is_printable(s[i]));
    }
}

/// The login of a new account can be used to log in, and can be displayed.
pub proof fn law_new_accounts_can_log_in(login: Seq<char>, passwd: Seq<char>)
    requires
        client_verdict(ClientMessageView::CreateAccount { login, passwd }) is Ok,
    ensures
        client_verdict(ClientMessageView::Login { login, passwd }) is Ok,
        server_verdict(ServerMessageView::LoginOk { login }) is Ok,
        server_verdict(ServerMessageView::AccountCreated { login }) is Ok,
{
    lemma_new_login_is_displayable(login);
}

/// The login of a new account keeps the rule for logins in general.
pub proof fn lemma_new_login_is_displayable(login: Seq<char>)
    requires
        login_verdict(login) is Ok,
    ensures
        legacy_login_verdict(login) is Ok,
{
    if login.len() == 0 {
        assert(login =~= Seq::empty());
        crate::text::lemma_empty_text_has_no_bytes();
    }
    assert forall|i: int| 0 <= i < login.len() implies is_room_char(#[trigger] login[i]) by {
        assert(is_login_char(login[i]));
    }
    lemma_plain_name(login);
}

/// No new account can take a name that is kept for the server, whatever the
/// case of its letters.
pub proof fn law_reserved_names_are_refused(login: Seq<char>)
    requires
        has_prefix(lowercase(login), "server"@) || has_prefix(lowercase(login), "system"@)
            || has_prefix(lowercase(login), "admin"@) || has_prefix(lowercase(login), "root"@)
            || has_prefix(lowercase(login), "anonymous"@),
    ensures
        login_verdict(login) is Err,
{
}

/// A room that can be joined can be displayed.
pub proof fn law_new_rooms_are_displayable(room: Seq<char>)
    requires
        room_verdict(room) is Ok,
    ensures
        text_verdict(room, "room", MAX_ROOM_LEN) is Ok,
{
    assert forall|i: int| 0 <= i < room.len() implies is_room_char(#[trigger] room[i]) by {}
    lemma_plain_name(room);
}

/// A message that may be sent to a room by a displayable user can be delivered
/// to the others in the room, and again from the room's history.
pub proof fn law_accepted_messages_can_be_delivered(
    id: u64,
    login: Seq<char>,
    room: Seq<char>,
    message: Seq<char>,
    timestamp: i64,
)
    requires
        legacy_login_verdict(login) is Ok,
        client_verdict(ClientMessageView::SendMessage { room, message }) is Ok,
    ensures
        server_verdict(
            ServerMessageView::IncomingMessage { login, room, message, timestamp },
        ) is Ok,
        entry_verdict((HistoryEntryView { id, login, timestamp, message })) is Ok,
{
    law_new_rooms_are_displayable(room);
}

} // verus!
