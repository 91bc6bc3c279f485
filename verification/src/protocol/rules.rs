//! The rules of the protocol one by one: exactly which values are accepted, and
//! for what each other one is refused.

use vstd::prelude::*;
use vstd::string::*;
use vstd::utf8::encode_utf8;

use super::error::ProtocolError;
use super::frame::{frame_text, Frame};
use super::message::{ClientMessageView, HistoryEntryView, ServerMessageView};
use super::validate::{
    client_trimmed, client_verdict, create_password_verdict, entries_verdict, entry_verdict,
    has_refused_char, history_message_verdict, is_login_char, is_message_char, is_room_char,
    legacy_login_verdict, login_password_verdict, login_verdict, lowercase, message_verdict,
    room_verdict, rooms_verdict, server_verdict, text_verdict,
};
use crate::text::{
    ascii_lower, has_control, has_prefix, is_control, is_white_space, law_blank_text, trimmed,
};

verus! {

/// The number of bytes of a text in UTF-8.
pub open spec fn bytes(s: Seq<char>) -> nat {
    encode_utf8(s).len()
}

/// Whether a text holds a character that is none of those in a set.
pub open spec fn has_other_than(s: Seq<char>, allowed: spec_fn(char) -> bool) -> bool {
    exists|i: int| 0 <= i < s.len() && !allowed(#[trigger] s[i])
}

/// The letters and digits of ASCII.
pub open spec fn letter_or_digit(c: char) -> bool {
    ('a' <= c <= 'z') || ('A' <= c <= 'Z') || ('0' <= c <= '9')
}

/// Whether a character is a small letter, written small or as a capital.
pub open spec fn is_letter(c: char, small: char) -> bool {
    c == small || ('A' <= c <= 'Z' && c as int + 32 == small as int)
}

/// Whether a text begins with a word of small letters, however they are written.
pub open spec fn begins_in_any_case(s: Seq<char>, word: Seq<char>) -> bool {
    s.len() >= word.len() && forall|i: int|
        0 <= i < word.len() ==> is_letter(#[trigger] s[i], word[i])
}

/// Whether a text begins with a name that is kept for the server.
pub open spec fn is_kept_for_the_server(s: Seq<char>) -> bool {
    begins_in_any_case(s, "server"@) || begins_in_any_case(s, "system"@) || begins_in_any_case(
        s,
        "admin"@,
    ) || begins_in_any_case(s, "root"@) || begins_in_any_case(s, "anonymous"@)
}

/// Beginning with a word in any case is beginning with it in small letters.
proof fn lemma_any_case(s: Seq<char>, word: Seq<char>)
    requires
        forall|i: int| 0 <= i < word.len() ==> 'a' <= #[trigger] word[i] <= 'z',
    ensures
        begins_in_any_case(s, word) <==> has_prefix(lowercase(s), word),
{
    let low = lowercase(s);
    if s.len() >= word.len() {
        let start = low.subrange(0, word.len() as int);
        assert forall|i: int| 0 <= i < word.len() implies (is_letter(#[trigger] s[i], word[i])
            <==> start[i] == word[i]) by {
            assert('a' <= word[i] <= 'z');
            assert(start[i] == ascii_lower(s[i]));
        }
        if begins_in_any_case(s, word) {
            assert forall|i: int| 0 <= i < word.len() implies start[i] == word[i] by {
                assert(is_letter(s[i], word[i]));
            }
            assert(start =~= word);
        }
        if start == word {
            assert forall|i: int| 0 <= i < word.len() implies is_letter(
                #[trigger] s[i],
                word[i],
            ) by {
                assert(start[i] == word[i]);
            }
        }
    }
}

/// The login of a new account has 2 to 32 bytes, all of them letters, digits
/// and underscores, and begins with no name that is kept for the server.
pub proof fn law_new_logins(s: Seq<char>)
    ensures
        ({
            let odd = has_other_than(s, |c: char| letter_or_digit(c) || c == '_');
            login_verdict(s) == (if bytes(s) < 2 {
                Err(ProtocolError::LoginTooShort)
            } else if bytes(s) > 32 {
                Err(ProtocolError::LoginTooLong)
            } else if odd {
                Err(ProtocolError::LoginCharacters)
            } else if is_kept_for_the_server(s) {
                Err(ProtocolError::LoginReserved)
            } else {
                Ok(())
            })
        }),
{
    let f = |c: char| letter_or_digit(c) || c == '_';
    assert forall|c: char| #[trigger] f(c) == is_login_char(c) by {}
    if has_other_than(s, f) {
        let i = choose|i: int| 0 <= i < s.len() && !f(#[trigger] s[i]);
        assert(!is_login_char(s[i]));
    }
    if exists|i: int| 0 <= i < s.len() && !is_login_char(#[trigger] s[i]) {
        let i = choose|i: int|
            0 <= i < s.len() && !is_login_char(#[trigger] s[i]);
        assert(!f(s[i]));
    }
    reveal_strlit("server");
    reveal_strlit("system");
    reveal_strlit("admin");
    reveal_strlit("root");
    reveal_strlit("anonymous");
    lemma_any_case(s, "server"@);
    lemma_any_case(s, "system"@);
    lemma_any_case(s, "admin"@);
    lemma_any_case(s, "root"@);
    lemma_any_case(s, "anonymous"@);
}

/// The name of a room has 1 to 32 bytes, all of them letters, digits,
/// underscores and hyphens.
pub proof fn law_room_names(s: Seq<char>)
    ensures
        ({
            let odd = has_other_than(s, |c: char| letter_or_digit(c) || c == '_' || c == '-');
            room_verdict(s) == (if s.len() == 0 {
                Err(ProtocolError::RoomEmpty)
            } else if bytes(s) > 32 {
                Err(ProtocolError::RoomTooLong)
            } else if odd {
                Err(ProtocolError::RoomCharacters)
            } else {
                Ok(())
            })
        }),
{
    let f = |c: char| letter_or_digit(c) || c == '_' || c == '-';
    if has_other_than(s, f) {
        let i = choose|i: int| 0 <= i < s.len() && !f(#[trigger] s[i]);
        assert(!is_room_char(s[i]));
    }
    if exists|i: int| 0 <= i < s.len() && !is_room_char(#[trigger] s[i]) {
        let i = choose|i: int|
            0 <= i < s.len() && !is_room_char(#[trigger] s[i]);
        assert(!f(s[i]));
    }
}

/// Whether a text holds a control character, other than those that end a line
/// where these are allowed.
pub open spec fn holds_control(s: Seq<char>, lines: bool) -> bool {
    exists|i: int|
        {
            &&& 0 <= i < s.len()
            &&& #[trigger] s[i] <= '\u{1f}' || '\u{7f}' <= s[i] <= '\u{9f}'
            &&& !(lines && (s[i] == '\n' || s[i] == '\r'))
        }
}

/// Whether a text is nothing but white space.
pub open spec fn only_white_space(s: Seq<char>) -> bool {
    forall|i: int| 0 <= i < s.len() ==> is_white_space(#[trigger] s[i])
}

/// What holds a control character by one word holds one by the other.
proof fn lemma_control(s: Seq<char>)
    ensures
        holds_control(s, false) <==> has_control(s),
        holds_control(s, true) <==> has_refused_char(s),
{
    if has_control(s) {
        let i = choose|i: int| 0 <= i < s.len() && is_control(#[trigger] s[i]);
        assert(s[i] <= '\u{1f}' || '\u{7f}' <= s[i] <= '\u{9f}');
    }
    if has_refused_char(s) {
        let i = choose|i: int|
            0 <= i < s.len() && !is_message_char(#[trigger] s[i]);
        assert(s[i] <= '\u{1f}' || '\u{7f}' <= s[i] <= '\u{9f}');
    }
}

/// A chat message is not blank, has at most 4096 bytes and no control
/// characters but those that end a line. In a room's history the same holds.
pub proof fn law_chat_texts(s: Seq<char>)
    ensures
        message_verdict(s) == (if only_white_space(s) {
            Err(ProtocolError::MessageEmpty)
        } else if bytes(s) > 4096 {
            Err(ProtocolError::MessageTooLong)
        } else if holds_control(s, true) {
            Err(ProtocolError::FieldControl { field: "Message" })
        } else {
            Ok(())
        }),
        history_message_verdict(s) == (if only_white_space(s) {
            Err(ProtocolError::FieldEmpty { field: "history message" })
        } else if bytes(s) > 4096 {
            Err(ProtocolError::FieldTooLong { field: "history message", max_len: 4096 })
        } else if holds_control(s, true) {
            Err(ProtocolError::FieldControl { field: "history message" })
        } else {
            Ok(())
        }),
        history_message_verdict(s) is Ok <==> message_verdict(s) is Ok,
{
    law_blank_text(s);
    lemma_control(s);
}

/// Any other text that has to be there is not blank, has at most so many bytes
/// and no control characters.
pub proof fn law_other_texts(s: Seq<char>, field: &'static str, max_len: usize)
    ensures
        text_verdict(s, field, max_len) == (if only_white_space(s) {
            Err(ProtocolError::FieldEmpty { field })
        } else if bytes(s) > max_len {
            Err(ProtocolError::FieldTooLong { field, max_len })
        } else if holds_control(s, false) {
            Err(ProtocolError::FieldControl { field })
        } else {
            Ok(())
        }),
        legacy_login_verdict(s) == text_verdict(s, "login", 64),
{
    law_blank_text(s);
    lemma_control(s);
}

/// A password has 1 to 72 bytes and no NUL; that of a new account has 4 at
/// least.
pub proof fn law_passwords(s: Seq<char>)
    ensures
        login_password_verdict(s) == (if s.len() == 0 {
            Err(ProtocolError::PasswordEmpty)
        } else if bytes(s) > 72 {
            Err(ProtocolError::PasswordTooLong)
        } else if s.contains('\0') {
            Err(ProtocolError::PasswordNul)
        } else {
            Ok(())
        }),
        create_password_verdict(s) == (if bytes(s) < 4 {
            Err(ProtocolError::PasswordTooShort)
        } else {
            login_password_verdict(s)
        }),
{
}

/// The first of two verdicts that is a refusal, if one is.
pub open spec fn first_refusal(
    one: Result<(), ProtocolError>,
    two: Result<(), ProtocolError>,
) -> Result<(), ProtocolError> {
    match one {
        Ok(_) => two,
        Err(e) => Err(e),
    }
}

/// A client message is accepted if each of its fields is, and refused for the
/// first that is not.
pub proof fn law_client_messages(
    login: Seq<char>,
    passwd: Seq<char>,
    room: Seq<char>,
    message: Seq<char>,
    cursor: Option<u64>,
)
    ensures
        client_verdict(ClientMessageView::CreateAccount { login, passwd }) == first_refusal(
            login_verdict(login),
            create_password_verdict(passwd),
        ),
        client_verdict(ClientMessageView::Login { login, passwd }) == first_refusal(
            legacy_login_verdict(login),
            login_password_verdict(passwd),
        ),
        client_verdict(ClientMessageView::JoinRoom { room }) == room_verdict(room),
        client_verdict(ClientMessageView::LeaveRoom { room }) == room_verdict(room),
        client_verdict(ClientMessageView::GetHistory { room, cursor }) == room_verdict(room),
        client_verdict(ClientMessageView::SendMessage { room, message }) == first_refusal(
            room_verdict(room),
            message_verdict(message),
        ),
        client_verdict(ClientMessageView::Logout) is Ok,
{
}

/// Of a client message just the names of new accounts and of rooms are trimmed;
/// the login of an account, passwords, texts and cursors are kept.
pub proof fn law_names_are_trimmed(
    login: Seq<char>,
    passwd: Seq<char>,
    room: Seq<char>,
    message: Seq<char>,
    cursor: Option<u64>,
)
    ensures
        client_trimmed(ClientMessageView::CreateAccount { login, passwd }) == (
        ClientMessageView::CreateAccount { login: trimmed(login), passwd }),
        client_trimmed(ClientMessageView::Login { login, passwd }) == (ClientMessageView::Login {
            login,
            passwd,
        }),
        client_trimmed(ClientMessageView::JoinRoom { room }) == (ClientMessageView::JoinRoom {
            room: trimmed(room),
        }),
        client_trimmed(ClientMessageView::LeaveRoom { room }) == (ClientMessageView::LeaveRoom {
            room: trimmed(room),
        }),
        client_trimmed(ClientMessageView::SendMessage { room, message }) == (
        ClientMessageView::SendMessage { room: trimmed(room), message }),
        client_trimmed(ClientMessageView::GetHistory { room, cursor }) == (
        ClientMessageView::GetHistory { room: trimmed(room), cursor }),
        client_trimmed(ClientMessageView::Logout) == ClientMessageView::Logout,
{
}

/// A server message is accepted if each of its fields is, and refused for the
/// first that is not.
pub proof fn law_server_messages(
    login: Seq<char>,
    room: Seq<char>,
    message: Seq<char>,
    code: Seq<char>,
    timestamp: i64,
)
    ensures
        server_verdict(ServerMessageView::LoginOk { login }) == text_verdict(login, "login", 64),
        server_verdict(ServerMessageView::AccountCreated { login }) == text_verdict(
            login,
            "login",
            64,
        ),
        server_verdict(ServerMessageView::LoginFailed { reason: message }) == text_verdict(
            message,
            "reason",
            1024,
        ),
        server_verdict(ServerMessageView::AccountCreationFailed { reason: message })
            == text_verdict(message, "reason", 1024),
        server_verdict(ServerMessageView::Error { message, code }) == first_refusal(
            text_verdict(message, "message", 1024),
            text_verdict(code, "code", 64),
        ),
        server_verdict(ServerMessageView::LogoutOk) is Ok,
        server_verdict(ServerMessageView::IncomingMessage { login, room, message, timestamp })
            == first_refusal(
            text_verdict(login, "login", 64),
            first_refusal(
                text_verdict(room, "room", 64),
                if holds_control(message, true) {
                    Err(ProtocolError::FieldControl { field: "Message" })
                } else {
                    Ok(())
                },
            ),
        ),
{
    lemma_control(message);
}

/// A list of rooms has at most a thousand names, and each of them is accepted;
/// it is refused for the first that is not.
pub proof fn law_room_lists(rooms: Seq<Seq<char>>, i: int)
    ensures
        rooms.len() > 1000 ==> server_verdict(ServerMessageView::RoomList { rooms }) == Err::<
            (),
            ProtocolError,
        >(ProtocolError::RoomListTooLong),
        rooms.len() <= 1000 && (forall|k: int|
            0 <= k < rooms.len() ==> text_verdict(#[trigger] rooms[k], "room", 64) is Ok)
            ==> server_verdict(ServerMessageView::RoomList { rooms }) is Ok,
        rooms.len() <= 1000 && 0 <= i < rooms.len() && (forall|k: int|
            0 <= k < i ==> text_verdict(#[trigger] rooms[k], "room", 64) is Ok) && text_verdict(
            rooms[i],
            "room",
            64,
        ) is Err ==> server_verdict(ServerMessageView::RoomList { rooms }) == text_verdict(
            rooms[i],
            "room",
            64,
        ),
{
    lemma_rooms(rooms, i);
}

/// The verdict on a list is that on its first name that is refused.
proof fn lemma_rooms(rooms: Seq<Seq<char>>, i: int)
    ensures
        (forall|k: int|
            0 <= k < rooms.len() ==> text_verdict(#[trigger] rooms[k], "room", 64) is Ok)
            ==> rooms_verdict(rooms) is Ok,
        0 <= i < rooms.len() && (forall|k: int|
            0 <= k < i ==> text_verdict(#[trigger] rooms[k], "room", 64) is Ok) && text_verdict(
            rooms[i],
            "room",
            64,
        ) is Err ==> rooms_verdict(rooms) == text_verdict(rooms[i], "room", 64),
    decreases rooms.len(),
{
    if rooms.len() > 0 {
        let short = rooms.drop_last();
        lemma_rooms(short, i);
        assert(forall|k: int| 0 <= k < short.len() ==> #[trigger] short[k] == rooms[k]);
        assert(rooms.last() == rooms[rooms.len() - 1]);
    }
}

/// A page of history names its room and has at most a thousand entries, each
/// with an accepted login and an accepted message; it is refused for the first
/// that is not.
pub proof fn law_histories(
    room: Seq<char>,
    messages: Seq<HistoryEntryView>,
    has_more: bool,
    i: int,
)
    ensures
        ({
            let v = server_verdict(ServerMessageView::RoomHistory { room, messages, has_more });
            &&& text_verdict(room, "room", 64) is Err ==> v == text_verdict(room, "room", 64)
            &&& text_verdict(room, "room", 64) is Ok && messages.len() > 1000 ==> v == Err::<
                (),
                ProtocolError,
            >(ProtocolError::RoomHistoryTooLong)
            &&& text_verdict(room, "room", 64) is Ok && messages.len() <= 1000 && (forall|k: int|
                0 <= k < messages.len() ==> is_fine(#[trigger] messages[k])) ==> v is Ok
            &&& text_verdict(room, "room", 64) is Ok && messages.len() <= 1000 && 0 <= i
                < messages.len() && (forall|k: int| 0 <= k < i ==> is_fine(#[trigger] messages[k]))
                && !is_fine(messages[i]) ==> v == first_refusal(
                text_verdict(messages[i].login, "history login", 64),
                history_message_verdict(messages[i].message),
            )
        }),
{
    lemma_entries(messages, i);
}

/// Whether the login and the message of a history entry are accepted.
pub open spec fn is_fine(e: HistoryEntryView) -> bool {
    text_verdict(e.login, "history login", 64) is Ok && history_message_verdict(e.message) is Ok
}

/// The verdict on entries is that on the first that is refused.
proof fn lemma_entries(messages: Seq<HistoryEntryView>, i: int)
    ensures
        (forall|k: int| 0 <= k < messages.len() ==> is_fine(#[trigger] messages[k]))
            ==> entries_verdict(messages) is Ok,
        0 <= i < messages.len() && (forall|k: int|
            0 <= k < i ==> is_fine(#[trigger] messages[k])) && !is_fine(messages[i])
            ==> entries_verdict(messages) == entry_verdict(messages[i]),
        0 <= i < messages.len() ==> entry_verdict(messages[i]) == first_refusal(
            text_verdict(messages[i].login, "history login", 64),
            history_message_verdict(messages[i].message),
        ),
    decreases messages.len(),
{
    if messages.len() > 0 {
        let short = messages.drop_last();
        lemma_entries(short, i);
        assert(forall|k: int| 0 <= k < short.len() ==> #[trigger] short[k] == messages[k]);
        assert(messages.last() == messages[messages.len() - 1]);
    }
}

/// A text frame of at most two mebibytes carries its text; no other frame
/// carries any.
pub proof fn law_frames_carry_text(frame: Frame)
    ensures
        match frame {
            Frame::Text(text) => frame_text(frame) == (if bytes(text@) <= 2_097_152 {
                Ok(text@)
            } else {
                Err(ProtocolError::PayloadTooLong)
            }),
            Frame::Close(_) => frame_text(frame) == Err::<Seq<char>, ProtocolError>(
                ProtocolError::CloseFrame,
            ),
            Frame::Binary(_) => frame_text(frame) == Err::<Seq<char>, ProtocolError>(
                ProtocolError::BinaryFrame,
            ),
            Frame::Ping(_) => frame_text(frame) == Err::<Seq<char>, ProtocolError>(
                ProtocolError::PingFrame,
            ),
            Frame::Pong(_) => frame_text(frame) == Err::<Seq<char>, ProtocolError>(
                ProtocolError::PongFrame,
            ),
            Frame::Raw(_) => frame_text(frame) == Err::<Seq<char>, ProtocolError>(
                ProtocolError::RawFrame,
            ),
        },
{
}

} // verus!
