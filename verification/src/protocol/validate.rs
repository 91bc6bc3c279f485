//! What the protocol accepts: names, passwords, texts and whole messages.

use vstd::prelude::*;
use vstd::string::*;

use super::error::ProtocolError;
use super::message::{
    entries, texts, ClientMessage, ClientMessageView, HistoryEntry, HistoryEntryView,
    ServerMessage, ServerMessageView, MAX_CHAT_MESSAGE_LEN, MAX_CODE_LEN, MAX_HISTORY_ENTRIES,
    MAX_LOGIN_LEN, MAX_NEW_LOGIN_LEN, MAX_NEW_ROOM_LEN, MAX_PASSWORD_LEN, MAX_REASON_LEN,
    MAX_ROOM_LEN, MIN_LOGIN_LEN, MIN_PASSWORD_LEN,
};
use crate::text::{
    ascii_lower, byte_len, char_is_ascii_alphanumeric, char_is_control, char_to_ascii_lower,
    chars_of, has_control, has_prefix, is_ascii_alphanumeric, is_blank, is_control,
    text_has_control, text_is_blank, text_len, trim, trimmed,
};

verus! {

// ── The rules ───────────────────────────────────────────────────────────

/// The characters of a login.
pub open spec fn is_login_char(c: char) -> bool {
    is_ascii_alphanumeric(c) || c == '_'
}

/// The characters of a room name.
pub open spec fn is_room_char(c: char) -> bool {
    is_ascii_alphanumeric(c) || c == '_' || c == '-'
}

/// The characters of a chat message: all but the control characters, of which
/// only those that end a line are allowed.
pub open spec fn is_message_char(c: char) -> bool {
    !is_control(c) || c == '\n' || c == '\r'
}

/// Whether a text holds a character that a chat message may not hold.
pub open spec fn has_refused_char(s: Seq<char>) -> bool {
    exists|i: int| 0 <= i < s.len() && !is_message_char(#[trigger] s[i])
}

/// A text with its ASCII capital letters replaced by small ones.
pub open spec fn lowercase(s: Seq<char>) -> Seq<char> {
    s.map_values(|c: char| ascii_lower(c))
}

/// Whether a login begins, whatever its case, with a name kept for the server.
pub open spec fn is_reserved_login(s: Seq<char>) -> bool {
    ||| has_prefix(lowercase(s), "server"@)
    ||| has_prefix(lowercase(s), "system"@)
    ||| has_prefix(lowercase(s), "admin"@)
    ||| has_prefix(lowercase(s), "root"@)
    ||| has_prefix(lowercase(s), "anonymous"@)
}

/// The rule for the login of a new account.
pub open spec fn login_verdict(s: Seq<char>) -> Result<(), ProtocolError> {
    if byte_len(s) < MIN_LOGIN_LEN {
        Err(ProtocolError::LoginTooShort)
    } else if byte_len(s) > MAX_NEW_LOGIN_LEN {
        Err(ProtocolError::LoginTooLong)
    } else if exists|i: int| 0 <= i < s.len() && !is_login_char(#[trigger] s[i]) {
        Err(ProtocolError::LoginCharacters)
    } else if is_reserved_login(s) {
        Err(ProtocolError::LoginReserved)
    } else {
        Ok(())
    }
}

/// The rule for the name of a room.
pub open spec fn room_verdict(s: Seq<char>) -> Result<(), ProtocolError> {
    if s.len() == 0 {
        Err(ProtocolError::RoomEmpty)
    } else if byte_len(s) > MAX_NEW_ROOM_LEN {
        Err(ProtocolError::RoomTooLong)
    } else if exists|i: int| 0 <= i < s.len() && !is_room_char(#[trigger] s[i]) {
        Err(ProtocolError::RoomCharacters)
    } else {
        Ok(())
    }
}

/// The rule for a chat message.
pub open spec fn message_verdict(s: Seq<char>) -> Result<(), ProtocolError> {
    if is_blank(s) {
        Err(ProtocolError::MessageEmpty)
    } else if byte_len(s) > MAX_CHAT_MESSAGE_LEN {
        Err(ProtocolError::MessageTooLong)
    } else if has_refused_char(s) {
        Err(ProtocolError::FieldControl { field: "Message" })
    } else {
        Ok(())
    }
}

/// The rule for a password at login.
pub open spec fn login_password_verdict(s: Seq<char>) -> Result<(), ProtocolError> {
    if s.len() == 0 {
        Err(ProtocolError::PasswordEmpty)
    } else if byte_len(s) > MAX_PASSWORD_LEN {
        Err(ProtocolError::PasswordTooLong)
    } else if s.contains('\0') {
        Err(ProtocolError::PasswordNul)
    } else {
        Ok(())
    }
}

/// The rule for the password of a new account.
pub open spec fn create_password_verdict(s: Seq<char>) -> Result<(), ProtocolError> {
    if byte_len(s) < MIN_PASSWORD_LEN {
        Err(ProtocolError::PasswordTooShort)
    } else {
        login_password_verdict(s)
    }
}

/// The rule for a text that has to be there: not blank, at most `max_len`
/// bytes, no control characters.
pub open spec fn text_verdict(s: Seq<char>, field: &'static str, max_len: usize) -> Result<
    (),
    ProtocolError,
> {
    if is_blank(s) {
        Err(ProtocolError::FieldEmpty { field })
    } else if byte_len(s) > max_len {
        Err(ProtocolError::FieldTooLong { field, max_len })
    } else if has_control(s) {
        Err(ProtocolError::FieldControl { field })
    } else {
        Ok(())
    }
}

/// The rule for the chat message of a history entry.
pub open spec fn history_message_verdict(s: Seq<char>) -> Result<(), ProtocolError> {
    if is_blank(s) {
        Err(ProtocolError::FieldEmpty { field: "history message" })
    } else if byte_len(s) > MAX_CHAT_MESSAGE_LEN {
        Err(
            ProtocolError::FieldTooLong {
                field: "history message",
                max_len: MAX_CHAT_MESSAGE_LEN,
            },
        )
    } else if has_refused_char(s) {
        Err(ProtocolError::FieldControl { field: "history message" })
    } else {
        Ok(())
    }
}

/// The rule for a login at authentication. Accounts older than the rule for
/// new ones can still log in.
pub open spec fn legacy_login_verdict(s: Seq<char>) -> Result<(), ProtocolError> {
    text_verdict(s, "login", MAX_LOGIN_LEN)
}

/// The first of two verdicts that refuses, if one does.
pub open spec fn both(
    first: Result<(), ProtocolError>,
    second: Result<(), ProtocolError>,
) -> Result<(), ProtocolError> {
    if first is Err {
        first
    } else {
        second
    }
}

/// A client message with the white space around the names trimmed. The login
/// of a `Login` is kept as it is: a stored name may have such white space.
pub open spec fn client_trimmed(m: ClientMessageView) -> ClientMessageView {
    match m {
        ClientMessageView::CreateAccount { login, passwd } => ClientMessageView::CreateAccount {
            login: trimmed(login),
            passwd,
        },
        ClientMessageView::Login { login, passwd } => m,
        ClientMessageView::JoinRoom { room } => ClientMessageView::JoinRoom {
            room: trimmed(room),
        },
        ClientMessageView::LeaveRoom { room } => ClientMessageView::LeaveRoom {
            room: trimmed(room),
        },
        ClientMessageView::SendMessage { room, message } => ClientMessageView::SendMessage {
            room: trimmed(room),
            message,
        },
        ClientMessageView::GetHistory { room, cursor } => ClientMessageView::GetHistory {
            room: trimmed(room),
            cursor,
        },
        ClientMessageView::Logout => m,
    }
}

/// The rules for a client message.
pub open spec fn client_verdict(m: ClientMessageView) -> Result<(), ProtocolError> {
    match m {
        ClientMessageView::CreateAccount { login, passwd } => both(
            login_verdict(login),
            create_password_verdict(passwd),
        ),
        ClientMessageView::Login { login, passwd } => both(
            legacy_login_verdict(login),
            login_password_verdict(passwd),
        ),
        ClientMessageView::JoinRoom { room } => room_verdict(room),
        ClientMessageView::LeaveRoom { room } => room_verdict(room),
        ClientMessageView::SendMessage { room, message } => both(
            room_verdict(room),
            message_verdict(message),
        ),
        ClientMessageView::GetHistory { room, cursor } => room_verdict(room),
        ClientMessageView::Logout => Ok(()),
    }
}

/// The rules for an entry of a room's history.
pub open spec fn entry_verdict(e: HistoryEntryView) -> Result<(), ProtocolError> {
    both(
        text_verdict(e.login, "history login", MAX_LOGIN_LEN),
        history_message_verdict(e.message),
    )
}

/// The verdict on the first room name that is refused, if one is.
pub open spec fn rooms_verdict(rooms: Seq<Seq<char>>) -> Result<(), ProtocolError>
    decreases rooms.len(),
{
    if rooms.len() == 0 {
        Ok(())
    } else {
        both(rooms_verdict(rooms.drop_last()), text_verdict(rooms.last(), "room", MAX_ROOM_LEN))
    }
}

/// The verdict on the first history entry that is refused, if one is.
pub open spec fn entries_verdict(messages: Seq<HistoryEntryView>) -> Result<(), ProtocolError>
    decreases messages.len(),
{
    if messages.len() == 0 {
        Ok(())
    } else {
        both(entries_verdict(messages.drop_last()), entry_verdict(messages.last()))
    }
}

/// The rules for a server message.
pub open spec fn server_verdict(m: ServerMessageView) -> Result<(), ProtocolError> {
    match m {
        ServerMessageView::LoginOk { login } => text_verdict(login, "login", MAX_LOGIN_LEN),
        ServerMessageView::AccountCreated { login } => text_verdict(login, "login", MAX_LOGIN_LEN),
        ServerMessageView::LoginFailed { reason } => text_verdict(
            reason,
            "reason",
            MAX_REASON_LEN,
        ),
        ServerMessageView::AccountCreationFailed { reason } => text_verdict(
            reason,
            "reason",
            MAX_REASON_LEN,
        ),
        ServerMessageView::IncomingMessage { login, room, message, timestamp } => both(
            text_verdict(login, "login", MAX_LOGIN_LEN),
            both(
                text_verdict(room, "room", MAX_ROOM_LEN),
                if has_refused_char(message) {
                    Err(ProtocolError::FieldControl { field: "Message" })
                } else {
                    Ok(())
                },
            ),
        ),
        ServerMessageView::RoomList { rooms } => if rooms.len() > MAX_HISTORY_ENTRIES {
            Err(ProtocolError::RoomListTooLong)
        } else {
            rooms_verdict(rooms)
        },
        ServerMessageView::RoomHistory { room, messages, has_more } => both(
            text_verdict(room, "room", MAX_ROOM_LEN),
            if messages.len() > MAX_HISTORY_ENTRIES {
                Err(ProtocolError::RoomHistoryTooLong)
            } else {
                entries_verdict(messages)
            },
        ),
        ServerMessageView::LogoutOk => Ok(()),
        ServerMessageView::Error { message, code } => both(
            text_verdict(message, "message", MAX_REASON_LEN),
            text_verdict(code, "code", MAX_CODE_LEN),
        ),
    }
}

// ── Fields ──────────────────────────────────────────────────────────────

pub fn validate_non_empty(value: &str, field: &'static str) -> (r: Result<(), ProtocolError>)
    ensures
        r == (if is_blank(value@) {
            Err(ProtocolError::FieldEmpty { field })
        } else {
            Ok(())
        }),
{
    if text_is_blank(value) {
        return Err(ProtocolError::FieldEmpty { field });
    }
    Ok(())
}

pub fn validate_len(value: &str, field: &'static str, max_len: usize) -> (r: Result<
    (),
    ProtocolError,
>)
    ensures
        r == (if byte_len(value@) > max_len {
            Err(ProtocolError::FieldTooLong { field, max_len })
        } else {
            Ok(())
        }),
{
    if text_len(value) > max_len {
        return Err(ProtocolError::FieldTooLong { field, max_len });
    }
    Ok(())
}

pub fn validate_no_control_chars(value: &str, field: &'static str) -> (r: Result<
    (),
    ProtocolError,
>)
    ensures
        r == (if has_control(value@) {
            Err(ProtocolError::FieldControl { field })
        } else {
            Ok(())
        }),
{
    if text_has_control(value) {
        return Err(ProtocolError::FieldControl { field });
    }
    Ok(())
}

/// Whether every character of a chat message is allowed there.
fn has_only_message_chars(message: &str) -> (b: bool)
    ensures
        b == !has_refused_char(message@),
{
    let chars = chars_of(message);
    let mut i: usize = 0;
    while i < chars.len()
        invariant
            chars@ == message@,
            i <= chars.len(),
            forall|j: int| 0 <= j < i ==> is_message_char(#[trigger] message@[j]),
        decreases chars.len() - i,
    {
        if char_is_control(chars[i]) && chars[i] != '\n' && chars[i] != '\r' {
            return false;
        }
        i = i + 1;
    }
    true
}

/// Validate the characters of a chat message: no control characters but those
/// that end a line.
pub fn validate_message_chars(message: &str, field: &'static str) -> (r: Result<
    (),
    ProtocolError,
>)
    ensures
        r == (if has_refused_char(message@) {
            Err(ProtocolError::FieldControl { field })
        } else {
            Ok(())
        }),
{
    if !has_only_message_chars(message) {
        return Err(ProtocolError::FieldControl { field });
    }
    Ok(())
}

pub fn validate_required_text(value: &str, field: &'static str, max_len: usize) -> (r: Result<
    (),
    ProtocolError,
>)
    ensures
        r == text_verdict(value@, field, max_len),
{
    validate_non_empty(value, field)?;
    validate_len(value, field, max_len)?;
    validate_no_control_chars(value, field)
}

/// Whether every character of a login is allowed there.
fn has_only_login_chars(login: &str) -> (b: bool)
    ensures
        b == !(exists|i: int| 0 <= i < login@.len() && !is_login_char(#[trigger] login@[i])),
{
    let chars = chars_of(login);
    let mut i: usize = 0;
    while i < chars.len()
        invariant
            chars@ == login@,
            i <= chars.len(),
            forall|j: int| 0 <= j < i ==> is_login_char(#[trigger] login@[j]),
        decreases chars.len() - i,
    {
        if !(char_is_ascii_alphanumeric(chars[i]) || chars[i] == '_') {
            return false;
        }
        i = i + 1;
    }
    true
}

/// Whether every character of a room name is allowed there.
fn has_only_room_chars(room: &str) -> (b: bool)
    ensures
        b == !(exists|i: int| 0 <= i < room@.len() && !is_room_char(#[trigger] room@[i])),
{
    let chars = chars_of(room);
    let mut i: usize = 0;
    while i < chars.len()
        invariant
            chars@ == room@,
            i <= chars.len(),
            forall|j: int| 0 <= j < i ==> is_room_char(#[trigger] room@[j]),
        decreases chars.len() - i,
    {
        if !(char_is_ascii_alphanumeric(chars[i]) || chars[i] == '_' || chars[i] == '-') {
            return false;
        }
        i = i + 1;
    }
    true
}

/// Whether a login begins, whatever its case, with `prefix`.
fn has_lowercase_prefix(login: &str, prefix: &str) -> (b: bool)
    ensures
        b == has_prefix(lowercase(login@), prefix@),
{
    let chars = chars_of(login);
    let wanted = chars_of(prefix);
    if wanted.len() > chars.len() {
        return false;
    }
    let mut i: usize = 0;
    while i < wanted.len()
        invariant
            chars@ == login@,
            wanted@ == prefix@,
            i <= wanted.len() <= chars.len(),
            forall|j: int| 0 <= j < i ==> lowercase(login@)[j] == #[trigger] prefix@[j],
        decreases wanted.len() - i,
    {
        if char_to_ascii_lower(chars[i]) != wanted[i] {
            proof {
                let start = lowercase(login@).subrange(0, prefix@.len() as int);
                assert(start[i as int] == lowercase(login@)[i as int]);
            }
            return false;
        }
        i = i + 1;
    }
    proof {
        assert(lowercase(login@).subrange(0, prefix@.len() as int) =~= prefix@);
    }
    true
}

/// Validate the login of a new account: 2-32 bytes, ASCII letters, digits and
/// underscore, and no name kept for the server.
///
/// This validates the string exactly as provided. Callers that accept
/// surrounding whitespace should trim first or use `normalize_login`.
pub fn validate_login(login: &str) -> (r: Result<(), ProtocolError>)
    ensures
        r == login_verdict(login@),
{
    if text_len(login) < MIN_LOGIN_LEN {
        return Err(ProtocolError::LoginTooShort);
    }
    if text_len(login) > MAX_NEW_LOGIN_LEN {
        return Err(ProtocolError::LoginTooLong);
    }
    if !has_only_login_chars(login) {
        return Err(ProtocolError::LoginCharacters);
    }
    if has_lowercase_prefix(login, "server") || has_lowercase_prefix(login, "system")
        || has_lowercase_prefix(login, "admin") || has_lowercase_prefix(login, "root")
        || has_lowercase_prefix(login, "anonymous") {
        return Err(ProtocolError::LoginReserved);
    }
    Ok(())
}

/// The canonical form of the login of a new account.
pub fn normalize_login(login: &str) -> (r: Result<String, ProtocolError>)
    ensures
        match r {
            Ok(normalized) => login_verdict(trimmed(login@)) is Ok && normalized@ == trimmed(
                login@,
            ),
            Err(e) => login_verdict(trimmed(login@)) == Err::<(), ProtocolError>(e),
        },
{
    let normalized = trim(login);
    validate_login(normalized)?;
    Ok(normalized.to_owned())
}

/// Validate a login for authentication.
///
/// Login accepts stored account names that are older than the rule for new
/// ones, which `validate_login` states.
pub fn validate_legacy_login(login: &str) -> (r: Result<(), ProtocolError>)
    ensures
        r == legacy_login_verdict(login@),
{
    validate_required_text(login, "login", MAX_LOGIN_LEN)
}

/// Validate a room name: 1-32 bytes, ASCII letters, digits, underscore and hyphen.
///
/// This validates the string exactly as provided. Callers that accept
/// surrounding whitespace should trim first or use `normalize_room`.
pub fn validate_room(room: &str) -> (r: Result<(), ProtocolError>)
    ensures
        r == room_verdict(room@),
{
    if room.is_empty() {
        return Err(ProtocolError::RoomEmpty);
    }
    if text_len(room) > MAX_NEW_ROOM_LEN {
        return Err(ProtocolError::RoomTooLong);
    }
    if !has_only_room_chars(room) {
        return Err(ProtocolError::RoomCharacters);
    }
    Ok(())
}

/// The canonical form of a room name.
pub fn normalize_room(room: &str) -> (r: Result<String, ProtocolError>)
    ensures
        match r {
            Ok(normalized) => room_verdict(trimmed(room@)) is Ok && normalized@ == trimmed(room@),
            Err(e) => room_verdict(trimmed(room@)) == Err::<(), ProtocolError>(e),
        },
{
    let normalized = trim(room);
    validate_room(normalized)?;
    Ok(normalized.to_owned())
}

/// Validate a message: not empty, max 4096 bytes, no control characters but
/// line feed and carriage return.
pub fn validate_message(message: &str) -> (r: Result<(), ProtocolError>)
    ensures
        r == message_verdict(message@),
{
    if text_is_blank(message) {
        return Err(ProtocolError::MessageEmpty);
    }
    if text_len(message) > MAX_CHAT_MESSAGE_LEN {
        return Err(ProtocolError::MessageTooLong);
    }
    validate_message_chars(message, "Message")
}

/// Whether a text holds a NUL character.
fn has_nul(s: &str) -> (b: bool)
    ensures
        b == s@.contains('\0'),
{
    let chars = chars_of(s);
    let mut i: usize = 0;
    while i < chars.len()
        invariant
            chars@ == s@,
            i <= chars.len(),
            forall|j: int| 0 <= j < i ==> #[trigger] s@[j] != '\0',
        decreases chars.len() - i,
    {
        if chars[i] == '\0' {
            proof {
                assert(s@[i as int] == '\0');
            }
            return true;
        }
        i = i + 1;
    }
    false
}

pub fn validate_login_password(passwd: &str) -> (r: Result<(), ProtocolError>)
    ensures
        r == login_password_verdict(passwd@),
{
    if passwd.is_empty() {
        return Err(ProtocolError::PasswordEmpty);
    }
    if text_len(passwd) > MAX_PASSWORD_LEN {
        return Err(ProtocolError::PasswordTooLong);
    }
    if has_nul(passwd) {
        return Err(ProtocolError::PasswordNul);
    }
    Ok(())
}

pub fn validate_create_password(passwd: &str) -> (r: Result<(), ProtocolError>)
    ensures
        r == create_password_verdict(passwd@),
{
    if text_len(passwd) < MIN_PASSWORD_LEN {
        return Err(ProtocolError::PasswordTooShort);
    }
    validate_login_password(passwd)
}

// ── Whole messages ──────────────────────────────────────────────────────

/// Trim the white space around a name.
pub fn normalize_required_field(value: &mut String)
    ensures
        final(value)@ == trimmed(old(value)@),
{
    let normalized = trim(value.as_str()).to_owned();
    *value = normalized;
}

/// A name without the white space around it.
pub fn normalized_text(value: &str) -> (t: String)
    ensures
        t@ == trimmed(value@),
{
    trim(value).to_owned()
}

pub fn validate_history_entry(entry: &HistoryEntry) -> (r: Result<(), ProtocolError>)
    ensures
        r == entry_verdict(entry@),
{
    validate_required_text(entry.login.as_str(), "history login", MAX_LOGIN_LEN)?;
    validate_non_empty(entry.message.as_str(), "history message")?;
    validate_len(entry.message.as_str(), "history message", MAX_CHAT_MESSAGE_LEN)?;
    validate_message_chars(entry.message.as_str(), "history message")
}

/// Validate all fields of a client message at the protocol boundary. The names
/// in it are trimmed, whether it is accepted or not.
pub fn validate_client_message(msg: &mut ClientMessage) -> (r: Result<(), ProtocolError>)
    ensures
        final(msg)@ == client_trimmed(old(msg)@),
        r == client_verdict(client_trimmed(old(msg)@)),
{
    match msg {
        ClientMessage::CreateAccount { login, passwd } => {
            normalize_required_field(login);
            validate_login(login.as_str())?;
            validate_create_password(passwd.as_str())
        },
        ClientMessage::Login { login, passwd } => {
            validate_legacy_login(login.as_str())?;
            validate_login_password(passwd.as_str())
        },
        ClientMessage::JoinRoom { room } => {
            normalize_required_field(room);
            validate_room(room.as_str())
        },
        ClientMessage::LeaveRoom { room } => {
            normalize_required_field(room);
            validate_room(room.as_str())
        },
        ClientMessage::GetHistory { room, cursor } => {
            normalize_required_field(room);
            validate_room(room.as_str())
        },
        ClientMessage::SendMessage { room, message } => {
            normalize_required_field(room);
            validate_room(room.as_str())?;
            validate_message(message.as_str())
        },
        ClientMessage::Logout => Ok(()),
    }
}

/// The form in which a client message is sent: its names trimmed, every rule kept.
pub fn normalized_client_message(message: &ClientMessage) -> (r: Result<
    ClientMessage,
    ProtocolError,
>)
    ensures
        match r {
            Ok(normalized) => client_verdict(client_trimmed(message@)) is Ok && normalized@
                == client_trimmed(message@),
            Err(e) => client_verdict(client_trimmed(message@)) == Err::<(), ProtocolError>(e),
        },
{
    match message {
        ClientMessage::CreateAccount { login, passwd } => {
            let login = normalized_text(login.as_str());
            validate_login(login.as_str())?;
            validate_create_password(passwd.as_str())?;
            Ok(ClientMessage::CreateAccount { login, passwd: passwd.clone() })
        },
        ClientMessage::Login { login, passwd } => {
            validate_legacy_login(login.as_str())?;
            validate_login_password(passwd.as_str())?;
            Ok(ClientMessage::Login { login: login.clone(), passwd: passwd.clone() })
        },
        ClientMessage::JoinRoom { room } => {
            let room = normalized_text(room.as_str());
            validate_room(room.as_str())?;
            Ok(ClientMessage::JoinRoom { room })
        },
        ClientMessage::LeaveRoom { room } => {
            let room = normalized_text(room.as_str());
            validate_room(room.as_str())?;
            Ok(ClientMessage::LeaveRoom { room })
        },
        ClientMessage::SendMessage { room, message: text } => {
            let room = normalized_text(room.as_str());
            validate_room(room.as_str())?;
            validate_message(text.as_str())?;
            Ok(ClientMessage::SendMessage { room, message: text.clone() })
        },
        ClientMessage::GetHistory { room, cursor } => {
            let room = normalized_text(room.as_str());
            validate_room(room.as_str())?;
            Ok(ClientMessage::GetHistory { room, cursor: *cursor })
        },
        ClientMessage::Logout => Ok(ClientMessage::Logout),
    }
}

/// Validate the room names of a room list, in order.
fn validate_room_names(rooms: &Vec<String>) -> (r: Result<(), ProtocolError>)
    ensures
        r == rooms_verdict(texts(rooms@)),
{
    let ghost all = texts(rooms@);
    let mut i: usize = 0;
    while i < rooms.len()
        invariant
            all == texts(rooms@),
            i <= rooms.len(),
            rooms_verdict(all.take(i as int)) is Ok,
        decreases rooms.len() - i,
    {
        proof {
            assert(all.take(i + 1).drop_last() =~= all.take(i as int));
        }
        let verdict = validate_required_text(rooms[i].as_str(), "room", MAX_ROOM_LEN);
        if verdict.is_err() {
            proof {
                lemma_rooms_verdict_prefix(all, i + 1);
            }
            return verdict;
        }
        i = i + 1;
    }
    proof {
        assert(all.take(i as int) =~= all);
    }
    Ok(())
}

/// A prefix of a room list that is refused settles the verdict on the whole.
proof fn lemma_rooms_verdict_prefix(rooms: Seq<Seq<char>>, n: int)
    requires
        0 <= n <= rooms.len(),
        rooms_verdict(rooms.take(n)) is Err,
    ensures
        rooms_verdict(rooms) == rooms_verdict(rooms.take(n)),
    decreases rooms.len(),
{
    if n == rooms.len() {
        assert(rooms.take(n) =~= rooms);
    } else {
        assert(rooms.drop_last().take(n) =~= rooms.take(n));
        lemma_rooms_verdict_prefix(rooms.drop_last(), n);
    }
}

/// Validate the entries of a room's history, in order.
fn validate_history_entries(messages: &Vec<HistoryEntry>) -> (r: Result<(), ProtocolError>)
    ensures
        r == entries_verdict(entries(messages@)),
{
    let ghost all = entries(messages@);
    let mut i: usize = 0;
    while i < messages.len()
        invariant
            all == entries(messages@),
            i <= messages.len(),
            entries_verdict(all.take(i as int)) is Ok,
        decreases messages.len() - i,
    {
        proof {
            assert(all.take(i + 1).drop_last() =~= all.take(i as int));
        }
        let verdict = validate_history_entry(&messages[i]);
        if verdict.is_err() {
            proof {
                lemma_entries_verdict_prefix(all, i + 1);
            }
            return verdict;
        }
        i = i + 1;
    }
    proof {
        assert(all.take(i as int) =~= all);
    }
    Ok(())
}

/// A prefix of a history that is refused settles the verdict on the whole.
proof fn lemma_entries_verdict_prefix(messages: Seq<HistoryEntryView>, n: int)
    requires
        0 <= n <= messages.len(),
        entries_verdict(messages.take(n)) is Err,
    ensures
        entries_verdict(messages) == entries_verdict(messages.take(n)),
    decreases messages.len(),
{
    if n == messages.len() {
        assert(messages.take(n) =~= messages);
    } else {
        assert(messages.drop_last().take(n) =~= messages.take(n));
        lemma_entries_verdict_prefix(messages.drop_last(), n);
    }
}

/// Validate all fields of a server message.
pub fn validate_server_message(message: &ServerMessage) -> (r: Result<(), ProtocolError>)
    ensures
        r == server_verdict(message@),
{
    match message {
        ServerMessage::LoginOk { login } => validate_required_text(
            login.as_str(),
            "login",
            MAX_LOGIN_LEN,
        ),
        ServerMessage::AccountCreated { login } => validate_required_text(
            login.as_str(),
            "login",
            MAX_LOGIN_LEN,
        ),
        ServerMessage::LoginFailed { reason } => validate_required_text(
            reason.as_str(),
            "reason",
            MAX_REASON_LEN,
        ),
        ServerMessage::AccountCreationFailed { reason } => validate_required_text(
            reason.as_str(),
            "reason",
            MAX_REASON_LEN,
        ),
        ServerMessage::IncomingMessage { login, room, message, timestamp: _ } => {
            validate_required_text(login.as_str(), "login", MAX_LOGIN_LEN)?;
            validate_required_text(room.as_str(), "room", MAX_ROOM_LEN)?;
            validate_message_chars(message.as_str(), "Message")
        },
        ServerMessage::RoomList { rooms } => {
            if rooms.len() > MAX_HISTORY_ENTRIES {
                return Err(ProtocolError::RoomListTooLong);
            }
            validate_room_names(rooms)
        },
        ServerMessage::RoomHistory { room, messages, has_more: _ } => {
            validate_required_text(room.as_str(), "room", MAX_ROOM_LEN)?;
            if messages.len() > MAX_HISTORY_ENTRIES {
                return Err(ProtocolError::RoomHistoryTooLong);
            }
            validate_history_entries(messages)
        },
        ServerMessage::LogoutOk => Ok(()),
        ServerMessage::Error { message, code } => {
            validate_required_text(message.as_str(), "message", MAX_REASON_LEN)?;
            validate_required_text(code.as_str(), "code", MAX_CODE_LEN)
        },
    }
}

} // verus!
