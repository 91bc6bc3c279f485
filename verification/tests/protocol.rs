use std::collections::BTreeSet;

use chatter::protocol::error::ProtocolError;
use chatter::protocol::frame::{text_payload, CloseInfo, Frame};
use chatter::protocol::json::{
    create_account, create_incoming_message, create_login, serialize_client_message,
    serialize_delivery, serialize_server_message,
};
use chatter::protocol::message::{
    ClientMessage, Delivery, HistoryEntry, ServerMessage, MAX_CHAT_MESSAGE_LEN, MAX_HISTORY_ENTRIES,
    MAX_LOGIN_LEN, MAX_NEW_LOGIN_LEN, MAX_NEW_ROOM_LEN, MAX_PASSWORD_LEN, MAX_PAYLOAD_LEN,
    MAX_REASON_LEN, MAX_ROOM_LEN, MIN_LOGIN_LEN,
};
use chatter::protocol::validate::{
    normalize_login, normalize_required_field, normalize_room, normalized_client_message,
    normalized_text, validate_client_message, validate_create_password, validate_history_entry,
    validate_legacy_login, validate_len, validate_login, validate_login_password, validate_message,
    validate_message_chars, validate_no_control_chars, validate_non_empty, validate_required_text, validate_room,
    validate_server_message,
};
use serde_json::Value;

fn text_message(json: &str) -> Frame {
    Frame::Text(json.to_string())
}

/// The only key of an object and the object under it, if it has these fields
/// and no others.
fn variant<'a>(value: &'a Value, tag: &str, fields: &[&str]) -> Option<&'a serde_json::Map<String, Value>> {
    let outer = value.as_object()?;
    if outer.len() != 1 {
        return None;
    }
    let inner = outer.get(tag)?.as_object()?;
    if inner.len() != fields.len() || fields.iter().any(|f| !inner.contains_key(*f)) {
        return None;
    }
    Some(inner)
}

fn text(map: &serde_json::Map<String, Value>, field: &str) -> Option<String> {
    map.get(field)?.as_str().map(|s| s.to_string())
}

fn decode_client(json: &str) -> Option<ClientMessage> {
    let value: Value = serde_json::from_str(json).ok()?;
    if value.as_str() == Some("Logout") {
        return Some(ClientMessage::Logout);
    }
    if let Some(m) = variant(&value, "CreateAccount", &["login", "passwd"]) {
        return Some(ClientMessage::CreateAccount {
            login: text(m, "login")?,
            passwd: text(m, "passwd")?,
        });
    }
    if let Some(m) = variant(&value, "Login", &["login", "passwd"]) {
        return Some(ClientMessage::Login {
            login: text(m, "login")?,
            passwd: text(m, "passwd")?,
        });
    }
    if let Some(m) = variant(&value, "JoinRoom", &["room"]) {
        return Some(ClientMessage::JoinRoom { room: text(m, "room")? });
    }
    if let Some(m) = variant(&value, "LeaveRoom", &["room"]) {
        return Some(ClientMessage::LeaveRoom { room: text(m, "room")? });
    }
    if let Some(m) = variant(&value, "SendMessage", &["room", "message"]) {
        return Some(ClientMessage::SendMessage {
            room: text(m, "room")?,
            message: text(m, "message")?,
        });
    }
    if let Some(m) = variant(&value, "GetHistory", &["room", "cursor"]) {
        let cursor = match m.get("cursor")? {
            Value::Null => None,
            other => Some(other.as_u64()?),
        };
        return Some(ClientMessage::GetHistory { room: text(m, "room")?, cursor });
    }
    None
}

fn decode_entry(value: &Value) -> Option<HistoryEntry> {
    let m = value.as_object()?;
    if m.len() != 4 {
        return None;
    }
    Some(HistoryEntry {
        id: m.get("id")?.as_u64()?,
        login: text(m, "login")?,
        timestamp: m.get("timestamp")?.as_i64()?,
        message: text(m, "message")?,
    })
}

fn decode_server(json: &str) -> Option<ServerMessage> {
    let value: Value = serde_json::from_str(json).ok()?;
    if value.as_str() == Some("LogoutOk") {
        return Some(ServerMessage::LogoutOk);
    }
    if let Some(m) = variant(&value, "LoginOk", &["login"]) {
        return Some(ServerMessage::LoginOk { login: text(m, "login")? });
    }
    if let Some(m) = variant(&value, "LoginFailed", &["reason"]) {
        return Some(ServerMessage::LoginFailed { reason: text(m, "reason")? });
    }
    if let Some(m) = variant(&value, "AccountCreated", &["login"]) {
        return Some(ServerMessage::AccountCreated { login: text(m, "login")? });
    }
    if let Some(m) = variant(&value, "AccountCreationFailed", &["reason"]) {
        return Some(ServerMessage::AccountCreationFailed { reason: text(m, "reason")? });
    }
    if let Some(m) = variant(
        &value,
        "IncomingMessage",
        &["login", "room", "message", "timestamp"],
    ) {
        return Some(ServerMessage::IncomingMessage {
            login: text(m, "login")?,
            room: text(m, "room")?,
            message: text(m, "message")?,
            timestamp: m.get("timestamp")?.as_i64()?,
        });
    }
    if let Some(m) = variant(&value, "RoomList", &["rooms"]) {
        let mut rooms = Vec::new();
        for room in m.get("rooms")?.as_array()? {
            rooms.push(room.as_str()?.to_string());
        }
        return Some(ServerMessage::RoomList { rooms });
    }
    if let Some(m) = variant(&value, "RoomHistory", &["room", "messages", "has_more"]) {
        let mut messages = Vec::new();
        for entry in m.get("messages")?.as_array()? {
            messages.push(decode_entry(entry)?);
        }
        return Some(ServerMessage::RoomHistory {
            room: text(m, "room")?,
            messages,
            has_more: m.get("has_more")?.as_bool()?,
        });
    }
    if let Some(m) = variant(&value, "Error", &["message", "code"]) {
        return Some(ServerMessage::Error {
            message: text(m, "message")?,
            code: text(m, "code")?,
        });
    }
    None
}

/// Read a frame as the server does: its text, its message, then the rules.
fn parse_client_message(frame: Frame) -> Result<ClientMessage, String> {
    let payload = text_payload(frame).map_err(|e| e.to_string())?;
    let mut message = decode_client(&payload).ok_or_else(|| "not a client message".to_string())?;
    validate_client_message(&mut message).map_err(|e| e.to_string())?;
    Ok(message)
}

/// Read a frame as the client does.
fn parse_server_message(frame: Frame) -> Result<ServerMessage, String> {
    let payload = text_payload(frame).map_err(|e| e.to_string())?;
    let message = decode_server(&payload).ok_or_else(|| "not a server message".to_string())?;
    validate_server_message(&message).map_err(|e| e.to_string())?;
    Ok(message)
}

fn all_client_messages() -> Vec<ClientMessage> {
    vec![
        ClientMessage::CreateAccount {
            login: "alice".to_string(),
            passwd: "password123".to_string(),
        },
        ClientMessage::Login {
            login: "alice".to_string(),
            passwd: "password123".to_string(),
        },
        ClientMessage::JoinRoom { room: "general".to_string() },
        ClientMessage::LeaveRoom { room: "general".to_string() },
        ClientMessage::SendMessage {
            room: "general".to_string(),
            message: "Hello from the client".to_string(),
        },
        ClientMessage::GetHistory { room: "general".to_string(), cursor: None },
    ]
}

fn all_server_messages() -> Vec<ServerMessage> {
    vec![
        ServerMessage::LoginOk { login: "alice".to_string() },
        ServerMessage::LoginFailed { reason: "invalid credentials".to_string() },
        ServerMessage::AccountCreated { login: "alice".to_string() },
        ServerMessage::AccountCreationFailed { reason: "login already exists".to_string() },
        ServerMessage::IncomingMessage {
            login: "alice".to_string(),
            room: "general".to_string(),
            message: "Hello from the server".to_string(),
            timestamp: 1_735_732_800,
        },
        ServerMessage::RoomList {
            rooms: vec!["general".to_string(), "random".to_string()],
        },
        ServerMessage::RoomHistory {
            room: "general".to_string(),
            messages: vec![HistoryEntry {
                id: 1,
                login: "alice".to_string(),
                timestamp: 1_735_732_800,
                message: "Hello".to_string(),
            }],
            has_more: false,
        },
        ServerMessage::Error {
            message: "Something went wrong".to_string(),
            code: "GENERAL".to_string(),
        },
    ]
}

fn object_payload<'a>(value: &'a Value, tag: &str) -> &'a serde_json::Map<String, Value> {
    value.get(tag).and_then(Value::as_object).unwrap()
}

fn serialized_tag(json: &str) -> String {
    let value: Value = serde_json::from_str(json).unwrap();
    value.as_object().unwrap().keys().next().unwrap().clone()
}

fn json_string(s: &str) -> Value {
    Value::String(s.to_string())
}

#[test]
fn validate_login_rejects_too_short() {
    assert!(validate_login("a").is_err());
}

#[test]
fn validate_login_rejects_too_long() {
    let login = "a".repeat(MAX_NEW_LOGIN_LEN + 1);

    assert!(validate_login(&login).is_err());
}

#[test]
fn validate_login_rejects_non_ascii_cyrillic() {
    assert!(validate_login("алиса").is_err());
}

#[test]
fn validate_login_rejects_reserved_server() {
    assert!(validate_login("Server").is_err());
    assert!(validate_login("server").is_err());
    assert!(validate_login("Server_").is_err());
    assert!(validate_login("SERVER1").is_err());
    assert!(validate_login("system").is_err());
    assert!(validate_login("admin").is_err());
    assert!(validate_login("root").is_err());
    assert!(validate_login("anonymous").is_err());
}

#[test]
fn validate_login_rejects_untrimmed_ascii_identifier() {
    assert!(validate_login(" alice_42 ").is_err());
}

#[test]
fn normalize_login_trims_ascii_identifier() {
    assert_eq!(normalize_login(" alice_42 ").unwrap(), "alice_42");
}

#[test]
fn validate_login_accepts_boundaries() {
    assert!(validate_login(&"a".repeat(MIN_LOGIN_LEN)).is_ok());
    assert!(validate_login(&"a".repeat(MAX_NEW_LOGIN_LEN)).is_ok());
}

#[test]
fn validate_room_rejects_empty() {
    assert!(validate_room("").is_err());
    assert!(validate_room("   ").is_err());
}

#[test]
fn validate_room_rejects_too_long() {
    let room = "a".repeat(MAX_NEW_ROOM_LEN + 1);

    assert!(validate_room(&room).is_err());
}

#[test]
fn validate_room_rejects_untrimmed_ascii_name() {
    assert!(validate_room(" general-room_1 ").is_err());
}

#[test]
fn normalize_room_trims_ascii_name() {
    assert_eq!(normalize_room(" general-room_1 ").unwrap(), "general-room_1");
}

#[test]
fn validate_room_accepts_boundary() {
    assert!(validate_room(&"a".repeat(MAX_NEW_ROOM_LEN)).is_ok());
}

#[test]
fn validate_message_rejects_empty() {
    assert!(validate_message("").is_err());
    assert!(validate_message(" \n\t ").is_err());
}

#[test]
fn validate_message_rejects_too_long() {
    let message = "a".repeat(MAX_CHAT_MESSAGE_LEN + 1);

    assert!(validate_message(&message).is_err());
}

#[test]
fn validate_message_accepts_boundary() {
    let message = "a".repeat(MAX_CHAT_MESSAGE_LEN);

    assert!(validate_message(&message).is_ok());
}

#[test]
fn validate_message_rejects_control_characters() {
    assert!(validate_message("hello\u{1b}[2J").is_err());
    assert!(validate_message("hello\u{7}").is_err());
}

#[test]
fn validate_client_message_trims_create_account_login_and_room() {
    let mut create_msg = ClientMessage::CreateAccount {
        login: " alice_1 ".to_string(),
        passwd: "password123".to_string(),
    };
    let mut room_msg = ClientMessage::SendMessage {
        room: " general-room ".to_string(),
        message: "hello".to_string(),
    };

    validate_client_message(&mut create_msg).unwrap();
    validate_client_message(&mut room_msg).unwrap();

    assert!(
        create_msg
            == ClientMessage::CreateAccount {
                login: "alice_1".to_string(),
                passwd: "password123".to_string(),
            }
    );
    assert!(
        room_msg
            == ClientMessage::SendMessage {
                room: "general-room".to_string(),
                message: "hello".to_string(),
            }
    );
}

#[test]
fn validate_client_message_preserves_legacy_login() {
    let mut login_msg = ClientMessage::Login {
        login: " alice ".to_string(),
        passwd: "x".to_string(),
    };

    validate_client_message(&mut login_msg).unwrap();

    assert!(
        login_msg
            == ClientMessage::Login {
                login: " alice ".to_string(),
                passwd: "x".to_string(),
            }
    );
}

#[test]
fn client_login_round_trips() {
    let msg = ClientMessage::Login {
        login: "alice".to_string(),
        passwd: "password123".to_string(),
    };

    let json = serialize_client_message(&msg).unwrap();
    let decoded = decode_client(&json).unwrap();

    assert!(decoded == msg);
}

#[test]
fn client_debug_redacts_passwords() {
    let msg = ClientMessage::Login {
        login: "alice".to_string(),
        passwd: "password123".to_string(),
    };
    let debug = msg.debug_string();

    assert!(debug.contains("Login"));
    assert!(debug.contains("alice"));
    assert!(debug.contains("***"));
    assert!(!debug.contains("password123"));
}

#[test]
fn client_create_account_round_trips() {
    let msg = ClientMessage::CreateAccount {
        login: "bob".to_string(),
        passwd: "secret".to_string(),
    };

    let json = serialize_client_message(&msg).unwrap();
    let decoded = decode_client(&json).unwrap();

    assert!(decoded == msg);
    assert!(!decoded.debug_string().contains("secret"));
}

#[test]
fn client_join_room_has_no_login_field() {
    let msg = ClientMessage::JoinRoom { room: "general".to_string() };

    let json = serialize_client_message(&msg).unwrap();
    let decoded = decode_client(&json).unwrap();
    let value: Value = serde_json::from_str(&json).unwrap();
    let payload = object_payload(&value, "JoinRoom");

    assert!(decoded == msg);
    assert_eq!(payload.get("room"), Some(&json_string("general")));
    assert!(payload.get("login").is_none());
}

#[test]
fn client_leave_room_has_no_login_field() {
    let msg = ClientMessage::LeaveRoom { room: "general".to_string() };

    let json = serialize_client_message(&msg).unwrap();
    let decoded = decode_client(&json).unwrap();
    let value: Value = serde_json::from_str(&json).unwrap();
    let payload = object_payload(&value, "LeaveRoom");

    assert!(decoded == msg);
    assert_eq!(payload.get("room"), Some(&json_string("general")));
    assert!(payload.get("login").is_none());
}

#[test]
fn client_send_message_json_object_has_no_login_field() {
    let msg = ClientMessage::SendMessage {
        room: "general".to_string(),
        message: "Hello world!".to_string(),
    };

    let json = serialize_client_message(&msg).unwrap();
    let decoded = decode_client(&json).unwrap();
    let value: Value = serde_json::from_str(&json).unwrap();
    let payload = object_payload(&value, "SendMessage");

    assert!(decoded == msg);
    assert_eq!(payload.get("room"), Some(&json_string("general")));
    assert_eq!(payload.get("message"), Some(&json_string("Hello world!")));
    assert!(payload.get("login").is_none());
}

#[test]
fn client_get_history_round_trips() {
    let msg = ClientMessage::GetHistory { room: "general".to_string(), cursor: None };

    let json = serialize_client_message(&msg).unwrap();
    let decoded = decode_client(&json).unwrap();

    assert!(decoded == msg);
}

#[test]
fn serialized_messages_reject_opposite_direction_enum() {
    for client_msg in all_client_messages() {
        let json = serialize_client_message(&client_msg).unwrap();

        assert!(decode_server(&json).is_none());
    }

    for server_msg in all_server_messages() {
        let json = serialize_server_message(&server_msg).unwrap();

        assert!(decode_client(&json).is_none());
    }
}

#[test]
fn serialized_client_and_server_tags_are_disjoint() {
    let client_tags: BTreeSet<_> = all_client_messages()
        .iter()
        .map(|message| serialized_tag(&serialize_client_message(message).unwrap()))
        .collect();
    let server_tags: BTreeSet<_> = all_server_messages()
        .iter()
        .map(|message| serialized_tag(&serialize_server_message(message).unwrap()))
        .collect();

    assert!(client_tags.is_disjoint(&server_tags));
}

fn server_round_trip(msg: ServerMessage) {
    let json = serialize_server_message(&msg).unwrap();
    let decoded = decode_server(&json).unwrap();

    assert_eq!(decoded, msg);
}

#[test]
fn server_login_ok_round_trips() {
    server_round_trip(ServerMessage::LoginOk { login: "alice".to_string() });
}

#[test]
fn server_login_failed_round_trips() {
    server_round_trip(ServerMessage::LoginFailed {
        reason: "invalid credentials".to_string(),
    });
}

#[test]
fn server_account_created_round_trips() {
    server_round_trip(ServerMessage::AccountCreated { login: "bob".to_string() });
}

#[test]
fn server_account_creation_failed_round_trips() {
    server_round_trip(ServerMessage::AccountCreationFailed {
        reason: "login already exists".to_string(),
    });
}

#[test]
fn server_incoming_message_round_trips() {
    server_round_trip(ServerMessage::IncomingMessage {
        login: "bob".to_string(),
        room: "random".to_string(),
        message: "Hi there!".to_string(),
        timestamp: 1_735_732_800,
    });
}

#[test]
fn server_incoming_message_serializes_with_timestamp() {
    let json = create_incoming_message(
        "alice".to_string(),
        "general".to_string(),
        "hello".to_string(),
        1_700_000_000,
    )
    .unwrap();
    match decode_server(&json).unwrap() {
        ServerMessage::IncomingMessage { login, room, message, timestamp } => {
            assert_eq!(login, "alice");
            assert_eq!(room, "general");
            assert_eq!(message, "hello");
            assert_eq!(timestamp, 1_700_000_000);
        }
        _ => panic!("Expected IncomingMessage"),
    }
}

#[test]
fn server_room_list_round_trips() {
    server_round_trip(ServerMessage::RoomList {
        rooms: vec!["general".to_string(), "random".to_string()],
    });
}

#[test]
fn server_room_history_round_trips() {
    server_round_trip(ServerMessage::RoomHistory {
        room: "general".to_string(),
        messages: vec![HistoryEntry {
            id: 1,
            login: "alice".to_string(),
            timestamp: 1_735_732_800,
            message: "Hello".to_string(),
        }],
        has_more: false,
    });
}

#[test]
fn server_messages_accept_legacy_display_names() {
    let legacy_room = "r".repeat(MAX_NEW_ROOM_LEN + 1);
    let legacy_login = "алиса".to_string();
    let room_list = ServerMessage::RoomList { rooms: vec![legacy_room.clone()] };
    let history = ServerMessage::RoomHistory {
        room: legacy_room.clone(),
        messages: vec![HistoryEntry {
            id: 1,
            login: legacy_login,
            timestamp: 1_735_732_800,
            message: "legacy row".to_string(),
        }],
        has_more: false,
    };

    assert!(serialize_server_message(&room_list).is_ok());
    assert!(serialize_server_message(&history).is_ok());
}

#[test]
fn server_messages_reject_control_characters() {
    let incoming = ServerMessage::IncomingMessage {
        login: "alice".to_string(),
        room: "general".to_string(),
        message: "hello\u{1b}[2J".to_string(),
        timestamp: 1_735_732_800,
    };
    let room_list = ServerMessage::RoomList { rooms: vec!["bad\u{1b}".to_string()] };

    assert!(serialize_server_message(&incoming).is_err());
    assert!(serialize_server_message(&room_list).is_err());
}

#[test]
fn server_error_round_trips() {
    server_round_trip(ServerMessage::Error {
        message: "Something went wrong".to_string(),
        code: "GENERAL".to_string(),
    });
}

#[test]
fn parse_client_message_parses_text_frame() {
    let result = parse_client_message(text_message(
        r#"{"Login":{"login":"alice","passwd":"password123"}}"#,
    ));

    assert!(
        result.unwrap()
            == ClientMessage::Login {
                login: "alice".to_string(),
                passwd: "password123".to_string(),
            }
    );
}

#[test]
fn parse_client_message_accepts_legacy_login_names() {
    for login in ["алиса", "a", "Server"] {
        let json = format!(r#"{{"Login":{{"login":"{login}","passwd":"x"}}}}"#);
        assert!(parse_client_message(text_message(&json)).is_ok());
    }

    let long_login = "a".repeat(MAX_NEW_LOGIN_LEN + 1);
    let json = format!(r#"{{"Login":{{"login":"{long_login}","passwd":"x"}}}}"#);
    assert!(parse_client_message(text_message(&json)).is_ok());
}

#[test]
fn parse_client_message_rejects_strict_create_account_violations() {
    let short_password = parse_client_message(text_message(
        r#"{"CreateAccount":{"login":"alice","passwd":"x"}}"#,
    ));
    let legacy_login = parse_client_message(text_message(
        r#"{"CreateAccount":{"login":"алиса","passwd":"password123"}}"#,
    ));

    assert!(short_password.is_err());
    assert!(legacy_login.is_err());
}

#[test]
fn parse_client_message_rejects_nul_passwords() {
    let login = parse_client_message(text_message(
        r#"{"Login":{"login":"alice","passwd":"abc\u0000"}}"#,
    ));
    let create_account = parse_client_message(text_message(
        r#"{"CreateAccount":{"login":"alice","passwd":"abc\u0000"}}"#,
    ));

    assert!(login.is_err());
    assert!(create_account.is_err());
}

#[test]
fn serialize_client_message_emits_normalized_json() {
    let create_msg = ClientMessage::CreateAccount {
        login: " alice ".to_string(),
        passwd: "password123".to_string(),
    };
    let room_msg = ClientMessage::SendMessage {
        room: " general ".to_string(),
        message: "hello".to_string(),
    };

    let create_json = serialize_client_message(&create_msg).unwrap();
    let room_json = serialize_client_message(&room_msg).unwrap();

    let create_value: Value = serde_json::from_str(&create_json).unwrap();
    let room_value: Value = serde_json::from_str(&room_json).unwrap();
    assert_eq!(
        object_payload(&create_value, "CreateAccount").get("login"),
        Some(&json_string("alice"))
    );
    assert_eq!(
        object_payload(&room_value, "SendMessage").get("room"),
        Some(&json_string("general"))
    );
}

#[test]
fn parse_client_message_rejects_empty_fields() {
    assert!(parse_client_message(text_message(r#"{"Login":{"login":"","passwd":"x"}}"#)).is_err());
    assert!(
        parse_client_message(text_message(r#"{"Login":{"login":"alice","passwd":""}}"#)).is_err()
    );
    assert!(parse_client_message(text_message(r#"{"JoinRoom":{"room":""}}"#)).is_err());
    assert!(
        parse_client_message(text_message(r#"{"SendMessage":{"room":"general","message":""}}"#))
            .is_err()
    );
}

#[test]
fn parse_client_message_rejects_passwords_over_bcrypt_limit() {
    let password = "x".repeat(MAX_PASSWORD_LEN + 1);
    let json = format!(r#"{{"Login":{{"login":"alice","passwd":"{password}"}}}}"#);

    assert!(parse_client_message(text_message(&json)).is_err());
}

#[test]
fn parse_client_message_rejects_oversized_payload() {
    let oversized = "x".repeat(MAX_PAYLOAD_LEN + 1);
    let result = parse_client_message(Frame::Text(oversized.clone()));

    assert!(result.is_err());
    assert_eq!(
        text_payload(Frame::Text(oversized)),
        Err(ProtocolError::PayloadTooLong)
    );
}

#[test]
fn parse_client_message_rejects_non_text_frame() {
    assert!(parse_client_message(Frame::Ping(Vec::new())).is_err());
    assert!(parse_client_message(Frame::Binary(Vec::new())).is_err());
    assert!(parse_client_message(Frame::Close(None)).is_err());
}

#[test]
fn parse_client_close_has_distinct_error() {
    let error = parse_client_message(Frame::Close(None)).map(|_| ()).unwrap_err();

    assert!(error.contains("close frame"));
}

#[test]
fn parse_server_message_parses_text_frame() {
    let result = parse_server_message(text_message(
        r#"{"IncomingMessage":{"login":"alice","room":"general","message":"Hi!","timestamp":0}}"#,
    ));

    assert_eq!(
        result.unwrap(),
        ServerMessage::IncomingMessage {
            login: "alice".to_string(),
            room: "general".to_string(),
            message: "Hi!".to_string(),
            timestamp: 0,
        }
    );
}

#[test]
fn parse_server_message_rejects_control_characters() {
    let result = parse_server_message(text_message(
        r#"{"IncomingMessage":{"login":"alice","room":"general","message":"Hi\u001b[2J"}}"#,
    ));
    let complete = parse_server_message(text_message(
        r#"{"IncomingMessage":{"login":"alice","room":"general","message":"Hi\u001b[2J","timestamp":0}}"#,
    ));

    assert!(result.is_err());
    assert_eq!(
        complete.unwrap_err(),
        "Message cannot contain control characters"
    );
}

#[test]
fn create_login_serializes_client_message() {
    let json = create_login("alice".to_string(), "password123".to_string()).unwrap();

    assert!(
        decode_client(&json).unwrap()
            == ClientMessage::Login {
                login: "alice".to_string(),
                passwd: "password123".to_string(),
            }
    );
}

#[test]
fn create_account_serializes_client_message() {
    let json = create_account("bob".to_string(), "secret".to_string()).unwrap();

    assert!(
        decode_client(&json).unwrap()
            == ClientMessage::CreateAccount {
                login: "bob".to_string(),
                passwd: "secret".to_string(),
            }
    );
}

#[test]
fn create_login_round_trips_through_parse_client_message() {
    let json = create_login("alice".to_string(), "password123".to_string()).unwrap();
    let decoded = parse_client_message(Frame::Text(json)).unwrap();

    assert!(
        decoded
            == ClientMessage::Login {
                login: "alice".to_string(),
                passwd: "password123".to_string(),
            }
    );
}

#[test]
fn create_account_round_trips_through_parse_client_message() {
    let json = create_account("bob".to_string(), "secret".to_string()).unwrap();
    let decoded = parse_client_message(Frame::Text(json)).unwrap();

    assert!(
        decoded
            == ClientMessage::CreateAccount {
                login: "bob".to_string(),
                passwd: "secret".to_string(),
            }
    );
}

#[test]
fn client_message_clone_preserves_value() {
    let msg = ClientMessage::SendMessage {
        room: "general".to_string(),
        message: "Hello".to_string(),
    };

    assert!(msg.clone() == msg);
}

#[test]
fn server_message_debug_includes_variant_name() {
    let msg = ServerMessage::Error {
        message: "test error".to_string(),
        code: "GENERAL".to_string(),
    };

    assert!(format!("{msg:?}").contains("Error"));
}

// Exact texts, each refusal, and the laws on concrete values.

#[test]
fn client_texts_are_exact() {
    let texts: Vec<String> = all_client_messages()
        .iter()
        .map(|m| serialize_client_message(m).unwrap())
        .collect();
    assert_eq!(
        texts,
        vec![
            r#"{"CreateAccount":{"login":"alice","passwd":"password123"}}"#,
            r#"{"Login":{"login":"alice","passwd":"password123"}}"#,
            r#"{"JoinRoom":{"room":"general"}}"#,
            r#"{"LeaveRoom":{"room":"general"}}"#,
            r#"{"SendMessage":{"room":"general","message":"Hello from the client"}}"#,
            r#"{"GetHistory":{"room":"general","cursor":null}}"#,
        ]
    );
    let paged = ClientMessage::GetHistory { room: "general".to_string(), cursor: Some(42) };
    assert_eq!(
        serialize_client_message(&paged).unwrap(),
        r#"{"GetHistory":{"room":"general","cursor":42}}"#
    );
    assert_eq!(
        serialize_client_message(&ClientMessage::Logout).unwrap(),
        r#""Logout""#
    );
}

#[test]
fn server_texts_are_exact() {
    let texts: Vec<String> = all_server_messages()
        .iter()
        .map(|m| serialize_server_message(m).unwrap())
        .collect();
    assert_eq!(
        texts,
        vec![
            r#"{"LoginOk":{"login":"alice"}}"#,
            r#"{"LoginFailed":{"reason":"invalid credentials"}}"#,
            r#"{"AccountCreated":{"login":"alice"}}"#,
            r#"{"AccountCreationFailed":{"reason":"login already exists"}}"#,
            r#"{"IncomingMessage":{"login":"alice","room":"general","message":"Hello from the server","timestamp":1735732800}}"#,
            r#"{"RoomList":{"rooms":["general","random"]}}"#,
            r#"{"RoomHistory":{"room":"general","messages":[{"id":1,"login":"alice","timestamp":1735732800,"message":"Hello"}],"has_more":false}}"#,
            r#"{"Error":{"message":"Something went wrong","code":"GENERAL"}}"#,
        ]
    );
    assert_eq!(
        serialize_server_message(&ServerMessage::LogoutOk).unwrap(),
        r#""LogoutOk""#
    );
    assert_eq!(
        serialize_server_message(&ServerMessage::RoomList { rooms: vec![] }).unwrap(),
        r#"{"RoomList":{"rooms":[]}}"#
    );
}

#[test]
fn delivery_texts_carry_the_id() {
    let chat = Delivery {
        id: 7,
        message: ServerMessage::IncomingMessage {
            login: "bob".to_string(),
            room: "general".to_string(),
            message: "hi".to_string(),
            timestamp: -3,
        },
    };
    assert_eq!(
        serialize_delivery(&chat).unwrap(),
        r#"{"IncomingMessage":{"id":7,"login":"bob","room":"general","message":"hi","timestamp":-3}}"#
    );
    let other = Delivery { id: 7, message: ServerMessage::LogoutOk };
    assert_eq!(serialize_delivery(&other).unwrap(), r#""LogoutOk""#);
    let bad = Delivery { id: 7, message: ServerMessage::LoginOk { login: " ".to_string() } };
    assert_eq!(
        serialize_delivery(&bad),
        Err(ProtocolError::FieldEmpty { field: "login" })
    );
}

#[test]
fn string_literals_are_escaped() {
    let mut message = String::new();
    for code in 0x20u32..0x3000 {
        if let Some(c) = char::from_u32(code) {
            if !c.is_control() && message.len() < 2000 {
                message.push(c);
            }
        }
    }
    message.push_str("\"quoted\" \\ back / slash \u{1F600}");
    let m = ClientMessage::SendMessage { room: "general".to_string(), message: message.clone() };
    let json = serialize_client_message(&m).unwrap();
    assert_eq!(
        json,
        format!(
            "{{\"SendMessage\":{{\"room\":\"general\",\"message\":{}}}}}",
            serde_json::to_string(&message).unwrap()
        )
    );
    assert!(decode_client(&json).unwrap() == m);

    // A password may hold control characters other than NUL.
    let mut passwd = String::new();
    for code in 1u8..0x20 {
        passwd.push(code as char);
    }
    passwd.push_str("\"\\\u{7f}");
    let login = ClientMessage::Login { login: "alice".to_string(), passwd };
    assert_eq!(
        serialize_client_message(&login).unwrap(),
        r#"{"Login":{"login":"alice","passwd":"\u0001\u0002\u0003\u0004\u0005\u0006\u0007\b\t\n\u000b\f\r\u000e\u000f\u0010\u0011\u0012\u0013\u0014\u0015\u0016\u0017\u0018\u0019\u001a\u001b\u001c\u001d\u001e\u001f\"\\"#
            .to_string()
            + "\u{7f}\"}}"
    );
}

#[test]
fn debug_strings_are_those_of_logs() {
    let create = ClientMessage::CreateAccount {
        login: "bo\"b".to_string(),
        passwd: "hunter22".to_string(),
    };
    assert_eq!(
        create.debug_string(),
        r#"CreateAccount { login: "bo\"b", passwd: "***" }"#
    );
    let login = ClientMessage::Login { login: "al".to_string(), passwd: "one".to_string() };
    let other = ClientMessage::Login { login: "al".to_string(), passwd: "two".to_string() };
    assert_eq!(login.debug_string(), r#"Login { login: "al", passwd: "***" }"#);
    assert_eq!(login.debug_string(), other.debug_string());
    let join = ClientMessage::JoinRoom { room: "a".to_string() };
    assert_eq!(join.debug_string(), r#"JoinRoom { room: "a" }"#);
    let leave = ClientMessage::LeaveRoom { room: "a".to_string() };
    assert_eq!(leave.debug_string(), r#"LeaveRoom { room: "a" }"#);
    let send = ClientMessage::SendMessage { room: "a".to_string(), message: "b\n".to_string() };
    assert_eq!(send.debug_string(), r#"SendMessage { room: "a", message: "b\n" }"#);
    let first = ClientMessage::GetHistory { room: "a".to_string(), cursor: None };
    assert_eq!(first.debug_string(), r#"GetHistory { room: "a", cursor: None }"#);
    let next = ClientMessage::GetHistory { room: "a".to_string(), cursor: Some(9) };
    assert_eq!(next.debug_string(), r#"GetHistory { room: "a", cursor: Some(9) }"#);
    assert_eq!(ClientMessage::Logout.debug_string(), "Logout");
}

#[test]
fn messages_may_have_several_lines() {
    for text in ["hello\nworld", "hello\r\nworld", "hello\n", "\rhello"] {
        assert_eq!(validate_message(text), Ok(()));
        assert_eq!(validate_message_chars(text, "f"), Ok(()));
        let sent = ClientMessage::SendMessage {
            room: "general".to_string(),
            message: text.to_string(),
        };
        assert!(normalized_client_message(&sent) == Ok(sent.clone()));
        let incoming = ServerMessage::IncomingMessage {
            login: "alice".to_string(),
            room: "general".to_string(),
            message: text.to_string(),
            timestamp: 1,
        };
        assert_eq!(validate_server_message(&incoming), Ok(()));
        let mut entry = HistoryEntry {
            id: 1,
            login: "alice".to_string(),
            timestamp: 1,
            message: text.to_string(),
        };
        assert_eq!(validate_history_entry(&entry), Ok(()));
        entry.message.push('\t');
        assert_eq!(
            validate_history_entry(&entry),
            Err(ProtocolError::FieldControl { field: "history message" })
        );
        assert!(validate_room(text).is_err());
        assert!(validate_login(text).is_err());
        assert!(validate_legacy_login(text).is_err());
        assert!(validate_required_text(text, "reason", 100).is_err());
    }
    assert_eq!(validate_message("\r\n"), Err(ProtocolError::MessageEmpty));
    assert_eq!(
        validate_message_chars("a\u{85}", "f"),
        Err(ProtocolError::FieldControl { field: "f" })
    );
}

#[test]
fn every_refusal_of_names_and_texts() {
    assert_eq!(validate_login("a"), Err(ProtocolError::LoginTooShort));
    assert_eq!(validate_login(&"a".repeat(33)), Err(ProtocolError::LoginTooLong));
    assert_eq!(validate_login("a b"), Err(ProtocolError::LoginCharacters));
    assert_eq!(validate_login("RootBeer"), Err(ProtocolError::LoginReserved));
    assert_eq!(validate_login("anonymouse"), Err(ProtocolError::LoginReserved));
    assert_eq!(validate_login("user_root"), Ok(()));
    assert_eq!(validate_room(""), Err(ProtocolError::RoomEmpty));
    assert_eq!(validate_room(&"a".repeat(33)), Err(ProtocolError::RoomTooLong));
    assert_eq!(validate_room("a b"), Err(ProtocolError::RoomCharacters));
    assert_eq!(validate_room("a-b_c"), Ok(()));
    assert_eq!(validate_message(" "), Err(ProtocolError::MessageEmpty));
    assert_eq!(
        validate_message(&"a".repeat(4097)),
        Err(ProtocolError::MessageTooLong)
    );
    assert_eq!(
        validate_message("a\tb"),
        Err(ProtocolError::FieldControl { field: "Message" })
    );
    assert_eq!(validate_login_password(""), Err(ProtocolError::PasswordEmpty));
    assert_eq!(
        validate_login_password(&"a".repeat(73)),
        Err(ProtocolError::PasswordTooLong)
    );
    assert_eq!(validate_login_password("a\0"), Err(ProtocolError::PasswordNul));
    assert_eq!(validate_login_password("a"), Ok(()));
    assert_eq!(validate_create_password("abc"), Err(ProtocolError::PasswordTooShort));
    assert_eq!(validate_create_password("abc\0"), Err(ProtocolError::PasswordNul));
    assert_eq!(validate_create_password("abcd"), Ok(()));
    assert_eq!(
        validate_legacy_login(" "),
        Err(ProtocolError::FieldEmpty { field: "login" })
    );
    assert_eq!(
        validate_legacy_login(&"a".repeat(MAX_LOGIN_LEN + 1)),
        Err(ProtocolError::FieldTooLong { field: "login", max_len: MAX_LOGIN_LEN })
    );
    assert_eq!(
        validate_legacy_login("a\tb"),
        Err(ProtocolError::FieldControl { field: "login" })
    );
    assert_eq!(validate_non_empty("x", "f"), Ok(()));
    assert_eq!(
        validate_non_empty("\u{3000}\u{85}", "f"),
        Err(ProtocolError::FieldEmpty { field: "f" })
    );
    assert_eq!(
        validate_len("éé", "f", 3),
        Err(ProtocolError::FieldTooLong { field: "f", max_len: 3 })
    );
    assert_eq!(validate_len("éé", "f", 4), Ok(()));
    assert_eq!(
        validate_no_control_chars("\u{85}", "f"),
        Err(ProtocolError::FieldControl { field: "f" })
    );
    assert_eq!(validate_required_text("ok", "f", 2), Ok(()));
}

#[test]
fn every_refusal_of_server_messages() {
    let many: Vec<String> = vec!["r".to_string(); MAX_HISTORY_ENTRIES + 1];
    assert_eq!(
        validate_server_message(&ServerMessage::RoomList { rooms: many }),
        Err(ProtocolError::RoomListTooLong)
    );
    let entry = HistoryEntry {
        id: 1,
        login: "a".to_string(),
        timestamp: 0,
        message: "m".to_string(),
    };
    assert_eq!(validate_history_entry(&entry), Ok(()));
    let full = ServerMessage::RoomHistory {
        room: "r".to_string(),
        messages: vec![entry.clone(); MAX_HISTORY_ENTRIES + 1],
        has_more: false,
    };
    assert_eq!(
        validate_server_message(&full),
        Err(ProtocolError::RoomHistoryTooLong)
    );
    let mut bad = entry.clone();
    bad.message = "".to_string();
    let history = ServerMessage::RoomHistory {
        room: "r".to_string(),
        messages: vec![entry.clone(), bad],
        has_more: true,
    };
    assert_eq!(
        validate_server_message(&history),
        Err(ProtocolError::FieldEmpty { field: "history message" })
    );
    let room = ServerMessage::RoomList {
        rooms: vec!["ok".to_string(), "r".repeat(MAX_ROOM_LEN + 1)],
    };
    assert_eq!(
        validate_server_message(&room),
        Err(ProtocolError::FieldTooLong { field: "room", max_len: MAX_ROOM_LEN })
    );
    let reason = ServerMessage::LoginFailed { reason: "x".repeat(MAX_REASON_LEN + 1) };
    assert_eq!(
        validate_server_message(&reason),
        Err(ProtocolError::FieldTooLong { field: "reason", max_len: MAX_REASON_LEN })
    );
    let error = ServerMessage::Error { message: "m".to_string(), code: "c".repeat(65) };
    assert_eq!(
        validate_server_message(&error),
        Err(ProtocolError::FieldTooLong { field: "code", max_len: 64 })
    );
    let blank_chat = ServerMessage::IncomingMessage {
        login: "a".to_string(),
        room: "r".to_string(),
        message: "".to_string(),
        timestamp: 0,
    };
    assert_eq!(validate_server_message(&blank_chat), Ok(()));
}

#[test]
fn every_refusal_of_frames() {
    assert_eq!(text_payload(Frame::Text("hi".to_string())), Ok("hi".to_string()));
    let full = "x".repeat(MAX_PAYLOAD_LEN);
    assert_eq!(text_payload(Frame::Text(full.clone())), Ok(full));
    let info = CloseInfo { code: 1000, reason: "bye".to_string() };
    assert_eq!(
        text_payload(Frame::Close(Some(info))),
        Err(ProtocolError::CloseFrame)
    );
    assert_eq!(text_payload(Frame::Binary(vec![1])), Err(ProtocolError::BinaryFrame));
    assert_eq!(text_payload(Frame::Ping(vec![])), Err(ProtocolError::PingFrame));
    assert_eq!(text_payload(Frame::Pong(vec![])), Err(ProtocolError::PongFrame));
    assert_eq!(text_payload(Frame::Raw(vec![])), Err(ProtocolError::RawFrame));
}

#[test]
fn errors_read_as_sentences() {
    let cases = [
        (ProtocolError::LoginTooShort, "Login too short (minimum 2 bytes)"),
        (ProtocolError::LoginTooLong, "Login too long (maximum 32 bytes)"),
        (
            ProtocolError::LoginCharacters,
            "Login can only contain ASCII letters, numbers, and underscores",
        ),
        (ProtocolError::LoginReserved, "Login uses a reserved server or system name"),
        (ProtocolError::RoomEmpty, "Room name cannot be empty"),
        (ProtocolError::RoomTooLong, "Room name too long (maximum 32 bytes)"),
        (
            ProtocolError::RoomCharacters,
            "Room name can only contain ASCII letters, numbers, underscores, and hyphens",
        ),
        (ProtocolError::MessageEmpty, "Message cannot be empty"),
        (ProtocolError::MessageTooLong, "Message too long (maximum 4096 bytes)"),
        (ProtocolError::PasswordTooShort, "Password too short (minimum 4 bytes)"),
        (ProtocolError::PasswordEmpty, "Password cannot be empty"),
        (ProtocolError::PasswordTooLong, "Password too long (maximum 72 bytes)"),
        (ProtocolError::PasswordNul, "Password cannot contain NUL bytes"),
        (ProtocolError::FieldEmpty { field: "login" }, "login must not be empty"),
        (
            ProtocolError::FieldTooLong { field: "room", max_len: 64 },
            "room exceeds 64 bytes",
        ),
        (
            ProtocolError::FieldControl { field: "reason" },
            "reason cannot contain control characters",
        ),
        (ProtocolError::RoomListTooLong, "room list exceeds 1000 entries"),
        (ProtocolError::RoomHistoryTooLong, "room history exceeds 1000 entries"),
        (
            ProtocolError::PayloadTooLong,
            "websocket text message exceeds 2097152 bytes",
        ),
        (ProtocolError::CloseFrame, "websocket close frame"),
        (
            ProtocolError::BinaryFrame,
            "expected websocket text message, got binary frame",
        ),
        (ProtocolError::PingFrame, "expected websocket text message, got ping frame"),
        (ProtocolError::PongFrame, "expected websocket text message, got pong frame"),
        (ProtocolError::RawFrame, "expected websocket text message, got raw frame"),
    ];
    for (error, sentence) in cases {
        assert_eq!(error.to_string(), sentence);
    }
}

#[test]
fn normalizing_twice_is_normalizing_once() {
    let m = ClientMessage::GetHistory { room: "\u{a0} general\t".to_string(), cursor: Some(3) };
    let once = normalized_client_message(&m).ok().unwrap();
    let twice = normalized_client_message(&once).ok().unwrap();
    assert!(once == ClientMessage::GetHistory { room: "general".to_string(), cursor: Some(3) });
    assert!(twice == once);
    assert!(normalized_client_message(&ClientMessage::Logout).ok().unwrap() == ClientMessage::Logout);
    let refused = ClientMessage::JoinRoom { room: " a b ".to_string() };
    assert!(matches!(
        normalized_client_message(&refused),
        Err(ProtocolError::RoomCharacters)
    ));

    // A refused message is trimmed too.
    let mut kept = refused;
    assert!(validate_client_message(&mut kept).is_err());
    assert!(kept == ClientMessage::JoinRoom { room: "a b".to_string() });
}

#[test]
fn new_accounts_can_log_in() {
    for login in ["ab", "Alice_42", &"z".repeat(32)] {
        assert!(validate_login(login).is_ok());
        assert!(validate_legacy_login(login).is_ok());
        assert!(serialize_server_message(&ServerMessage::LoginOk { login: login.to_string() }).is_ok());
    }
}

#[test]
fn texts_are_trimmed_as_in_the_standard_library() {
    for s in ["", " ", "a", " a", "a ", " a b ", "\u{2003}x\u{3000}", "\u{feff}x", "x\u{200b}"] {
        assert_eq!(normalized_text(s), s.trim());
        let mut owned = s.to_string();
        normalize_required_field(&mut owned);
        assert_eq!(owned, s.trim());
    }
}
