//! The messages that travel between client and server, and their limits.

use vstd::prelude::*;
use vstd::string::*;

verus! {

/// The most bytes that one WebSocket text message may hold.
pub const MAX_PAYLOAD_LEN: usize = 2 * 1024 * 1024;

pub const MIN_LOGIN_LEN: usize = 2;

/// The longest login that the protocol carries and displays. Stored accounts
/// may be older than the stricter rule for new ones.
pub const MAX_LOGIN_LEN: usize = 64;

pub const MAX_NEW_LOGIN_LEN: usize = 32;

pub const MIN_PASSWORD_LEN: usize = 4;

/// bcrypt only uses the first 72 bytes of input.
pub const MAX_PASSWORD_LEN: usize = 72;

/// The longest room name that the protocol carries and displays. Stored rooms
/// may be older than the stricter rule for new ones.
pub const MAX_ROOM_LEN: usize = 64;

pub const MAX_NEW_ROOM_LEN: usize = 32;

pub const MAX_CHAT_MESSAGE_LEN: usize = 4096;

pub const MAX_REASON_LEN: usize = 1024;

pub const MAX_CODE_LEN: usize = 64;

pub const MAX_HISTORY_ENTRIES: usize = 1000;

/// The most messages in one page of a room's history.
pub const HISTORY_PAGE_SIZE: usize = 100;

/// What a client asks of the server.
#[derive(Clone, PartialEq, Eq)]
pub enum ClientMessage {
    /// Create a new account.
    CreateAccount { login: String, passwd: String },
    /// Login with credentials.
    Login { login: String, passwd: String },
    /// Join a chat room. The server derives the user identity from the session.
    JoinRoom { room: String },
    /// Leave a chat room. The server derives the user identity from the session.
    LeaveRoom { room: String },
    /// Send a message to a room. The server derives the user identity from the session.
    SendMessage { room: String, message: String },
    /// Request history for a room. `cursor` is the id of the oldest message
    /// already seen: only messages with a smaller id are returned. Without it
    /// the most recent page is returned.
    GetHistory { room: String, cursor: Option<u64> },
    /// Disconnect gracefully.
    Logout,
}

/// A client message over plain sequences of characters.
pub enum ClientMessageView {
    CreateAccount { login: Seq<char>, passwd: Seq<char> },
    Login { login: Seq<char>, passwd: Seq<char> },
    JoinRoom { room: Seq<char> },
    LeaveRoom { room: Seq<char> },
    SendMessage { room: Seq<char>, message: Seq<char> },
    GetHistory { room: Seq<char>, cursor: Option<u64> },
    Logout,
}

impl View for ClientMessage {
    type V = ClientMessageView;

    open spec fn view(&self) -> ClientMessageView {
        match self {
            ClientMessage::CreateAccount { login, passwd } => ClientMessageView::CreateAccount {
                login: login@,
                passwd: passwd@,
            },
            ClientMessage::Login { login, passwd } => ClientMessageView::Login {
                login: login@,
                passwd: passwd@,
            },
            ClientMessage::JoinRoom { room } => ClientMessageView::JoinRoom { room: room@ },
            ClientMessage::LeaveRoom { room } => ClientMessageView::LeaveRoom { room: room@ },
            ClientMessage::SendMessage { room, message } => ClientMessageView::SendMessage {
                room: room@,
                message: message@,
            },
            ClientMessage::GetHistory { room, cursor } => ClientMessageView::GetHistory {
                room: room@,
                cursor: *cursor,
            },
            ClientMessage::Logout => ClientMessageView::Logout,
        }
    }
}

/// One stored message of a room.
#[derive(Debug, Clone, PartialEq, Eq)]
pub struct HistoryEntry {
    pub id: u64,
    pub login: String,
    pub timestamp: i64,
    pub message: String,
}

/// A history entry over plain sequences of characters.
pub struct HistoryEntryView {
    pub id: u64,
    pub login: Seq<char>,
    pub timestamp: i64,
    pub message: Seq<char>,
}

impl View for HistoryEntry {
    type V = HistoryEntryView;

    open spec fn view(&self) -> HistoryEntryView {
        HistoryEntryView {
            id: self.id,
            login: self.login@,
            timestamp: self.timestamp,
            message: self.message@,
        }
    }
}

/// What the server tells a client.
#[derive(Debug, Clone, PartialEq, Eq)]
pub enum ServerMessage {
    /// Login succeeded for the given account.
    LoginOk { login: String },
    /// Login failed with a user-displayable reason.
    LoginFailed { reason: String },
    /// Account creation succeeded for the given login.
    AccountCreated { login: String },
    /// Account creation failed with a user-displayable reason.
    AccountCreationFailed { reason: String },
    /// Incoming message from a user in a room.
    IncomingMessage { login: String, room: String, message: String, timestamp: i64 },
    /// The available rooms.
    RoomList { rooms: Vec<String> },
    /// A page of a room's history. `has_more` says whether older messages exist.
    RoomHistory { room: String, messages: Vec<HistoryEntry>, has_more: bool },
    /// Logout confirmed.
    LogoutOk,
    /// Generic server-side error.
    Error { message: String, code: String },
}

/// A server message over plain sequences.
pub enum ServerMessageView {
    LoginOk { login: Seq<char> },
    LoginFailed { reason: Seq<char> },
    AccountCreated { login: Seq<char> },
    AccountCreationFailed { reason: Seq<char> },
    IncomingMessage { login: Seq<char>, room: Seq<char>, message: Seq<char>, timestamp: i64 },
    RoomList { rooms: Seq<Seq<char>> },
    RoomHistory { room: Seq<char>, messages: Seq<HistoryEntryView>, has_more: bool },
    LogoutOk,
    Error { message: Seq<char>, code: Seq<char> },
}

/// The contents of a list of texts.
pub open spec fn texts(v: Seq<String>) -> Seq<Seq<char>> {
    v.map_values(|s: String| s@)
}

/// The contents of a list of history entries.
pub open spec fn entries(v: Seq<HistoryEntry>) -> Seq<HistoryEntryView> {
    v.map_values(|e: HistoryEntry| e@)
}

impl View for ServerMessage {
    type V = ServerMessageView;

    open spec fn view(&self) -> ServerMessageView {
        match self {
            ServerMessage::LoginOk { login } => ServerMessageView::LoginOk { login: login@ },
            ServerMessage::LoginFailed { reason } => ServerMessageView::LoginFailed {
                reason: reason@,
            },
            ServerMessage::AccountCreated { login } => ServerMessageView::AccountCreated {
                login: login@,
            },
            ServerMessage::AccountCreationFailed { reason } =>
                ServerMessageView::AccountCreationFailed { reason: reason@ },
            ServerMessage::IncomingMessage { login, room, message, timestamp } =>
                ServerMessageView::IncomingMessage {
                login: login@,
                room: room@,
                message: message@,
                timestamp: *timestamp,
            },
            ServerMessage::RoomList { rooms } => ServerMessageView::RoomList {
                rooms: texts(rooms@),
            },
            ServerMessage::RoomHistory { room, messages, has_more } =>
                ServerMessageView::RoomHistory {
                room: room@,
                messages: entries(messages@),
                has_more: *has_more,
            },
            ServerMessage::LogoutOk => ServerMessageView::LogoutOk,
            ServerMessage::Error { message, code } => ServerMessageView::Error {
                message: message@,
                code: code@,
            },
        }
    }
}

/// A server message on its way to a client. A chat message carries the id
/// under which it is known; for every other message `id` has no meaning.
#[derive(Debug, Clone, PartialEq, Eq)]
pub struct Delivery {
    pub id: u64,
    pub message: ServerMessage,
}

/// A delivery over plain sequences.
pub struct DeliveryView {
    pub id: u64,
    pub message: ServerMessageView,
}

impl View for Delivery {
    type V = DeliveryView;

    open spec fn view(&self) -> DeliveryView {
        DeliveryView { id: self.id, message: self.message@ }
    }
}

} // verus!
