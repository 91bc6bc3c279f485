//! What the client knows.

use vstd::prelude::*;
use vstd::string::*;

use super::entry::{system_entry, system_message, EntryView, MessageLog};
use super::net::text_of;
use crate::protocol::message::{texts, ClientMessage, ClientMessageView};

verus! {

broadcast use vstd::string::group_string_axioms;

/// Whether credentials are for an account or for a new one.
#[derive(Clone, Copy, Debug, PartialEq, Eq, Structural)]
pub enum AuthMode {
    Login,
    Register,
}

/// What the client shows and takes input for.
#[derive(Clone, Copy, Debug, PartialEq, Eq, Structural)]
pub enum InputMode {
    Splash,
    EnteringLogin,
    EnteringPassword,
    Normal,
    Disconnected,
}

/// The connection to the server.
#[derive(Clone, Debug, PartialEq, Eq)]
pub enum ConnectionState {
    Connecting,
    Connected,
    LoggedIn { login: String },
    Disconnected,
}

/// The connection to the server, over plain sequences.
pub enum ConnectionStateView {
    Connecting,
    Connected,
    LoggedIn { login: Seq<char> },
    Disconnected,
}

impl View for ConnectionState {
    type V = ConnectionStateView;

    open spec fn view(&self) -> ConnectionStateView {
        match self {
            ConnectionState::Connecting => ConnectionStateView::Connecting,
            ConnectionState::Connected => ConnectionStateView::Connected,
            ConnectionState::LoggedIn { login } => ConnectionStateView::LoggedIn { login: login@ },
            ConnectionState::Disconnected => ConnectionStateView::Disconnected,
        }
    }
}

impl ConnectionState {
    pub fn is_connected(&self) -> (b: bool)
        ensures
            b == !(self is Connecting || self is Disconnected),
    {
        match self {
            ConnectionState::Connecting => false,
            ConnectionState::Disconnected => false,
            _ => true,
        }
    }

    pub fn is_logged_in(&self) -> (b: bool)
        ensures
            b == (self is LoggedIn),
    {
        match self {
            ConnectionState::LoggedIn { login: _ } => true,
            _ => false,
        }
    }
}

/// Something to ask of the server.
#[derive(Clone)]
pub enum PendingAction {
    Login { login: String, password: String },
    Register { login: String, password: String },
    SendMessage { room: String, message: String },
    LeaveRoom { room: String },
    JoinRoom { room: String },
    GetHistory { room: String, cursor: Option<u64> },
}

/// Something to ask of the server, over plain sequences.
pub enum ActionView {
    Login { login: Seq<char>, password: Seq<char> },
    Register { login: Seq<char>, password: Seq<char> },
    SendMessage { room: Seq<char>, message: Seq<char> },
    LeaveRoom { room: Seq<char> },
    JoinRoom { room: Seq<char> },
    GetHistory { room: Seq<char>, cursor: Option<u64> },
}

impl View for PendingAction {
    type V = ActionView;

    open spec fn view(&self) -> ActionView {
        match self {
            PendingAction::Login { login, password } => ActionView::Login {
                login: login@,
                password: password@,
            },
            PendingAction::Register { login, password } => ActionView::Register {
                login: login@,
                password: password@,
            },
            PendingAction::SendMessage { room, message } => ActionView::SendMessage {
                room: room@,
                message: message@,
            },
            PendingAction::LeaveRoom { room } => ActionView::LeaveRoom { room: room@ },
            PendingAction::JoinRoom { room } => ActionView::JoinRoom { room: room@ },
            PendingAction::GetHistory { room, cursor } => ActionView::GetHistory {
                room: room@,
                cursor: *cursor,
            },
        }
    }
}

/// The contents of a list of actions.
pub open spec fn actions(v: Seq<PendingAction>) -> Seq<ActionView> {
    v.map_values(|a: PendingAction| a@)
}

/// The message that asks for an action.
pub open spec fn request_of(a: ActionView) -> ClientMessageView {
    match a {
        ActionView::Login { login, password } => ClientMessageView::Login {
            login,
            passwd: password,
        },
        ActionView::Register { login, password } => ClientMessageView::CreateAccount {
            login,
            passwd: password,
        },
        ActionView::SendMessage { room, message } => ClientMessageView::SendMessage {
            room,
            message,
        },
        ActionView::LeaveRoom { room } => ClientMessageView::LeaveRoom { room },
        ActionView::JoinRoom { room } => ClientMessageView::JoinRoom { room },
        ActionView::GetHistory { room, cursor } => ClientMessageView::GetHistory { room, cursor },
    }
}

/// The message that asks for an action, and whether it joins a room.
pub fn action_request(action: PendingAction) -> (r: (ClientMessage, bool))
    ensures
        r.0@ == request_of(action@),
        r.1 == (action is JoinRoom),
{
    match action {
        PendingAction::Login { login, password } => (
            ClientMessage::Login { login, passwd: password },
            false,
        ),
        PendingAction::Register { login, password } => (
            ClientMessage::CreateAccount { login, passwd: password },
            false,
        ),
        PendingAction::SendMessage { room, message } => (
            ClientMessage::SendMessage { room, message },
            false,
        ),
        PendingAction::JoinRoom { room } => (ClientMessage::JoinRoom { room }, true),
        PendingAction::LeaveRoom { room } => (ClientMessage::LeaveRoom { room }, false),
        PendingAction::GetHistory { room, cursor } => (
            ClientMessage::GetHistory { room, cursor },
            false,
        ),
    }
}

/// All that the client knows, apart from its connection.
pub struct App {
    pub url: String,
    pub running: bool,
    pub input: String,
    pub input_mode: InputMode,
    pub messages: MessageLog,
    pub message_offset: usize,
    pub login: String,
    pub room: String,
    pub login_input: String,
    pub password_input: String,
    pub reconnect_password: Option<String>,
    pub rooms: Vec<String>,
    pub room_selected: usize,
    pub auth_mode: AuthMode,
    pub reconnect_pending: bool,
    pub pending_actions: Vec<PendingAction>,
    pub connection_state: ConnectionState,
    /// Oldest message id loaded so far (for cursor-based pagination).
    pub oldest_message_id: Option<u64>,
    /// Whether older messages are being loaded (pauses scroll-to-bottom).
    pub loading_older: bool,
    /// Whether the server has older messages.
    pub has_more_history: bool,
    /// Whether the user scrolled up in the message list (triggers auto-load at top).
    pub has_scrolled_up: bool,
    /// Monotonically increasing counter for system message ids.
    pub system_message_id: u64,
}

/// All that the client knows, over plain values.
pub struct AppView {
    pub url: Seq<char>,
    pub running: bool,
    pub input: Seq<char>,
    pub input_mode: InputMode,
    pub messages: Map<u64, EntryView>,
    pub message_offset: nat,
    pub login: Seq<char>,
    pub room: Seq<char>,
    pub login_input: Seq<char>,
    pub password_input: Seq<char>,
    pub reconnect_password: Option<Seq<char>>,
    pub rooms: Seq<Seq<char>>,
    pub room_selected: nat,
    pub auth_mode: AuthMode,
    pub reconnect_pending: bool,
    pub pending_actions: Seq<ActionView>,
    pub connection_state: ConnectionStateView,
    pub oldest_message_id: Option<u64>,
    pub loading_older: bool,
    pub has_more_history: bool,
    pub has_scrolled_up: bool,
    pub system_message_id: u64,
}

impl View for App {
    type V = AppView;

    open spec fn view(&self) -> AppView {
        AppView {
            url: self.url@,
            running: self.running,
            input: self.input@,
            input_mode: self.input_mode,
            messages: self.messages@,
            message_offset: self.message_offset as nat,
            login: self.login@,
            room: self.room@,
            login_input: self.login_input@,
            password_input: self.password_input@,
            reconnect_password: text_of(self.reconnect_password),
            rooms: texts(self.rooms@),
            room_selected: self.room_selected as nat,
            auth_mode: self.auth_mode,
            reconnect_pending: self.reconnect_pending,
            pending_actions: actions(self.pending_actions@),
            connection_state: self.connection_state@,
            oldest_message_id: self.oldest_message_id,
            loading_older: self.loading_older,
            has_more_history: self.has_more_history,
            has_scrolled_up: self.has_scrolled_up,
            system_message_id: self.system_message_id,
        }
    }
}

/// Whether the client can still number a count of messages of its own.
pub open spec fn can_number(a: AppView, count: nat) -> bool {
    a.system_message_id + count <= u64::MAX
}

/// The rooms that are shown before the server has listed them.
pub open spec fn first_rooms() -> Seq<Seq<char>> {
    seq!["general"@]
}

/// The rooms that are shown before the server has listed them.
pub fn default_rooms() -> (rooms: Vec<String>)
    ensures
        texts(rooms@) == first_rooms(),
{
    let mut rooms: Vec<String> = Vec::new();
    rooms.push("general".to_owned());
    proof {
        assert(texts(rooms@) =~= first_rooms());
    }
    rooms
}

/// The client as it starts.
pub open spec fn started(url: Seq<char>, user: Seq<char>) -> AppView {
    AppView {
        url,
        running: true,
        input: Seq::empty(),
        input_mode: InputMode::Splash,
        messages: Map::empty().insert(0, system_entry("Connecting to server..."@)),
        message_offset: 0,
        login: user,
        room: "general"@,
        login_input: user,
        password_input: Seq::empty(),
        reconnect_password: None,
        rooms: first_rooms(),
        room_selected: 0,
        auth_mode: AuthMode::Login,
        reconnect_pending: false,
        pending_actions: Seq::empty(),
        connection_state: ConnectionStateView::Connecting,
        oldest_message_id: None,
        loading_older: false,
        has_more_history: false,
        has_scrolled_up: false,
        system_message_id: 1000,
    }
}

impl App {
    /// A client for the server at a URL, possibly with the name of a user.
    pub fn new(url: String, default_user: Option<String>) -> (app: Self)
        ensures
            app@ == started(
                url@,
                match default_user {
                    Some(user) => user@,
                    None => Seq::empty(),
                },
            ),
    {
        let user = match default_user {
            Some(user) => user,
            None => String::new(),
        };
        let mut messages = MessageLog::new();
        messages.insert(0, system_message("Connecting to server...".to_owned()));
        let app = App {
            url,
            running: true,
            input: String::new(),
            input_mode: InputMode::Splash,
            messages,
            message_offset: 0,
            login: user.clone(),
            room: "general".to_owned(),
            login_input: user,
            password_input: String::new(),
            reconnect_password: None,
            rooms: default_rooms(),
            room_selected: 0,
            auth_mode: AuthMode::Login,
            reconnect_pending: false,
            pending_actions: Vec::new(),
            connection_state: ConnectionState::Connecting,
            oldest_message_id: None,
            loading_older: false,
            has_more_history: false,
            has_scrolled_up: false,
            system_message_id: 1000,
        };
        proof {
            assert(app@.input =~= Seq::empty());
            assert(app@.password_input =~= Seq::empty());
            assert(app@.pending_actions =~= Seq::empty());
            if default_user is None {
                assert(app@.login =~= Seq::empty());
            }
        }
        app
    }
}

} // verus!
