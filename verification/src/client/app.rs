//! How the client answers its server, its connection and its user.

use vstd::prelude::*;
use vstd::string::*;

use super::entry::{
    newest, system_entry, system_message, EntryView, MessageEntry, MessageLog, MessageType,
    MessageTypeView, MAX_HISTORY,
};
use super::net::{text_of, AppEvent};
use super::state::{
    action_request, actions, can_number, request_of, ActionView, App, AppView, AuthMode,
    ConnectionState, ConnectionStateView, InputMode, PendingAction,
};
use super::utils::{resolve_sender, shown_sender};
use crate::list::index_in_list;
use crate::protocol::error::ProtocolError;
use crate::protocol::frame::{frame_text, text_payload};
use crate::protocol::json::{client_json, serialize_client_message};
use crate::protocol::message::{
    entries, texts, Delivery, DeliveryView, HistoryEntry, HistoryEntryView, ServerMessage,
    ServerMessageView,
};
use crate::protocol::validate::{
    client_trimmed, client_verdict, server_verdict, validate_server_message,
};
use crate::text::{
    contains_text, decimal, is_blank, same_text, text_contains, trim, trimmed, u64_text,
};

verus! {

broadcast use vstd::string::group_string_axioms;

// ── Steps ───────────────────────────────────────────────────────────────

/// The client after it has shown a message of its own.
pub open spec fn said(a: AppView, text: Seq<char>) -> AppView {
    AppView {
        messages: a.messages.insert(a.system_message_id, system_entry(text)),
        system_message_id: (a.system_message_id + 1) as u64,
        ..a
    }
}

/// The client after it has queued an action.
pub open spec fn queued(a: AppView, action: ActionView) -> AppView {
    AppView { pending_actions: a.pending_actions.push(action), ..a }
}

/// The client after it has turned to a room: it leaves the one that it was in,
/// shows nothing of it any more, and asks to join and for the latest messages.
pub open spec fn joining_room(a: AppView, old_room: Seq<char>, room: Seq<char>) -> AppView {
    let left = if old_room.len() > 0 && old_room != room {
        queued(a, ActionView::LeaveRoom { room: old_room })
    } else {
        a
    };
    queued(
        queued(
            AppView {
                room,
                input_mode: InputMode::Normal,
                messages: Map::empty(),
                oldest_message_id: None,
                loading_older: false,
                has_more_history: false,
                has_scrolled_up: false,
                ..left
            },
            ActionView::JoinRoom { room },
        ),
        ActionView::GetHistory { room, cursor: None },
    )
}

/// The client after it has asked for older messages, where there are any and
/// none are on their way.
pub open spec fn asking_older(a: AppView) -> AppView {
    if a.loading_older || a.oldest_message_id is None || !a.has_more_history {
        a
    } else {
        queued(
            AppView { loading_older: true, ..a },
            ActionView::GetHistory { room: a.room, cursor: a.oldest_message_id },
        )
    }
}

/// A chat message as the user of a login sees it.
pub open spec fn chat_entry(
    own_login: Seq<char>,
    id: u64,
    login: Seq<char>,
    content: Seq<char>,
    timestamp: i64,
) -> EntryView {
    EntryView {
        id,
        sender: shown_sender(own_login, login),
        content,
        timestamp,
        is_own: login == own_login,
        msg_type: MessageTypeView::Chat,
    }
}

/// An entry of a room's history as the user of a login sees it.
pub open spec fn history_entry(own_login: Seq<char>, e: HistoryEntryView) -> EntryView {
    chat_entry(own_login, e.id, e.login, e.message, e.timestamp)
}

/// A log with entries of a room's history added, one after the other.
pub open spec fn with_history(
    log: Map<u64, EntryView>,
    own_login: Seq<char>,
    page: Seq<HistoryEntryView>,
) -> Map<u64, EntryView>
    decreases page.len(),
{
    if page.len() == 0 {
        log
    } else {
        with_history(log, own_login, page.drop_last()).insert(
            page.last().id,
            history_entry(own_login, page.last()),
        )
    }
}

/// The smallest id of a page.
pub open spec fn oldest_id(page: Seq<HistoryEntryView>) -> Option<u64>
    decreases page.len(),
{
    if page.len() == 0 {
        None
    } else {
        match oldest_id(page.drop_last()) {
            Some(id) => if id <= page.last().id {
                Some(id)
            } else {
                Some(page.last().id)
            },
            None => Some(page.last().id),
        }
    }
}

/// The position of a room in the list, or the first.
pub open spec fn room_position(rooms: Seq<Seq<char>>, room: Seq<char>) -> nat {
    match rooms.index_of_first(room) {
        Some(i) => i as nat,
        None => 0,
    }
}

/// The client after it has received a page of history. A page of another room
/// than that it is in is dropped. Where older messages were asked for they are
/// added, and otherwise the page replaces what was shown.
pub open spec fn received_history(
    a: AppView,
    room: Seq<char>,
    page: Seq<HistoryEntryView>,
    has_more: bool,
) -> AppView {
    if a.room != room {
        a
    } else if a.loading_older {
        AppView {
            messages: with_history(a.messages, a.login, page.reverse()),
            oldest_message_id: oldest_id(page),
            loading_older: false,
            has_more_history: has_more,
            ..a
        }
    } else {
        said(
            AppView {
                messages: with_history(Map::empty(), a.login, page),
                oldest_message_id: oldest_id(page),
                room_selected: if room.len() == 0 {
                    room_position(a.rooms, room)
                } else {
                    a.room_selected
                },
                has_more_history: has_more,
                ..a
            },
            "Joined room '"@ + room + "'"@,
        )
    }
}

/// The client after it has received a message, before it drops old ones.
pub open spec fn received(a: AppView, d: DeliveryView) -> AppView {
    match d.message {
        ServerMessageView::LoginOk { login } => joining_room(
            said(
                AppView {
                    login,
                    connection_state: ConnectionStateView::LoggedIn { login },
                    input_mode: InputMode::Normal,
                    ..a
                },
                "Login successful."@,
            ),
            Seq::empty(),
            "general"@,
        ),
        ServerMessageView::LoginFailed { reason } => said(
            AppView {
                connection_state: ConnectionStateView::Connected,
                password_input: Seq::empty(),
                input_mode: InputMode::EnteringPassword,
                ..a
            },
            reason,
        ),
        ServerMessageView::AccountCreated { login } => said(
            AppView {
                auth_mode: AuthMode::Login,
                login_input: login,
                password_input: Seq::empty(),
                input_mode: InputMode::EnteringLogin,
                ..a
            },
            "Account created. Please login."@,
        ),
        ServerMessageView::AccountCreationFailed { reason } => said(
            AppView {
                password_input: Seq::empty(),
                input_mode: InputMode::EnteringPassword,
                ..a
            },
            reason,
        ),
        ServerMessageView::IncomingMessage { login, room, message, timestamp } => if login
            == "Server"@ && room == "system"@ {
            said(a, message)
        } else if room == a.room {
            AppView {
                messages: a.messages.insert(
                    d.id,
                    chat_entry(a.login, d.id, login, message, timestamp),
                ),
                ..a
            }
        } else {
            a
        },
        ServerMessageView::RoomList { rooms } => AppView {
            rooms,
            room_selected: room_position(rooms, a.room),
            ..a
        },
        ServerMessageView::RoomHistory { room, messages, has_more } => received_history(
            a,
            room,
            messages,
            has_more,
        ),
        ServerMessageView::LogoutOk => a,
        ServerMessageView::Error { message, code } => said(
            if contains_text(code, "NOT_AUTHENTICATED"@) {
                AppView {
                    connection_state: ConnectionStateView::Connected,
                    input_mode: InputMode::Splash,
                    ..a
                }
            } else {
                a
            },
            "["@ + code + "] "@ + message,
        ),
    }
}

/// The client after it has dropped old messages and turned to the newest.
pub open spec fn tidied(a: AppView) -> AppView {
    let messages = newest(a.messages, MAX_HISTORY as nat);
    AppView {
        messages,
        message_offset: if messages.len() == 0 {
            0
        } else {
            (messages.len() - 1) as nat
        },
        ..a
    }
}

/// The client after it has received a message. One that breaks the protocol is
/// dropped.
pub open spec fn handled(a: AppView, d: DeliveryView) -> AppView {
    if server_verdict(d.message) is Ok {
        tidied(received(a, d))
    } else {
        a
    }
}

/// With what the client connects again.
pub struct ReconnectPlan {
    pub url: String,
    pub login: Option<String>,
    pub password: Option<String>,
}

/// With what the client connects again, over plain sequences.
pub struct ReconnectPlanView {
    pub url: Seq<char>,
    pub login: Option<Seq<char>>,
    pub password: Option<Seq<char>>,
}

impl View for ReconnectPlan {
    type V = ReconnectPlanView;

    open spec fn view(&self) -> ReconnectPlanView {
        ReconnectPlanView {
            url: self.url@,
            login: text_of(self.login),
            password: text_of(self.password),
        }
    }
}

/// The content of a plan that may be missing.
pub open spec fn plan_of(p: Option<ReconnectPlan>) -> Option<ReconnectPlanView> {
    match p {
        Some(p) => Some(p@),
        None => None,
    }
}

/// With what the client would connect again: the credentials that it used
/// last, or else those that were typed in.
pub open spec fn reconnect_plan(a: AppView) -> ReconnectPlanView {
    ReconnectPlanView {
        url: a.url,
        login: if a.login.len() > 0 {
            Some(a.login)
        } else if a.login_input.len() > 0 {
            Some(a.login_input)
        } else {
            None
        },
        password: match a.reconnect_password {
            Some(password) => Some(password),
            None => if a.password_input.len() > 0 {
                Some(a.password_input)
            } else {
                None
            },
        },
    }
}

/// The client after it has left its room for want of a connection.
pub open spec fn room_reset(a: AppView) -> AppView {
    let left = if a.room.len() > 0 {
        queued(a, ActionView::LeaveRoom { room: a.room })
    } else {
        a
    };
    AppView { room: Seq::empty(), room_selected: 0, ..left }
}

/// What the client says of a lost connection.
pub open spec fn disconnect_text(code: Option<u16>, reason: Option<Seq<char>>) -> Seq<char> {
    "Disconnected"@ + (match code {
        Some(c) => " (code "@ + decimal(c as nat) + ")"@,
        None => Seq::empty(),
    }) + (match reason {
        Some(r) => ": "@ + r,
        None => Seq::empty(),
    })
}

/// The client after it has lost its connection, about to connect again.
pub open spec fn disconnected(
    a: AppView,
    code: Option<u16>,
    reason: Option<Seq<char>>,
) -> AppView {
    AppView {
        reconnect_pending: false,
        ..said(
            AppView {
                connection_state: ConnectionStateView::Disconnected,
                input_mode: InputMode::Disconnected,
                ..room_reset(a)
            },
            disconnect_text(code, reason),
        )
    }
}

/// The client after an error of its connection.
pub open spec fn broken(a: AppView, reason: Seq<char>) -> AppView {
    disconnected(said(a, "Connection error: "@ + reason), None, None)
}

/// The client after it has connected again.
pub open spec fn reconnected(a: AppView) -> AppView {
    AppView {
        input_mode: if a.login.len() > 0 {
            InputMode::Normal
        } else {
            InputMode::Splash
        },
        ..a
    }
}

/// The client after the user has submitted credentials. Both are needed.
pub open spec fn credentials_submitted(a: AppView) -> AppView {
    if is_blank(a.login_input) || a.password_input.len() == 0 {
        said(a, "Login and password are required."@)
    } else {
        let login = trimmed(a.login_input);
        let password = a.password_input;
        queued(
            AppView { password_input: Seq::empty(), reconnect_password: Some(password), ..a },
            match a.auth_mode {
                AuthMode::Login => ActionView::Login { login, password },
                AuthMode::Register => ActionView::Register { login, password },
            },
        )
    }
}

/// The client after the user has submitted a message. The server does not send
/// it back, so it is shown at once.
pub open spec fn message_submitted(a: AppView, now: i64) -> AppView {
    let message = trimmed(a.input);
    if message.len() == 0 || a.room.len() == 0 {
        a
    } else {
        queued(
            AppView {
                messages: a.messages.insert(
                    a.system_message_id,
                    chat_entry(a.login, a.system_message_id, a.login, message, now),
                ),
                system_message_id: (a.system_message_id + 1) as u64,
                input: Seq::empty(),
                input_mode: InputMode::Normal,
                ..a
            },
            ActionView::SendMessage { room: a.room, message },
        )
    }
}

/// What comes of the next action: a text to send, or the reason for which
/// there is none.
pub enum Prepared {
    Send { text: String, joined: bool },
    Refused { reason: ProtocolError },
}

/// How sending a text went.
pub enum SendOutcome {
    Sent,
    NotConnected,
    Failed(String),
}

/// What came of an action.
#[derive(Debug)]
pub enum ActionResult {
    Sent,
    Joined,
    Failed(String),
}

/// Whether a prepared action is that for the given one.
pub open spec fn prepares(p: Prepared, action: ActionView) -> bool {
    let m = client_trimmed(request_of(action));
    match p {
        Prepared::Send { text, joined } => client_verdict(m) is Ok && text@ == client_json(m)
            && joined == (action is JoinRoom),
        Prepared::Refused { reason } => client_verdict(m) == Err::<(), ProtocolError>(reason),
    }
}

/// What came of an action for which a text was to be sent.
pub fn action_result(outcome: SendOutcome, joined: bool) -> (r: ActionResult)
    ensures
        match outcome {
            SendOutcome::Sent => if joined {
                r is Joined
            } else {
                r is Sent
            },
            SendOutcome::NotConnected => r matches ActionResult::Failed(reason) && reason@
                == "not connected"@,
            SendOutcome::Failed(error) => r == ActionResult::Failed(error),
        },
{
    match outcome {
        SendOutcome::Sent => if joined {
            ActionResult::Joined
        } else {
            ActionResult::Sent
        },
        SendOutcome::NotConnected => ActionResult::Failed("not connected".to_owned()),
        SendOutcome::Failed(error) => ActionResult::Failed(error),
    }
}

/// What the client has to do after an event.
pub enum EventOutcome {
    /// Read this text as a message.
    Read(String),
    /// Connect again.
    Reconnect(ReconnectPlan),
    Nothing,
}

/// Whether this is what the client has to do after an event, with the client in
/// the given state after it.
pub open spec fn is_outcome(
    before: AppView,
    event: AppEvent,
    after: AppView,
    outcome: EventOutcome,
) -> bool {
    match event {
        AppEvent::ReceivedMsg { data } => after == before && match frame_text(data) {
            Ok(t) => outcome matches EventOutcome::Read(text) && text@ == t,
            Err(_) => outcome is Nothing,
        },
        AppEvent::Disconnected { close_code, close_reason } => after == disconnected(
            before,
            close_code,
            text_of(close_reason),
        ) && (outcome matches EventOutcome::Reconnect(plan) && plan@ == reconnect_plan(before)),
        AppEvent::ConnectionError { reason } => after == broken(before, reason@) && (
        outcome matches EventOutcome::Reconnect(plan) && plan@ == reconnect_plan(before)),
        AppEvent::Reconnected => after == reconnected(before) && outcome is Nothing,
    }
}

// ── Execution ───────────────────────────────────────────────────────────

/// The smallest id of a page.
fn oldest_of(page: &Vec<HistoryEntry>) -> (id: Option<u64>)
    ensures
        id == oldest_id(entries(page@)),
{
    let ghost all = entries(page@);
    let mut oldest: Option<u64> = None;
    let mut i: usize = 0;
    proof {
        assert(all.take(0) =~= Seq::empty());
    }
    while i < page.len()
        invariant
            all == entries(page@),
            i <= page.len(),
            oldest == oldest_id(all.take(i as int)),
        decreases page.len() - i,
    {
        proof {
            assert(all.take(i + 1).drop_last() =~= all.take(i as int));
            assert(all.take(i + 1).last().id == page@[i as int].id);
        }
        let id: u64 = page[i].id;
        match oldest {
            Some(o) => {
                if o > id {
                    oldest = Some(id);
                }
            },
            None => {
                oldest = Some(id);
            },
        }
        i = i + 1;
    }
    proof {
        assert(all.take(i as int) =~= all);
    }
    oldest
}

/// An entry of a room's history as the user of a login sees it.
fn shown_entry(own_login: &str, e: &HistoryEntry) -> (shown: MessageEntry)
    ensures
        shown@ == history_entry(own_login@, e@),
{
    MessageEntry {
        id: e.id,
        sender: resolve_sender(own_login, e.login.as_str()),
        content: e.message.clone(),
        timestamp: e.timestamp,
        is_own: same_text(e.login.as_str(), own_login),
        msg_type: MessageType::Chat,
    }
}

/// Add entries of a room's history to a log, in the order of the page.
fn add_history(log: &mut MessageLog, own_login: &str, page: &Vec<HistoryEntry>)
    ensures
        final(log)@ == with_history(old(log)@, own_login@, entries(page@)),
{
    let ghost all = entries(page@);
    let ghost start = log@;
    let mut i: usize = 0;
    proof {
        assert(all.take(0) =~= Seq::empty());
    }
    while i < page.len()
        invariant
            all == entries(page@),
            i <= page.len(),
            log@ == with_history(start, own_login@, all.take(i as int)),
        decreases page.len() - i,
    {
        proof {
            assert(all.take(i + 1).drop_last() =~= all.take(i as int));
            assert(all.take(i + 1).last() == page@[i as int]@);
        }
        let e = &page[i];
        log.insert(e.id, shown_entry(own_login, e));
        i = i + 1;
    }
    proof {
        assert(all.take(i as int) =~= all);
    }
}

/// Add entries of a room's history to a log, the last of the page first.
fn add_history_backwards(log: &mut MessageLog, own_login: &str, page: &Vec<HistoryEntry>)
    ensures
        final(log)@ == with_history(old(log)@, own_login@, entries(page@).reverse()),
{
    let ghost all = entries(page@).reverse();
    let ghost start = log@;
    let mut i: usize = 0;
    proof {
        assert(all.take(0) =~= Seq::empty());
    }
    while i < page.len()
        invariant
            all == entries(page@).reverse(),
            i <= page.len(),
            log@ == with_history(start, own_login@, all.take(i as int)),
        decreases page.len() - i,
    {
        proof {
            assert(all.take(i + 1).drop_last() =~= all.take(i as int));
            assert(all.take(i + 1).last() == page@[page@.len() - 1 - i]@);
        }
        let e = &page[page.len() - 1 - i];
        log.insert(e.id, shown_entry(own_login, e));
        i = i + 1;
    }
    proof {
        assert(all.take(i as int) =~= all);
    }
}

/// The position of a room in the list, or the first.
fn position_of_room(rooms: &Vec<String>, room: &str) -> (i: usize)
    ensures
        i == room_position(texts(rooms@), room@),
{
    proof {
        texts(rooms@).index_of_first_ensures(room@);
    }
    match index_in_list(rooms, room) {
        Some(i) => i,
        None => 0,
    }
}

impl App {
    /// Show a message of the client itself.
    pub fn say(&mut self, text: String)
        requires
            can_number(old(self)@, 1),
        ensures
            final(self)@ == said(old(self)@, text@),
    {
        let id: u64 = self.system_message_id;
        self.system_message_id = id + 1;
        self.messages.insert(id, system_message(text));
    }

    /// Queue an action.
    pub fn queue_action(&mut self, action: PendingAction)
        ensures
            final(self)@ == queued(old(self)@, action@),
    {
        let ghost before = self.pending_actions@;
        self.pending_actions.push(action);
        proof {
            assert(actions(self.pending_actions@) =~= actions(before).push(action@));
        }
    }

    /// Turn to a room.
    pub fn join_room(&mut self, old_room: String, room: String)
        ensures
            final(self)@ == joining_room(old(self)@, old_room@, room@),
    {
        if !old_room.as_str().is_empty() && !same_text(old_room.as_str(), room.as_str()) {
            self.queue_action(PendingAction::LeaveRoom { room: old_room });
        }
        self.room = room.clone();
        self.input_mode = InputMode::Normal;
        self.messages.clear();
        self.oldest_message_id = None;
        self.loading_older = false;
        self.has_more_history = false;
        self.has_scrolled_up = false;
        self.queue_action(PendingAction::JoinRoom { room: room.clone() });
        self.queue_action(PendingAction::GetHistory { room, cursor: None });
    }

    /// Queue a request for older messages (cursor-based pagination).
    pub fn load_older(&mut self)
        ensures
            final(self)@ == asking_older(old(self)@),
    {
        if self.loading_older || self.oldest_message_id.is_none() || !self.has_more_history {
            return;
        }
        self.loading_older = true;
        let room = self.room.clone();
        let cursor = self.oldest_message_id;
        self.queue_action(PendingAction::GetHistory { room, cursor });
    }

    /// A page of a room's history has come.
    fn receive_history(&mut self, room: String, messages: Vec<HistoryEntry>, has_more: bool)
        requires
            can_number(old(self)@, 1),
        ensures
            final(self)@ == received_history(
                old(self)@,
                room@,
                entries(messages@),
                has_more,
            ),
    {
        if !same_text(self.room.as_str(), room.as_str()) {
            return;
        }
        let oldest = oldest_of(&messages);
        if self.loading_older {
            add_history_backwards(&mut self.messages, self.login.as_str(), &messages);
            self.oldest_message_id = oldest;
            self.loading_older = false;
        } else {
            self.messages.clear();
            self.oldest_message_id = oldest;
            if self.room.as_str().is_empty() {
                self.room = room.clone();
                self.room_selected = position_of_room(&self.rooms, self.room.as_str());
            }
            add_history(&mut self.messages, self.login.as_str(), &messages);
            let text = "Joined room '".to_owned().concat(room.as_str()).concat("'");
            self.say(text);
        }
        self.has_more_history = has_more;
    }

    /// A message has come, before old ones are dropped.
    #[verifier::rlimit(30)]
    fn receive(&mut self, delivery: Delivery)
        requires
            can_number(old(self)@, 1),
        ensures
            final(self)@ == received(old(self)@, delivery@),
    {
        match delivery.message {
            ServerMessage::LoginOk { login } => {
                self.login = login.clone();
                self.connection_state = ConnectionState::LoggedIn { login };
                self.input_mode = InputMode::Normal;
                self.say("Login successful.".to_owned());
                let none = String::new();
                proof {
                    assert(none@ =~= Seq::empty());
                }
                self.join_room(none, "general".to_owned());
            },
            ServerMessage::LoginFailed { reason } => {
                self.connection_state = ConnectionState::Connected;
                self.clear_password();
                self.input_mode = InputMode::EnteringPassword;
                self.say(reason);
            },
            ServerMessage::AccountCreated { login } => {
                self.auth_mode = AuthMode::Login;
                self.login_input = login;
                self.clear_password();
                self.input_mode = InputMode::EnteringLogin;
                self.say("Account created. Please login.".to_owned());
            },
            ServerMessage::AccountCreationFailed { reason } => {
                self.clear_password();
                self.input_mode = InputMode::EnteringPassword;
                self.say(reason);
            },
            ServerMessage::IncomingMessage { login, room, message, timestamp } => {
                if same_text(login.as_str(), "Server") && same_text(room.as_str(), "system") {
                    self.say(message);
                } else if same_text(room.as_str(), self.room.as_str()) {
                    let entry = MessageEntry {
                        id: delivery.id,
                        sender: resolve_sender(self.login.as_str(), login.as_str()),
                        content: message,
                        timestamp,
                        is_own: same_text(login.as_str(), self.login.as_str()),
                        msg_type: MessageType::Chat,
                    };
                    self.messages.insert(delivery.id, entry);
                }
            },
            ServerMessage::RoomList { rooms } => {
                self.rooms = rooms;
                self.room_selected = position_of_room(&self.rooms, self.room.as_str());
            },
            ServerMessage::RoomHistory { room, messages, has_more } => {
                self.receive_history(room, messages, has_more);
            },
            ServerMessage::LogoutOk => {},
            ServerMessage::Error { message, code } => {
                if text_contains(code.as_str(), "NOT_AUTHENTICATED") {
                    self.connection_state = ConnectionState::Connected;
                    self.input_mode = InputMode::Splash;
                }
                let text = "[".to_owned().concat(code.as_str()).concat("] ").concat(
                    message.as_str(),
                );
                self.say(text);
            },
        }
    }

    /// Forget the password that was typed in.
    pub fn clear_password(&mut self)
        ensures
            final(self)@ == (AppView { password_input: Seq::empty(), ..old(self)@ }),
    {
        self.password_input = String::new();
        proof {
            assert(self.password_input@ =~= Seq::empty());
        }
    }

    /// A message has come from the server.
    pub fn handle_server_message(&mut self, delivery: Delivery)
        requires
            can_number(old(self)@, 1),
        ensures
            final(self)@ == handled(old(self)@, delivery@),
    {
        if validate_server_message(&delivery.message).is_err() {
            return;
        }
        self.receive(delivery);
        self.messages.keep_newest(MAX_HISTORY);
        let count: usize = self.messages.len();
        self.message_offset = if count == 0 {
            0
        } else {
            count - 1
        };
    }

    /// Leave the room for want of a connection.
    pub fn reset_room_on_disconnect(&mut self)
        ensures
            final(self)@ == room_reset(old(self)@),
    {
        if !self.room.as_str().is_empty() {
            let room = self.room.clone();
            self.queue_action(PendingAction::LeaveRoom { room });
        }
        self.room = String::new();
        self.room_selected = 0;
        proof {
            assert(self.room@ =~= Seq::empty());
        }
    }

    /// With what to connect again, where that is pending.
    pub fn start_reconnect(&mut self) -> (plan: Option<ReconnectPlan>)
        ensures
            final(self)@ == (AppView { reconnect_pending: false, ..old(self)@ }),
            plan_of(plan) == (if old(self)@.reconnect_pending {
                Some(reconnect_plan(old(self)@))
            } else {
                None
            }),
    {
        if !self.reconnect_pending {
            return None;
        }
        let login = if !self.login.as_str().is_empty() {
            Some(self.login.clone())
        } else if !self.login_input.as_str().is_empty() {
            Some(self.login_input.clone())
        } else {
            None
        };
        let password = match &self.reconnect_password {
            Some(password) => Some(password.clone()),
            None => if !self.password_input.as_str().is_empty() {
                Some(self.password_input.clone())
            } else {
                None
            },
        };
        self.reconnect_pending = false;
        Some(ReconnectPlan { url: self.url.clone(), login, password })
    }

    /// The connection is lost.
    pub fn handle_disconnect(&mut self, close_code: Option<u16>, close_reason: Option<String>) -> (
    plan: Option<ReconnectPlan>)
        requires
            can_number(old(self)@, 1),
        ensures
            final(self)@ == disconnected(old(self)@, close_code, text_of(close_reason)),
            plan_of(plan) == Some(reconnect_plan(old(self)@)),
    {
        self.reset_room_on_disconnect();
        self.connection_state = ConnectionState::Disconnected;
        self.input_mode = InputMode::Disconnected;
        self.reconnect_pending = true;
        let mut text = "Disconnected".to_owned();
        match close_code {
            Some(c) => {
                let code = " (code ".to_owned().concat(u64_text(c as u64).as_str()).concat(")");
                text.append(code.as_str());
            },
            None => {},
        }
        match close_reason {
            Some(r) => {
                let reason = ": ".to_owned().concat(r.as_str());
                text.append(reason.as_str());
            },
            None => {},
        }
        proof {
            assert(text@ =~= disconnect_text(close_code, text_of(close_reason)));
        }
        self.say(text);
        self.start_reconnect()
    }

    /// The connection has failed.
    pub fn handle_connection_error(&mut self, reason: String) -> (plan: Option<ReconnectPlan>)
        requires
            can_number(old(self)@, 2),
        ensures
            final(self)@ == broken(old(self)@, reason@),
            plan_of(plan) == Some(reconnect_plan(old(self)@)),
    {
        self.say("Connection error: ".to_owned().concat(reason.as_str()));
        self.handle_disconnect(None, None)
    }

    /// The connection is there again.
    pub fn handle_reconnected(&mut self)
        ensures
            final(self)@ == reconnected(old(self)@),
    {
        if !self.login.as_str().is_empty() {
            self.input_mode = InputMode::Normal;
        } else {
            self.input_mode = InputMode::Splash;
        }
    }

    /// Something has happened to the connection.
    pub fn handle_event(&mut self, event: AppEvent) -> (outcome: EventOutcome)
        requires
            can_number(old(self)@, 2),
        ensures
            is_outcome(old(self)@, event, final(self)@, outcome),
    {
        match event {
            AppEvent::ReceivedMsg { data } => match text_payload(data) {
                Ok(text) => EventOutcome::Read(text),
                Err(_) => EventOutcome::Nothing,
            },
            AppEvent::Disconnected { close_code, close_reason } => {
                match self.handle_disconnect(close_code, close_reason) {
                    Some(plan) => EventOutcome::Reconnect(plan),
                    None => EventOutcome::Nothing,
                }
            },
            AppEvent::ConnectionError { reason } => match self.handle_connection_error(reason) {
                Some(plan) => EventOutcome::Reconnect(plan),
                None => EventOutcome::Nothing,
            },
            AppEvent::Reconnected => {
                self.handle_reconnected();
                EventOutcome::Nothing
            },
        }
    }

    /// The user asks to connect again.
    pub fn request_reconnect(&mut self) -> (plan: Option<ReconnectPlan>)
        ensures
            final(self)@ == (AppView { reconnect_pending: false, ..old(self)@ }),
            plan_of(plan) == Some(reconnect_plan(old(self)@)),
    {
        self.reconnect_pending = true;
        self.start_reconnect()
    }

    /// The first connection is there, where it was waited for.
    pub fn note_connected(&mut self)
        requires
            can_number(old(self)@, 1),
        ensures
            final(self)@ == (if old(self)@.connection_state is Connecting {
                said(
                    AppView { connection_state: ConnectionStateView::Connected, ..old(self)@ },
                    "Connection established."@,
                )
            } else {
                old(self)@
            }),
    {
        match self.connection_state {
            ConnectionState::Connecting => {
                self.connection_state = ConnectionState::Connected;
                self.say("Connection established.".to_owned());
            },
            _ => {},
        }
    }

    /// The user submits login and password.
    pub fn submit_credentials(&mut self)
        requires
            can_number(old(self)@, 1),
        ensures
            final(self)@ == credentials_submitted(old(self)@),
    {
        let login = trim(self.login_input.as_str()).to_owned();
        if login.as_str().is_empty() || self.password_input.as_str().is_empty() {
            self.say("Login and password are required.".to_owned());
            return;
        }
        let password = self.password_input.clone();
        self.clear_password();
        self.reconnect_password = Some(password.clone());
        match self.auth_mode {
            AuthMode::Login => self.queue_action(PendingAction::Login { login, password }),
            AuthMode::Register => self.queue_action(PendingAction::Register { login, password }),
        }
    }

    /// The user submits a message at a given time in seconds since the Unix epoch.
    pub fn submit_message(&mut self, now: i64)
        requires
            can_number(old(self)@, 1),
        ensures
            final(self)@ == message_submitted(old(self)@, now),
    {
        let message = trim(self.input.as_str()).to_owned();
        if message.as_str().is_empty() || self.room.as_str().is_empty() {
            return;
        }
        let id: u64 = self.system_message_id;
        self.system_message_id = id + 1;
        let entry = MessageEntry {
            id,
            sender: resolve_sender(self.login.as_str(), self.login.as_str()),
            content: message.clone(),
            timestamp: now,
            is_own: true,
            msg_type: MessageType::Chat,
        };
        self.messages.insert(id, entry);
        self.input = String::new();
        proof {
            assert(self.input@ =~= Seq::empty());
        }
        self.input_mode = InputMode::Normal;
        let room = self.room.clone();
        self.queue_action(PendingAction::SendMessage { room, message });
    }

    /// Take the next action and prepare it for sending.
    pub fn run_pending_action(&mut self) -> (prepared: Option<Prepared>)
        ensures
            match prepared {
                Some(p) => old(self)@.pending_actions.len() > 0 && prepares(
                    p,
                    old(self)@.pending_actions[0],
                ) && final(self)@ == (AppView {
                    pending_actions: old(self)@.pending_actions.drop_first(),
                    ..old(self)@
                }),
                None => old(self)@.pending_actions.len() == 0 && final(self)@ == old(self)@,
            },
    {
        if self.pending_actions.len() == 0 {
            return None;
        }
        let ghost before = self.pending_actions@;
        let action = self.pending_actions.remove(0);
        proof {
            assert(actions(self.pending_actions@) =~= actions(before).drop_first());
        }
        let (message, joined) = action_request(action);
        match serialize_client_message(&message) {
            Ok(text) => Some(Prepared::Send { text, joined }),
            Err(reason) => Some(Prepared::Refused { reason }),
        }
    }

    /// An action has been performed, or has failed.
    pub fn handle_action_result(&mut self, result: ActionResult)
        requires
            can_number(old(self)@, 1),
        ensures
            final(self)@ == (match result {
                ActionResult::Failed(reason) => said(old(self)@, "Action failed: "@ + reason@),
                _ => old(self)@,
            }),
    {
        match result {
            ActionResult::Failed(reason) => {
                self.say("Action failed: ".to_owned().concat(reason.as_str()));
            },
            _ => {},
        }
    }
}

} // verus!
