//! What the client shows, and what the keys and clicks of its user do.

use vstd::prelude::*;
use vstd::string::*;

use super::app::{
    asking_older, credentials_submitted, joining_room, message_submitted, said,
};
use super::entry::{in_id_order, EntryView, MessageEntry, MessageType, MessageTypeView};
use super::state::{
    can_number, App, AppView, AuthMode, ConnectionState, ConnectionStateView, InputMode,
};
use super::utils::{
    bubble_time, date_separator_at, day_number, day_of, format_timestamp_bubble, has_date,
    separator_text, FIRST_SECOND, LAST_SECOND,
};
use crate::text::{chars_of, same_text};

verus! {

broadcast use vstd::string::group_string_axioms;

// ── Messages ────────────────────────────────────────────────────────────

/// Something in the list of messages.
#[derive(Clone, Debug, PartialEq, Eq)]
pub enum Item {
    /// A message of the client or the server itself.
    System(String),
    /// The day of the messages that follow.
    Separator(String),
    /// A chat message. The name of the sender is left out for own messages.
    Bubble { sender: String, content: String, time: String, is_own: bool },
}

/// Something in the list of messages, over plain sequences.
pub enum ItemView {
    System(Seq<char>),
    Separator(Seq<char>),
    Bubble { sender: Seq<char>, content: Seq<char>, time: Seq<char>, is_own: bool },
}

impl View for Item {
    type V = ItemView;

    open spec fn view(&self) -> ItemView {
        match self {
            Item::System(text) => ItemView::System(text@),
            Item::Separator(text) => ItemView::Separator(text@),
            Item::Bubble { sender, content, time, is_own } => ItemView::Bubble {
                sender: sender@,
                content: content@,
                time: time@,
                is_own: *is_own,
            },
        }
    }
}

/// The contents of a list of items.
pub open spec fn items(v: Seq<Item>) -> Seq<ItemView> {
    v.map_values(|i: Item| i@)
}

/// The day under which a message stands. One without a date stands under the
/// first day of the Unix epoch.
pub open spec fn shown_day(timestamp: i64) -> int {
    if has_date(timestamp) {
        day_number(timestamp as int)
    } else {
        0
    }
}

/// The day of the last chat message.
pub open spec fn last_day(log: Seq<EntryView>) -> Option<int>
    decreases log.len(),
{
    if log.len() == 0 {
        None
    } else if log.last().msg_type is Chat {
        Some(shown_day(log.last().timestamp))
    } else {
        last_day(log.drop_last())
    }
}

/// A chat message as it is shown.
pub open spec fn bubble(e: EntryView) -> ItemView {
    ItemView::Bubble {
        sender: if e.is_own {
            Seq::empty()
        } else {
            e.sender
        },
        content: e.content,
        time: bubble_time(e.timestamp),
        is_own: e.is_own,
    }
}

/// The list of messages at a given time: each message in order, with a
/// separator before the first chat message of each day.
pub open spec fn shown_items(log: Seq<EntryView>, now: i64) -> Seq<ItemView>
    decreases log.len(),
{
    if log.len() == 0 {
        Seq::empty()
    } else {
        let before = shown_items(log.drop_last(), now);
        let e = log.last();
        match e.msg_type {
            MessageTypeView::System(text) => before.push(ItemView::System(text)),
            MessageTypeView::Chat => if last_day(log.drop_last()) == Some(
                shown_day(e.timestamp),
            ) {
                before.push(bubble(e))
            } else {
                before.push(ItemView::Separator(separator_text(e.timestamp, now))).push(bubble(e))
            },
        }
    }
}

/// The day under which a message stands.
fn day_shown(timestamp: i64) -> (day: i64)
    ensures
        day == shown_day(timestamp),
{
    if FIRST_SECOND <= timestamp && timestamp <= LAST_SECOND {
        day_of(timestamp)
    } else {
        0
    }
}

/// A chat message as it is shown.
fn bubble_of(e: &MessageEntry) -> (item: Item)
    ensures
        item@ == bubble(e@),
{
    let sender = if e.is_own {
        String::new()
    } else {
        e.sender.clone()
    };
    proof {
        if e.is_own {
            assert(sender@ =~= Seq::empty());
        }
    }
    Item::Bubble {
        sender,
        content: e.content.clone(),
        time: format_timestamp_bubble(e.timestamp),
        is_own: e.is_own,
    }
}

impl App {
    /// The list of messages at a given time in seconds since the Unix epoch.
    pub fn visible_items(&self, now: i64) -> (list: Vec<Item>)
        ensures
            items(list@) == shown_items(in_id_order(self@.messages), now),
    {
        let log = self.messages.ordered();
        let ghost all = log@.map_values(|e: &MessageEntry| e@);
        let mut list: Vec<Item> = Vec::new();
        let mut last: Option<i64> = None;
        let mut i: usize = 0;
        proof {
            assert(all.take(0) =~= Seq::empty());
            assert(items(list@) =~= Seq::empty());
        }
        while i < log.len()
            invariant
                all == log@.map_values(|e: &MessageEntry| e@),
                i <= log.len(),
                items(list@) == shown_items(all.take(i as int), now),
                last_day(all.take(i as int)) == (match last {
                    Some(d) => Some(d as int),
                    None => None,
                }),
            decreases log.len() - i,
        {
            let e = log[i];
            let ghost before = list@;
            proof {
                assert(all.take(i + 1).drop_last() =~= all.take(i as int));
                assert(all.take(i + 1).last() == e@);
            }
            match &e.msg_type {
                MessageType::System(text) => {
                    list.push(Item::System(text.clone()));
                    proof {
                        assert(items(list@) =~= items(before).push(ItemView::System(text@)));
                    }
                },
                MessageType::Chat => {
                    let day: i64 = day_shown(e.timestamp);
                    let same = match last {
                        Some(d) => d == day,
                        None => false,
                    };
                    if !same {
                        list.push(Item::Separator(date_separator_at(e.timestamp, now)));
                        last = Some(day);
                    }
                    let ghost with_day = list@;
                    list.push(bubble_of(e));
                    proof {
                        assert(items(list@) =~= items(with_day).push(bubble(e@)));
                        if !same {
                            assert(items(with_day) =~= items(before).push(
                                ItemView::Separator(separator_text(e.timestamp, now)),
                            ));
                        }
                    }
                },
            }
            i = i + 1;
        }
        proof {
            assert(all.take(i as int) =~= all);
        }
        list
    }

    // ── Labels ──────────────────────────────────────────────────────────

    /// The title over the field for the login.
    pub fn login_title(&self) -> (t: &'static str)
        ensures
            t@ == (match self@.auth_mode {
                AuthMode::Login => "Login"@,
                AuthMode::Register => "Create account"@,
            }),
    {
        match self.auth_mode {
            AuthMode::Login => "Login",
            AuthMode::Register => "Create account",
        }
    }

    /// The letter on the avatar: the first of the login, as a capital where it
    /// is an ASCII letter, or `U` where there is no login.
    pub fn avatar_letter(&self) -> (c: char)
        ensures
            c == (if self@.login.len() > 0 {
                ascii_upper(self@.login[0])
            } else {
                'U'
            }),
    {
        let chars = chars_of(self.login.as_str());
        if chars.len() > 0 {
            let c = chars[0];
            if 'a' <= c && c <= 'z' {
                (c as u8 - 32) as char
            } else {
                c
            }
        } else {
            'U'
        }
    }

    /// The label of the room that the client is in.
    pub fn room_title(&self) -> (t: String)
        ensures
            t@ == "# "@ + self@.room,
    {
        "# ".to_owned().concat(self.room.as_str())
    }

    /// The label of a room in the list, and whether it is the one that the
    /// client is in.
    pub fn room_label(&self, index: usize) -> (r: (String, bool))
        requires
            index < self@.rooms.len(),
        ensures
            r.0@ == "#"@ + self@.rooms[index as int],
            r.1 == (self@.rooms[index as int] == self@.room),
    {
        let room = &self.rooms[index];
        (
            "#".to_owned().concat(room.as_str()),
            same_text(room.as_str(), self.room.as_str()),
        )
    }

    /// The state of the connection in words.
    pub fn status_text(&self) -> (t: String)
        ensures
            t@ == (match self@.connection_state {
                ConnectionStateView::Connected => "Connected"@,
                ConnectionStateView::LoggedIn { login } => "Connected as "@ + login,
                ConnectionStateView::Connecting => "Connecting..."@,
                ConnectionStateView::Disconnected => "Disconnected"@,
            }),
    {
        match &self.connection_state {
            ConnectionState::Connected => "Connected".to_owned(),
            ConnectionState::LoggedIn { login } => "Connected as ".to_owned().concat(
                login.as_str(),
            ),
            ConnectionState::Connecting => "Connecting...".to_owned(),
            ConnectionState::Disconnected => "Disconnected".to_owned(),
        }
    }

    /// What the screen without a connection says.
    pub fn disconnected_text(&self) -> (t: &'static str)
        ensures
            t@ == (if self@.connection_state is Connecting {
                "Reconnecting..."@
            } else {
                "The server connection was lost."@
            }),
    {
        match &self.connection_state {
            ConnectionState::Connecting => "Reconnecting...",
            _ => "The server connection was lost.",
        }
    }

    // ── Keys and clicks ─────────────────────────────────────────────────

    /// The user chooses between logging in and registering.
    pub fn choose_auth(&mut self, mode: AuthMode)
        ensures
            final(self)@ == (AppView {
                auth_mode: mode,
                input_mode: InputMode::EnteringLogin,
                ..old(self)@
            }),
    {
        self.auth_mode = mode;
        self.input_mode = InputMode::EnteringLogin;
    }

    /// The user leaves the login or the password by the escape key.
    pub fn escape_auth(&mut self)
        ensures
            final(self)@ == (AppView {
                password_input: Seq::empty(),
                input_mode: InputMode::Splash,
                ..old(self)@
            }),
    {
        self.clear_password();
        self.input_mode = InputMode::Splash;
    }

    /// The user submits or cancels the login.
    pub fn leave_login(&mut self, submit: bool, cancel: bool)
        ensures
            final(self)@ == (AppView {
                input_mode: if cancel {
                    InputMode::Splash
                } else if submit {
                    InputMode::EnteringPassword
                } else {
                    old(self)@.input_mode
                },
                ..old(self)@
            }),
    {
        if submit {
            self.input_mode = InputMode::EnteringPassword;
        }
        if cancel {
            self.input_mode = InputMode::Splash;
        }
    }

    /// The user submits or cancels the password.
    pub fn leave_password(&mut self, submit: bool, cancel: bool)
        requires
            can_number(old(self)@, 1),
        ensures
            ({
                let submitted = if submit {
                    credentials_submitted(old(self)@)
                } else {
                    old(self)@
                };
                final(self)@ == (if cancel {
                    AppView {
                        password_input: Seq::empty(),
                        input_mode: InputMode::Splash,
                        ..submitted
                    }
                } else {
                    submitted
                })
            }),
    {
        if submit {
            self.submit_credentials();
        }
        if cancel {
            self.escape_auth();
        }
    }

    /// The user goes back to the first screen.
    pub fn sign_out(&mut self)
        requires
            can_number(old(self)@, 1),
        ensures
            final(self)@ == said(
                AppView {
                    input_mode: InputMode::Splash,
                    login: Seq::empty(),
                    room: Seq::empty(),
                    messages: Map::empty(),
                    ..old(self)@
                },
                "Connecting to server..."@,
            ),
    {
        self.input_mode = InputMode::Splash;
        self.login = String::new();
        self.room = String::new();
        self.messages.clear();
        proof {
            assert(self.login@ =~= Seq::empty());
            assert(self.room@ =~= Seq::empty());
        }
        self.say("Connecting to server...".to_owned());
    }

    /// The user clicks on a room. It is joined at once by who is logged in and
    /// not in it.
    pub fn select_room(&mut self, index: usize)
        requires
            index < old(self)@.rooms.len(),
        ensures
            final(self)@ == selected(old(self)@, index as int),
    {
        self.room_selected = index;
        let room = self.rooms[index].clone();
        let logged_in = self.connection_state.is_logged_in();
        if logged_in && !same_text(room.as_str(), self.room.as_str()) {
            let old_room = self.room.clone();
            self.join_room(old_room, room);
        } else {
            self.room = room;
        }
    }

    /// The user presses enter under the field for messages, at a given time in
    /// seconds since the Unix epoch. Returns whether this ends the input.
    pub fn press_enter(&mut self, shift: bool, now: i64) -> (ended: bool)
        requires
            can_number(old(self)@, 1),
        ensures
            ended == !shift,
            final(self)@ == (if shift {
                AppView { input: old(self)@.input + "\n"@, ..old(self)@ }
            } else {
                message_submitted(old(self)@, now)
            }),
    {
        if shift {
            self.input.append("\n");
            false
        } else {
            self.submit_message(now);
            true
        }
    }

    /// The user scrolls towards older messages.
    pub fn scroll_up(&mut self)
        ensures
            final(self)@ == (AppView { has_scrolled_up: true, ..old(self)@ }),
    {
        self.has_scrolled_up = true;
    }

    /// The list of messages has been shown, at its top or well below it. At the
    /// top, older messages are loaded for who has scrolled up to it.
    pub fn scrolled(&mut self, at_top: bool, below_top: bool)
        ensures
            ({
                let loaded = if old(self)@.has_scrolled_up && at_top {
                    asking_older(old(self)@)
                } else {
                    old(self)@
                };
                final(self)@ == (if below_top {
                    AppView { has_scrolled_up: false, ..loaded }
                } else {
                    loaded
                })
            }),
    {
        if self.has_scrolled_up && at_top && !self.loading_older && self.has_more_history {
            self.load_older();
        }
        if below_top {
            self.has_scrolled_up = false;
        }
    }
}

/// A character with an ASCII small letter replaced by its capital letter.
pub open spec fn ascii_upper(c: char) -> char {
    if 'a' <= c <= 'z' {
        (c as u32 - 32) as char
    } else {
        c
    }
}

/// The client after the user has clicked on a room.
pub open spec fn selected(a: AppView, index: int) -> AppView {
    let room = a.rooms[index];
    let at = AppView { room_selected: index as nat, ..a };
    if a.connection_state is LoggedIn && room != a.room {
        joining_room(at, a.room, room)
    } else {
        AppView { room, ..at }
    }
}

} // verus!
