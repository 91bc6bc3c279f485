//! What each operation of the client does: what is then shown, what is asked of
//! the server, and what stays as it was.

use vstd::arithmetic::power2::{lemma2_to64, lemma_pow2_unfold};
use vstd::prelude::*;
use vstd::string::*;
use vstd::utf8::encode_utf8;

use super::app::{
    asking_older, broken, credentials_submitted, disconnect_text, disconnected, handled,
    is_outcome, joining_room, message_submitted, prepares, queued, received, reconnect_plan,
    reconnected, room_position, said, with_history, EventOutcome, Prepared, ReconnectPlan,
};
use super::entry::{
    are_ids_of, ids_of, in_id_order, lemma_ids_are_unique, EntryView, MessageEntry, MessageType,
    MessageTypeView,
};
use super::laws::{law_newest_messages_are_kept, lemma_oldest_id};
use super::net::{first_message, is_disconnect, is_error, reconnect_wait, AppEvent};
use super::screen::{
    ascii_upper, bubble, last_day, selected, shown_day, shown_items, Item, ItemView,
};
use super::state::{
    request_of, started, ActionView, App, AppView, AuthMode, ConnectionStateView, InputMode,
    PendingAction,
};
use super::url::with_port;
use super::utils::{
    bubble_time, date_text, day_number, days_before_month, first_day, law_every_day_has_one_date,
    separator_text, shown_sender, year_text,
};
use crate::protocol::error::ProtocolError;
use crate::protocol::frame::Frame;
use crate::protocol::json::client_json;
use crate::protocol::message::{
    ClientMessageView, DeliveryView, HistoryEntryView, ServerMessageView,
};
use crate::protocol::validate::{client_trimmed, client_verdict, server_verdict};
use crate::text::{
    contains_text, decimal, digit, find_text, is_blank, lemma_find_char_at, lemma_find_char_none,
    lemma_find_text_occurs, occurs_at, trimmed,
};

verus! {

broadcast use vstd::string::group_string_axioms;

// ── Words for what is seen ──────────────────────────────────────────────

/// A line of the client or the server itself in the list of messages.
pub open spec fn line(text: Seq<char>) -> EntryView {
    EntryView {
        id: 0,
        sender: "System"@,
        content: Seq::empty(),
        timestamp: 0,
        is_own: false,
        msg_type: MessageTypeView::System(text),
    }
}

/// Whether all that happens from one state to another is that a line is shown,
/// after what changed before it.
pub open spec fn then_says(changed: AppView, after: AppView, text: Seq<char>) -> bool {
    after == (AppView {
        messages: changed.messages.insert(changed.system_message_id, line(text)),
        system_message_id: (changed.system_message_id + 1) as u64,
        ..changed
    })
}

/// A chat message as it stands in the list: with its id, its text and its time,
/// under the name of its sender, or under `You`.
pub open spec fn chat_line(
    own_login: Seq<char>,
    id: u64,
    login: Seq<char>,
    message: Seq<char>,
    timestamp: i64,
) -> EntryView {
    EntryView {
        id,
        sender: if login == own_login {
            "You"@
        } else {
            login
        },
        content: message,
        timestamp,
        is_own: login == own_login,
        msg_type: MessageTypeView::Chat,
    }
}

/// Whether a position is that of the first room of a name in a list, or the
/// first position where there is none.
pub open spec fn is_place_of(place: nat, rooms: Seq<Seq<char>>, room: Seq<char>) -> bool {
    if rooms.contains(room) {
        place < rooms.len() && rooms[place as int] == room && forall|i: int|
            0 <= i < place ==> #[trigger] rooms[i] != room
    } else {
        place == 0
    }
}

// ── What comes from the server ──────────────────────────────────────────

/// A chat message of the client's room is shown with its id, its text and its
/// time, under the name of its sender; it is an own message if its login is the
/// client's. All else stays.
pub proof fn law_chat_messages_are_shown(
    a: AppView,
    id: u64,
    login: Seq<char>,
    room: Seq<char>,
    message: Seq<char>,
    timestamp: i64,
)
    requires
        room == a.room,
        login != "Server"@ || room != "system"@,
    ensures
        ({
            let m = ServerMessageView::IncomingMessage { login, room, message, timestamp };
            let after = received(a, DeliveryView { id, message: m });
            let shown = after.messages[id];
            &&& after.messages.contains_key(id)
            &&& shown.id == id
            &&& shown.content == message
            &&& shown.timestamp == timestamp
            &&& shown.is_own <==> login == a.login
            &&& login == a.login ==> shown.sender == "You"@
            &&& login != a.login ==> shown.sender == login
            &&& shown.msg_type is Chat
            &&& forall|k: u64|
                k != id ==> (#[trigger] after.messages.contains_key(k) <==> a.messages.contains_key(
                    k,
                ))
            &&& forall|k: u64|
                k != id && a.messages.contains_key(k) ==> #[trigger] after.messages[k]
                    == a.messages[k]
            &&& after == (AppView { messages: after.messages, ..a })
        }),
{
}

/// A notice of the server is shown as a line, whatever room the client is in.
pub proof fn law_notices_are_shown(a: AppView, id: u64, message: Seq<char>, timestamp: i64)
    ensures
        then_says(
            a,
            received(
                a,
                DeliveryView {
                    id,
                    message: ServerMessageView::IncomingMessage {
                        login: "Server"@,
                        room: "system"@,
                        message,
                        timestamp,
                    },
                },
            ),
            message,
        ),
{
}

/// Who is logged in is known by the login that the server told, is shown the
/// room `general`, and asks to join it and for its latest messages.
pub proof fn law_login_leads_to_general(a: AppView, id: u64, login: Seq<char>)
    ensures
        received(a, DeliveryView { id, message: ServerMessageView::LoginOk { login } }) == (AppView {
            login,
            connection_state: ConnectionStateView::LoggedIn { login },
            input_mode: InputMode::Normal,
            room: "general"@,
            messages: Map::empty(),
            oldest_message_id: None,
            loading_older: false,
            has_more_history: false,
            has_scrolled_up: false,
            pending_actions: a.pending_actions.push(
                ActionView::JoinRoom { room: "general"@ },
            ).push(ActionView::GetHistory { room: "general"@, cursor: None }),
            system_message_id: (a.system_message_id + 1) as u64,
            ..a
        }),
{
    let after = received(a, DeliveryView { id, message: ServerMessageView::LoginOk { login } });
    assert(after.pending_actions =~= a.pending_actions.push(
        ActionView::JoinRoom { room: "general"@ },
    ).push(ActionView::GetHistory { room: "general"@, cursor: None }));
}

/// Who is not logged in, or has no new account, is told why and asked for the
/// password again; who has a new account is asked to log in under its name.
pub proof fn law_refused_credentials_are_asked_for_again(
    a: AppView,
    id: u64,
    reason: Seq<char>,
    login: Seq<char>,
)
    ensures
        then_says(
            AppView {
                connection_state: ConnectionStateView::Connected,
                password_input: Seq::empty(),
                input_mode: InputMode::EnteringPassword,
                ..a
            },
            received(a, DeliveryView { id, message: ServerMessageView::LoginFailed { reason } }),
            reason,
        ),
        then_says(
            AppView {
                password_input: Seq::empty(),
                input_mode: InputMode::EnteringPassword,
                ..a
            },
            received(
                a,
                DeliveryView { id, message: ServerMessageView::AccountCreationFailed { reason } },
            ),
            reason,
        ),
        then_says(
            AppView {
                auth_mode: AuthMode::Login,
                login_input: login,
                password_input: Seq::empty(),
                input_mode: InputMode::EnteringLogin,
                ..a
            },
            received(
                a,
                DeliveryView { id, message: ServerMessageView::AccountCreated { login } },
            ),
            "Account created. Please login."@,
        ),
{
}

/// The rooms that the server lists are the rooms to choose from, with the
/// client's room marked where it is among them. All else stays.
pub proof fn law_listed_rooms_are_offered(a: AppView, id: u64, rooms: Seq<Seq<char>>)
    ensures
        ({
            let m = ServerMessageView::RoomList { rooms };
            let after = received(a, DeliveryView { id, message: m });
            &&& after.rooms == rooms
            &&& is_place_of(after.room_selected, rooms, a.room)
            &&& after == (AppView { rooms, room_selected: after.room_selected, ..a })
        }),
{
    lemma_room_place(rooms, a.room);
}

/// The position of a room is its place.
proof fn lemma_room_place(rooms: Seq<Seq<char>>, room: Seq<char>)
    ensures
        is_place_of(room_position(rooms, room), rooms, room),
{
    rooms.index_of_first_ensures(room);
}

/// An error is shown with its code. One that asks for a login also leads back to
/// the first screen; any other changes nothing else.
pub proof fn law_errors_are_shown(a: AppView, id: u64, message: Seq<char>, code: Seq<char>)
    ensures
        ({
            let m = ServerMessageView::Error { message, code };
            let after = received(a, DeliveryView { id, message: m });
            let text = "["@ + code + "] "@ + message;
            &&& code == "NOT_AUTHENTICATED"@ ==> then_says(
                AppView {
                    connection_state: ConnectionStateView::Connected,
                    input_mode: InputMode::Splash,
                    ..a
                },
                after,
                text,
            )
            &&& (forall|at: int|
                0 <= at && at + 17 <= code.len() ==> #[trigger] code.subrange(at, at + 17)
                    != "NOT_AUTHENTICATED"@) ==> then_says(a, after, text)
        }),
{
    reveal_strlit("NOT_AUTHENTICATED");
    let part = "NOT_AUTHENTICATED"@;
    if code == part {
        assert(code.subrange(0, 17) =~= part);
        assert(occurs_at(code, part, 0));
    }
    if contains_text(code, part) {
        let at = choose|at: int| occurs_at(code, part, at);
        assert(code.subrange(at, at + 17) == part);
    }
}

/// That the server has logged the client out changes nothing by itself.
pub proof fn law_logout_is_quiet(a: AppView, id: u64)
    ensures
        received(a, DeliveryView { id, message: ServerMessageView::LogoutOk }) == a,
{
}

/// What a page of history adds to a log.
proof fn lemma_history(log: Map<u64, EntryView>, own_login: Seq<char>, page: Seq<HistoryEntryView>)
    ensures
        ({
            let all = with_history(log, own_login, page);
            &&& forall|k: u64|
                #[trigger] all.contains_key(k) <==> log.contains_key(k) || exists|i: int|
                    0 <= i < page.len() && (#[trigger] page[i]).id == k
            &&& forall|k: u64|
                #[trigger] all.contains_key(k) && (forall|i: int|
                    0 <= i < page.len() ==> (#[trigger] page[i]).id != k) ==> all[k] == log[k]
            &&& forall|i: int|
                0 <= i < page.len() && (forall|j: int|
                    i < j < page.len() ==> (#[trigger] page[j]).id != page[i].id)
                    ==> all[(#[trigger] page[i]).id] == chat_line(
                    own_login,
                    page[i].id,
                    page[i].login,
                    page[i].message,
                    page[i].timestamp,
                )
        }),
    decreases page.len(),
{
    if page.len() > 0 {
        let short = page.drop_last();
        let n = page.len() - 1;
        lemma_history(log, own_login, short);
        let before = with_history(log, own_login, short);
        let all = with_history(log, own_login, page);
        assert forall|k: u64| #[trigger] all.contains_key(k) <==> log.contains_key(k) || exists|
            i: int,
        |
            0 <= i < page.len() && (#[trigger] page[i]).id == k by {
            assert(all.contains_key(k) <==> before.contains_key(k) || k == page[n].id);
            if exists|i: int| 0 <= i < short.len() && (#[trigger] short[i]).id == k {
                let i = choose|i: int| 0 <= i < short.len() && (#[trigger] short[i]).id == k;
                assert(page[i].id == k);
            }
            if exists|i: int| 0 <= i < page.len() && (#[trigger] page[i]).id == k {
                let i = choose|i: int| 0 <= i < page.len() && (#[trigger] page[i]).id == k;
                if i < n {
                    assert(short[i].id == k);
                }
            }
        }
        assert forall|k: u64| #[trigger] all.contains_key(k) && (forall|i: int|
            0 <= i < page.len() ==> (#[trigger] page[i]).id != k) implies all[k] == log[k] by {
            assert(page[n].id != k);
            assert(before.contains_key(k));
            assert forall|i: int| 0 <= i < short.len() implies (#[trigger] short[i]).id != k by {
                assert(page[i].id != k);
            }
        }
        assert forall|i: int| 0 <= i < page.len() && (forall|j: int|
            i < j < page.len() ==> (#[trigger] page[j]).id != page[i].id) implies all[(
        #[trigger] page[i]).id] == chat_line(
            own_login,
            page[i].id,
            page[i].login,
            page[i].message,
            page[i].timestamp,
        ) by {
            if i < n {
                assert(page[n].id != page[i].id);
                assert(short[i] == page[i]);
                assert forall|j: int| i < j < short.len() implies (#[trigger] short[j]).id
                    != short[i].id by {
                    assert(page[j].id != page[i].id);
                }
            }
        }
    }
}

/// Whether a log holds just a page of history on top of what was there: each
/// message under its id, with its sender, its text and its time.
pub open spec fn holds_page(
    log: Map<u64, EntryView>,
    before: Map<u64, EntryView>,
    own_login: Seq<char>,
    page: Seq<HistoryEntryView>,
) -> bool {
    &&& forall|k: u64|
        #[trigger] log.contains_key(k) <==> before.contains_key(k) || exists|i: int|
            0 <= i < page.len() && (#[trigger] page[i]).id == k
    &&& forall|k: u64|
        #[trigger] log.contains_key(k) && (forall|i: int|
            0 <= i < page.len() ==> (#[trigger] page[i]).id != k) ==> log[k] == before[k]
    &&& forall|i: int|
        0 <= i < page.len() ==> log[(#[trigger] page[i]).id] == chat_line(
            own_login,
            page[i].id,
            page[i].login,
            page[i].message,
            page[i].timestamp,
        )
}

/// Whether each message of a page has an id of its own.
pub open spec fn ids_differ(page: Seq<HistoryEntryView>) -> bool {
    forall|i: int, j: int| 0 <= i < j < page.len() ==> (#[trigger] page[i]).id != (
    #[trigger] page[j]).id
}

/// The first page of a room replaces what was shown, each message with its
/// sender, its text and its time; the line that the room was joined comes after
/// it. The client remembers whether there is more.
pub proof fn law_first_page_is_shown(
    a: AppView,
    id: u64,
    page: Seq<HistoryEntryView>,
    has_more: bool,
)
    requires
        !a.loading_older,
        a.room.len() > 0,
        ids_differ(page),
    ensures
        ({
            let m = ServerMessageView::RoomHistory { room: a.room, messages: page, has_more };
            let after = received(a, DeliveryView { id, message: m });
            exists|log: Map<u64, EntryView>|
                {
                    &&& holds_page(log, Map::empty(), a.login, page)
                    &&& #[trigger] then_says(
                        AppView {
                            messages: log,
                            oldest_message_id: after.oldest_message_id,
                            has_more_history: has_more,
                            ..a
                        },
                        after,
                        "Joined room '"@ + a.room + "'"@,
                    )
                }
        }),
{
    let m = ServerMessageView::RoomHistory { room: a.room, messages: page, has_more };
    let after = received(a, DeliveryView { id, message: m });
    let log = with_history(Map::empty(), a.login, page);
    lemma_history(Map::empty(), a.login, page);
    assert(then_says(
        AppView {
            messages: log,
            oldest_message_id: after.oldest_message_id,
            has_more_history: has_more,
            ..a
        },
        after,
        "Joined room '"@ + a.room + "'"@,
    ));
}

/// Older messages are added to those that are shown, each with its sender, its
/// text and its time, and are no longer waited for. The client remembers whether
/// there is more, and all else stays.
pub proof fn law_older_messages_are_added(
    a: AppView,
    id: u64,
    page: Seq<HistoryEntryView>,
    has_more: bool,
)
    requires
        a.loading_older,
        ids_differ(page),
    ensures
        ({
            let m = ServerMessageView::RoomHistory { room: a.room, messages: page, has_more };
            let after = received(a, DeliveryView { id, message: m });
            &&& holds_page(after.messages, a.messages, a.login, page)
            &&& after == (AppView {
                messages: after.messages,
                oldest_message_id: after.oldest_message_id,
                loading_older: false,
                has_more_history: has_more,
                ..a
            })
        }),
{
    let back = page.reverse();
    let all = with_history(a.messages, a.login, back);
    lemma_history(a.messages, a.login, back);
    let n = page.len();
    assert forall|i: int| 0 <= i < n implies all[(#[trigger] page[i]).id] == chat_line(
        a.login,
        page[i].id,
        page[i].login,
        page[i].message,
        page[i].timestamp,
    ) by {
        let k = n - 1 - i;
        assert(back[k] == page[i]);
        assert forall|j: int| k < j < n implies (#[trigger] back[j]).id != back[k].id by {
            assert(back[j] == page[n - 1 - j]);
        }
    }
    assert forall|k: u64| #[trigger] all.contains_key(k) <==> a.messages.contains_key(k) || exists|
        i: int,
    |
        0 <= i < n && (#[trigger] page[i]).id == k by {
        if exists|i: int| 0 <= i < n && (#[trigger] page[i]).id == k {
            let i = choose|i: int| 0 <= i < n && (#[trigger] page[i]).id == k;
            assert(back[n - 1 - i].id == k);
        }
        if exists|i: int| 0 <= i < n && (#[trigger] back[i]).id == k {
            let i = choose|i: int| 0 <= i < n && (#[trigger] back[i]).id == k;
            assert(page[n - 1 - i].id == k);
        }
    }
    assert forall|k: u64| #[trigger] all.contains_key(k) && (forall|i: int|
        0 <= i < n ==> (#[trigger] page[i]).id != k) implies all[k] == a.messages[k] by {
        assert forall|i: int| 0 <= i < n implies (#[trigger] back[i]).id != k by {
            assert(page[n - 1 - i].id != k);
        }
    }
}

/// A message that breaks the protocol changes nothing. Any other does what it
/// does, and then the client keeps the newest five hundred messages and turns to
/// the last of them.
pub proof fn law_messages_are_handled(a: AppView, d: DeliveryView)
    requires
        received(a, d).messages.dom().finite(),
    ensures
        server_verdict(d.message) is Err ==> handled(a, d) == a,
        server_verdict(d.message) is Ok ==> ({
            let all = received(a, d).messages;
            let after = handled(a, d);
            let kept = after.messages;
            &&& after == (AppView {
                messages: kept,
                message_offset: after.message_offset,
                ..received(a, d)
            })
            &&& all.len() <= 500 ==> kept == all
            &&& all.len() > 500 ==> kept.len() == 500
            &&& kept.len() > 0 ==> after.message_offset == kept.len() - 1
            &&& kept.len() == 0 ==> after.message_offset == 0
        }),
{
    if server_verdict(d.message) is Ok {
        law_newest_messages_are_kept(a, d);
    }
}

// ── What the user does ──────────────────────────────────────────────────

/// The client starts with nothing but a line that it connects, in the room
/// `general`, under the name that it was given.
pub proof fn law_client_starts(url: Seq<char>, user: Seq<char>)
    ensures
        ({
            let a = started(url, user);
            &&& a.url == url
            &&& a.login == user
            &&& a.login_input == user
            &&& a.running
            &&& a.input.len() == 0
            &&& a.password_input.len() == 0
            &&& a.reconnect_password is None
            &&& a.room == "general"@
            &&& a.rooms == seq!["general"@]
            &&& a.room_selected == 0
            &&& a.input_mode is Splash
            &&& a.auth_mode is Login
            &&& a.connection_state is Connecting
            &&& a.pending_actions.len() == 0
            &&& !a.reconnect_pending
            &&& a.oldest_message_id is None
            &&& !a.loading_older
            &&& !a.has_more_history
            &&& !a.has_scrolled_up
            &&& a.messages == Map::<u64, EntryView>::empty().insert(
                0,
                line("Connecting to server..."@),
            )
            &&& a.message_offset == 0
            &&& a.system_message_id == 1000
        }),
{
}

/// Whether the client has turned from one room to another: it shows nothing of
/// the old one, and asks to leave it, to join the new one and for its latest
/// messages, in this order.
pub open spec fn turns_to(a: AppView, after: AppView, room: Seq<char>) -> bool {
    let first = if a.room.len() > 0 {
        a.pending_actions.push(ActionView::LeaveRoom { room: a.room })
    } else {
        a.pending_actions
    };
    after == (AppView {
        room,
        input_mode: InputMode::Normal,
        messages: Map::empty(),
        oldest_message_id: None,
        loading_older: false,
        has_more_history: false,
        has_scrolled_up: false,
        pending_actions: first.push(ActionView::JoinRoom { room }).push(
            ActionView::GetHistory { room, cursor: None },
        ),
        ..a
    })
}

/// Who is logged in and clicks on another room turns to it. Otherwise the click
/// just marks the room and names it as the client's; nothing is asked.
pub proof fn law_clicking_on_a_room(a: AppView, index: int)
    requires
        0 <= index < a.rooms.len(),
    ensures
        ({
            let room = a.rooms[index];
            let marked = AppView { room_selected: index as nat, ..a };
            if a.connection_state is LoggedIn && room != a.room {
                turns_to(marked, selected(a, index), room)
            } else {
                selected(a, index) == (AppView { room, ..marked })
            }
        }),
{
    let room = a.rooms[index];
    if a.connection_state is LoggedIn && room != a.room {
        let first = if a.room.len() > 0 {
            a.pending_actions.push(ActionView::LeaveRoom { room: a.room })
        } else {
            a.pending_actions
        };
        assert(selected(a, index).pending_actions =~= first.push(
            ActionView::JoinRoom { room },
        ).push(ActionView::GetHistory { room, cursor: None }));
    }
}

/// Who turns to a room that is that of before does not ask to leave it.
pub proof fn law_turning_to_the_same_room(a: AppView, room: Seq<char>)
    ensures
        joining_room(a, room, room) == joining_room(a, Seq::empty(), room),
        joining_room(a, room, room).pending_actions == a.pending_actions.push(
            ActionView::JoinRoom { room },
        ).push(ActionView::GetHistory { room, cursor: None }),
{
}

/// Older messages are asked for before the oldest that came, where there are
/// any and none are waited for; otherwise nothing happens.
pub proof fn law_asking_for_older_messages(a: AppView)
    ensures
        a.loading_older || a.oldest_message_id is None || !a.has_more_history ==> asking_older(a)
            == a,
        !a.loading_older && a.oldest_message_id is Some && a.has_more_history ==> asking_older(a)
            == (AppView {
            loading_older: true,
            pending_actions: a.pending_actions.push(
                ActionView::GetHistory { room: a.room, cursor: a.oldest_message_id },
            ),
            ..a
        }),
{
}

/// What the user submits is shown as an own message under the next number, at
/// the time that it is, without the white space around it, and sent to the room
/// that the user is in. What is blank, or has no room to go to, is not.
pub proof fn law_submitting_a_message(a: AppView, now: i64)
    ensures
        is_blank(a.input) || a.room.len() == 0 ==> message_submitted(a, now) == a,
        !is_blank(a.input) && a.room.len() > 0 ==> message_submitted(a, now) == (AppView {
            messages: a.messages.insert(
                a.system_message_id,
                EntryView {
                    id: a.system_message_id,
                    sender: "You"@,
                    content: trimmed(a.input),
                    timestamp: now,
                    is_own: true,
                    msg_type: MessageTypeView::Chat,
                },
            ),
            system_message_id: (a.system_message_id + 1) as u64,
            input: Seq::empty(),
            input_mode: InputMode::Normal,
            pending_actions: a.pending_actions.push(
                ActionView::SendMessage { room: a.room, message: trimmed(a.input) },
            ),
            ..a
        }),
{
}

/// Login and password are sent as they were typed, but for the white space
/// around the login, to log in or to register as the user chose. The password
/// is kept for the next connection, and no longer stands in its field. Where
/// one of the two is missing, the user is told so.
pub proof fn law_submitting_credentials(a: AppView)
    ensures
        is_blank(a.login_input) || a.password_input.len() == 0 ==> then_says(
            a,
            credentials_submitted(a),
            "Login and password are required."@,
        ),
        !is_blank(a.login_input) && a.password_input.len() > 0 ==> credentials_submitted(a) == (
        AppView {
            password_input: Seq::empty(),
            reconnect_password: Some(a.password_input),
            pending_actions: a.pending_actions.push(
                if a.auth_mode is Login {
                    ActionView::Login {
                        login: trimmed(a.login_input),
                        password: a.password_input,
                    }
                } else {
                    ActionView::Register {
                        login: trimmed(a.login_input),
                        password: a.password_input,
                    }
                },
            ),
            ..a
        }),
{
}

/// Each action is asked for by the message of its kind, with just its names,
/// its texts and its cursor.
pub proof fn law_actions_are_asked_for(
    login: Seq<char>,
    password: Seq<char>,
    room: Seq<char>,
    message: Seq<char>,
    cursor: Option<u64>,
)
    ensures
        request_of(ActionView::Login { login, password }) == (ClientMessageView::Login {
            login,
            passwd: password,
        }),
        request_of(ActionView::Register { login, password }) == (ClientMessageView::CreateAccount {
            login,
            passwd: password,
        }),
        request_of(ActionView::SendMessage { room, message }) == (ClientMessageView::SendMessage {
            room,
            message,
        }),
        request_of(ActionView::LeaveRoom { room }) == (ClientMessageView::LeaveRoom { room }),
        request_of(ActionView::JoinRoom { room }) == (ClientMessageView::JoinRoom { room }),
        request_of(ActionView::GetHistory { room, cursor }) == (ClientMessageView::GetHistory {
            room,
            cursor,
        }),
{
}

// ── The connection ──────────────────────────────────────────────────────

/// Who loses the connection leaves the room, is shown why as far as it is known,
/// and asks to leave the room over the next connection. All else stays.
pub proof fn law_losing_the_connection(
    a: AppView,
    code: Option<u16>,
    reason: Option<Seq<char>>,
)
    ensures
        ({
            let text = match (code, reason) {
                (Some(c), Some(r)) => "Disconnected (code "@ + decimal(c as nat) + "): "@ + r,
                (Some(c), None) => "Disconnected (code "@ + decimal(c as nat) + ")"@,
                (None, Some(r)) => "Disconnected: "@ + r,
                (None, None) => "Disconnected"@,
            };
            then_says(
                AppView {
                    connection_state: ConnectionStateView::Disconnected,
                    input_mode: InputMode::Disconnected,
                    room: Seq::empty(),
                    room_selected: 0,
                    reconnect_pending: false,
                    pending_actions: if a.room.len() > 0 {
                        a.pending_actions.push(ActionView::LeaveRoom { room: a.room })
                    } else {
                        a.pending_actions
                    },
                    ..a
                },
                disconnected(a, code, reason),
                text,
            )
        }),
{
    reveal_strlit("Disconnected");
    reveal_strlit(" (code ");
    reveal_strlit("Disconnected (code ");
    reveal_strlit(")");
    reveal_strlit("): ");
    reveal_strlit(": ");
    reveal_strlit("Disconnected: ");
    let text = disconnect_text(code, reason);
    match (code, reason) {
        (Some(c), Some(r)) => {
            assert(text =~= "Disconnected (code "@ + decimal(c as nat) + "): "@ + r);
        },
        (Some(c), None) => {
            assert(text =~= "Disconnected (code "@ + decimal(c as nat) + ")"@);
        },
        (None, Some(r)) => {
            assert(text =~= "Disconnected: "@ + r);
        },
        (None, None) => {
            assert(text =~= "Disconnected"@);
        },
    }
}

/// An error of the connection is shown and then treated as its loss.
pub proof fn law_connection_errors(a: AppView, reason: Seq<char>)
    ensures
        ({
            let said = AppView {
                messages: a.messages.insert(
                    a.system_message_id,
                    line("Connection error: "@ + reason),
                ),
                system_message_id: (a.system_message_id + 1) as u64,
                ..a
            };
            broken(a, reason) == disconnected(said, None, None)
        }),
{
}

/// A new connection leads to the chat for who has a login and to the first
/// screen for who has none. All else stays.
pub proof fn law_connection_is_back(a: AppView)
    ensures
        a.login.len() > 0 ==> reconnected(a) == (AppView { input_mode: InputMode::Normal, ..a }),
        a.login.len() == 0 ==> reconnected(a) == (AppView { input_mode: InputMode::Splash, ..a }),
{
}

/// The client connects again to the same server with the login that it had, or
/// else that was typed in, and the password that it used last, or else that was
/// typed in; over the new connection it sends just these, if it has both.
pub proof fn law_connecting_again(a: AppView)
    ensures
        ({
            let plan = reconnect_plan(a);
            &&& plan.url == a.url
            &&& a.login.len() > 0 ==> plan.login == Some(a.login)
            &&& a.login.len() == 0 && a.login_input.len() > 0 ==> plan.login == Some(a.login_input)
            &&& a.login.len() == 0 && a.login_input.len() == 0 ==> plan.login is None
            &&& a.reconnect_password is Some ==> plan.password == a.reconnect_password
            &&& a.reconnect_password is None && a.password_input.len() > 0 ==> plan.password
                == Some(a.password_input)
            &&& a.reconnect_password is None && a.password_input.len() == 0
                ==> plan.password is None
        }),
        forall|login: Seq<char>, passwd: Seq<char>|
            {
                let m = ClientMessageView::Login { login, passwd };
                #[trigger] first_message(Some(login), Some(passwd)) == (if login.len() > 0
                    && passwd.len() > 0 && client_verdict(m) is Ok {
                    Some(client_json(m))
                } else {
                    None
                })
            },
        forall|one: Option<Seq<char>>, other: Option<Seq<char>>|
            one is None || other is None ==> #[trigger] first_message(one, other) is None,
{
}

/// The wait before an attempt to connect again is one second at first and twice
/// the one before each time, up to thirty seconds.
pub proof fn law_reconnect_waits_double(attempts: nat)
    ensures
        reconnect_wait(0) == 1,
        reconnect_wait(attempts + 1) == (if 2 * reconnect_wait(attempts) < 30 {
            2 * reconnect_wait(attempts)
        } else {
            30
        }),
{
    lemma2_to64();
    lemma_pow2_unfold(attempts + 1);
}

// ── The list of messages ────────────────────────────────────────────────

/// Whether the last chat message of a log is of a given day, counted from the
/// Unix epoch.
pub open spec fn ends_on(log: Seq<EntryView>, day: int) -> bool {
    exists|i: int|
        {
            &&& 0 <= i < log.len()
            &&& (#[trigger] log[i]).msg_type is Chat
            &&& forall|j: int| i < j < log.len() ==> !((#[trigger] log[j]).msg_type is Chat)
            &&& has_day(log[i].timestamp, day)
        }
}

/// Whether a time is of a given day. Times that have no date count as of the
/// first.
pub open spec fn has_day(timestamp: i64, day: int) -> bool {
    if -8_334_601_228_800 <= timestamp <= 8_210_266_876_799 {
        day * 86_400 <= timestamp < (day + 1) * 86_400
    } else {
        day == 0
    }
}

/// The day of the last chat message.
proof fn lemma_last_day(log: Seq<EntryView>, day: int)
    ensures
        last_day(log) == Some(day) <==> ends_on(log, day),
    decreases log.len(),
{
    if log.len() > 0 {
        let n = log.len() - 1;
        let short = log.drop_last();
        assert(log[n] == log.last());
        if log.last().msg_type is Chat {
            if ends_on(log, day) {
                let i = choose|i: int|
                    {
                        &&& 0 <= i < log.len()
                        &&& (#[trigger] log[i]).msg_type is Chat
                        &&& forall|j: int| i < j < log.len() ==> !((
                        #[trigger] log[j]).msg_type is Chat)
                        &&& has_day(log[i].timestamp, day)
                    };
                assert(i == n);
            }
        } else {
            lemma_last_day(short, day);
            if ends_on(short, day) {
                let i = choose|i: int|
                    {
                        &&& 0 <= i < short.len()
                        &&& (#[trigger] short[i]).msg_type is Chat
                        &&& forall|j: int| i < j < short.len() ==> !((
                        #[trigger] short[j]).msg_type is Chat)
                        &&& has_day(short[i].timestamp, day)
                    };
                assert(log[i] == short[i]);
                assert forall|j: int| i < j < log.len() implies !((
                #[trigger] log[j]).msg_type is Chat) by {
                    if j < n {
                        assert(short[j] == log[j]);
                    }
                }
            }
            if ends_on(log, day) {
                let i = choose|i: int|
                    {
                        &&& 0 <= i < log.len()
                        &&& (#[trigger] log[i]).msg_type is Chat
                        &&& forall|j: int| i < j < log.len() ==> !((
                        #[trigger] log[j]).msg_type is Chat)
                        &&& has_day(log[i].timestamp, day)
                    };
                assert(short[i] == log[i]);
                assert forall|j: int| i < j < short.len() implies !((
                #[trigger] short[j]).msg_type is Chat) by {
                    assert(log[j] == short[j]);
                }
            }
        }
    }
}

/// A message is shown after those before it: a line by its text; a chat message
/// by its text, its time and, unless it is an own one, its sender, under a
/// separator where its day is another than that of the chat message before it.
pub proof fn law_messages_are_listed(log: Seq<EntryView>, e: EntryView, day: int, now: i64)
    requires
        has_day(e.timestamp, day),
    ensures
        shown_items(Seq::empty(), now).len() == 0,
        ({
            let before = shown_items(log, now);
            let after = shown_items(log.push(e), now);
            let bubble = ItemView::Bubble {
                sender: if e.is_own {
                    Seq::empty()
                } else {
                    e.sender
                },
                content: e.content,
                time: bubble_time(e.timestamp),
                is_own: e.is_own,
            };
            match e.msg_type {
                MessageTypeView::System(text) => after == before.push(ItemView::System(text)),
                MessageTypeView::Chat => if ends_on(log, day) {
                    after == before.push(bubble)
                } else {
                    after == before.push(
                        ItemView::Separator(separator_text(e.timestamp, now)),
                    ).push(bubble)
                },
            }
        }),
{
    lemma_one_item_more(log, e, now);
    lemma_shown_day(e.timestamp, day);
    lemma_last_day(log, day);
}

/// What one message more adds to the list.
proof fn lemma_one_item_more(log: Seq<EntryView>, e: EntryView, now: i64)
    ensures
        shown_items(Seq::empty(), now).len() == 0,
        ({
            let before = shown_items(log, now);
            let after = shown_items(log.push(e), now);
            match e.msg_type {
                MessageTypeView::System(text) => after == before.push(ItemView::System(text)),
                MessageTypeView::Chat => if last_day(log) == Some(shown_day(e.timestamp)) {
                    after == before.push(bubble(e))
                } else {
                    after == before.push(
                        ItemView::Separator(separator_text(e.timestamp, now)),
                    ).push(bubble(e))
                },
            }
        }),
{
    assert(log.push(e).drop_last() =~= log);
}

/// The day under which a message stands is the day of its time.
proof fn lemma_shown_day(timestamp: i64, day: int)
    requires
        has_day(timestamp, day),
    ensures
        shown_day(timestamp) == day,
{
    if -8_334_601_228_800 <= timestamp <= 8_210_266_876_799 {
        lemma_day(timestamp as int, day);
    }
}

/// The number of a day.
proof fn lemma_day(second: int, day: int)
    requires
        day * 86_400 <= second < (day + 1) * 86_400,
    ensures
        second / 86_400 == day,
        day_number(second) == day,
{
}

/// The sender is shown as `You` for the own login and by name for any other.
pub proof fn law_senders_are_named(own: Seq<char>, other: Seq<char>)
    ensures
        shown_sender(own, own) == "You"@,
        own != other ==> shown_sender(own, other) == other,
{
}

/// A time is shown by hour and minute in two digits each, in UTC; one without a
/// date by question marks.
pub proof fn law_times_are_shown(timestamp: i64, hour: int, minute: int, second: int, day: int)
    requires
        0 <= hour < 24,
        0 <= minute < 60,
        0 <= second < 60,
        timestamp == day * 86_400 + hour * 3_600 + minute * 60 + second,
    ensures
        -8_334_601_228_800 <= timestamp <= 8_210_266_876_799 ==> bubble_time(timestamp) == seq![
            digit((hour / 10) as nat),
            digit((hour % 10) as nat),
            ':',
            digit((minute / 10) as nat),
            digit((minute % 10) as nat),
        ],
        !(-8_334_601_228_800 <= timestamp <= 8_210_266_876_799) ==> bubble_time(timestamp)
            == "??:??"@,
{
    lemma_time_of_day(timestamp as int, hour, minute, second, day);
    if -8_334_601_228_800 <= timestamp <= 8_210_266_876_799 {
        assert(bubble_time(timestamp) =~= seq![
            digit((hour / 10) as nat),
            digit((hour % 10) as nat),
            ':',
            digit((minute / 10) as nat),
            digit((minute % 10) as nat),
        ]);
    }
}

/// The hour and the minute of a second.
proof fn lemma_time_of_day(timestamp: int, hour: int, minute: int, second: int, day: int)
    requires
        0 <= hour < 24,
        0 <= minute < 60,
        0 <= second < 60,
        timestamp == day * 86_400 + hour * 3_600 + minute * 60 + second,
    ensures
        timestamp % 86_400 / 3_600 == hour,
        timestamp % 86_400 / 60 % 60 == minute,
{
    let of_day = hour * 3_600 + minute * 60 + second;
    assert(timestamp % 86_400 == of_day) by {
        vstd::arithmetic::div_mod::lemma_fundamental_div_mod_converse(
            timestamp,
            86_400,
            day,
            of_day,
        );
    }
    vstd::arithmetic::div_mod::lemma_fundamental_div_mod_converse(
        of_day,
        3_600,
        hour,
        minute * 60 + second,
    );
    vstd::arithmetic::div_mod::lemma_fundamental_div_mod_converse(
        of_day,
        60,
        hour * 60 + minute,
        second,
    );
    vstd::arithmetic::div_mod::lemma_fundamental_div_mod_converse(
        hour * 60 + minute,
        60,
        hour,
        minute,
    );
}

/// Messages of today and of yesterday stand under these words, and those of any
/// other day under its date: day, month and year of the calendar.
pub proof fn law_days_are_named(
    timestamp: i64,
    now: i64,
    day: int,
    today: int,
    year: int,
    month: int,
    of_month: int,
)
    requires
        day * 86_400 <= timestamp < (day + 1) * 86_400,
        today * 86_400 <= now < (today + 1) * 86_400,
        -8_334_601_228_800 <= timestamp <= 8_210_266_876_799,
        1000 <= year <= 9999,
        1 <= month <= 12,
        1 <= of_month <= days_before_month(year, month + 1)
            - days_before_month(year, month),
        first_day(year) + days_before_month(year, month) + of_month - 1
            == day,
    ensures
        day == today ==> separator_text(timestamp, now) == "Today"@,
        day == today - 1 ==> separator_text(timestamp, now) == "Yesterday"@,
        day != today && day != today - 1 ==> separator_text(timestamp, now) == seq![
            digit((of_month / 10) as nat),
            digit((of_month % 10) as nat),
            '/',
            digit((month / 10) as nat),
            digit((month % 10) as nat),
            '/',
            digit((year / 1000) as nat),
            digit((year / 100 % 10) as nat),
            digit((year / 10 % 10) as nat),
            digit((year % 10) as nat),
        ],
{
    lemma_day(timestamp as int, day);
    lemma_day(now as int, today);
    law_every_day_has_one_date(day, year, month, of_month);
    lemma_year_digits(year);
    assert(date_text(timestamp as int) =~= seq![
        digit((of_month / 10) as nat),
        digit((of_month % 10) as nat),
        '/',
        digit((month / 10) as nat),
        digit((month % 10) as nat),
        '/',
        digit((year / 1000) as nat),
        digit((year / 100 % 10) as nat),
        digit((year / 10 % 10) as nat),
        digit((year % 10) as nat),
    ]);
}

/// A year of four digits.
proof fn lemma_year_digits(year: int)
    requires
        1000 <= year <= 9999,
    ensures
        year_text(year) == seq![
            digit((year / 1000) as nat),
            digit((year / 100 % 10) as nat),
            digit((year / 10 % 10) as nat),
            digit((year % 10) as nat),
        ],
{
    assert(year / 100 / 10 == year / 1000);
    assert(year % 100 / 10 == year / 10 % 10);
    assert(year % 100 % 10 == year % 10);
    assert(year_text(year) =~= seq![
        digit((year / 1000) as nat),
        digit((year / 100 % 10) as nat),
        digit((year / 10 % 10) as nat),
        digit((year % 10) as nat),
    ]);
}

/// The messages are shown in the order of their ids, each once.
pub proof fn law_messages_are_in_order(log: Map<u64, EntryView>, ids: Seq<u64>)
    requires
        forall|i: int, j: int| 0 <= i < j < ids.len() ==> ids[i] < ids[j],
        forall|id: u64| #[trigger] log.contains_key(id) <==> ids.contains(id),
    ensures
        in_id_order(log).len() == ids.len(),
        forall|i: int| 0 <= i < ids.len() ==> #[trigger] in_id_order(log)[i] == log[ids[i]],
{
    assert(ids.to_set() =~= log.dom()) by {
        assert forall|id: u64| ids.to_set().contains(id) <==> log.dom().contains(id) by {
            assert(log.contains_key(id) <==> ids.contains(id));
        }
    }
    assert(are_ids_of(ids, log));
    lemma_ids_are_unique(ids, ids_of(log), log);
}

// ── The address of the server ───────────────────────────────────────────

/// Whether a character stands nowhere in a text.
pub open spec fn lacks(s: Seq<char>, c: char) -> bool {
    forall|i: int| 0 <= i < s.len() ==> #[trigger] s[i] != c
}

/// Where the scheme of a URL ends.
proof fn lemma_scheme(scheme: Seq<char>, rest: Seq<char>)
    requires
        lacks(scheme, ':'),
    ensures
        find_text(scheme + "://"@ + rest, "://"@, 0) == Some(scheme.len() as int),
{
    reveal_strlit("://");
    let url = scheme + "://"@ + rest;
    let part = "://"@;
    let n = scheme.len() as int;
    lemma_find_text_occurs(url, part, 0);
    assert(url.subrange(n, n + 3) =~= part);
    assert(occurs_at(url, part, n));
    assert forall|k: int| 0 <= k < n implies !#[trigger] occurs_at(url, part, k) by {
        if occurs_at(url, part, k) {
            assert(url.subrange(k, k + 3)[0] == url[k]);
            assert(url[k] == scheme[k]);
        }
    }
}

/// The port of a URL is put after its host, and what comes after host and port
/// is kept, whether the URL had a port before or not.
pub proof fn law_port_is_put_after_the_host(
    scheme: Seq<char>,
    host: Seq<char>,
    old: Seq<char>,
    path: Seq<char>,
    port: u16,
)
    requires
        lacks(scheme, ':'),
        lacks(host, ':') && lacks(host, '/') && lacks(host, ']'),
        lacks(old, '/') && lacks(old, ']'),
        path.len() > 0 ==> path[0] == '/',
        lacks(path, ']'),
    ensures
        ({
            let start = scheme + "://"@ + host;
            let with = start + ":"@ + decimal(port as nat) + path;
            &&& with_port(start + (":"@ + old + path), port) == with
            &&& lacks(path, ':') ==> with_port(start + path, port) == with
        }),
{
    reveal_strlit("://");
    reveal_strlit(":");
    let start = scheme + "://"@ + host;
    let at = scheme.len() as int + 3;
    let end = at + host.len();
    let with = start + ":"@ + decimal(port as nat) + path;
    // With a port.
    let tail = ":"@ + old + path;
    let url = start + tail;
    assert(url =~= scheme + "://"@ + (host + tail));
    lemma_scheme(scheme, host + tail);
    assert forall|k: int| at <= k < url.len() implies #[trigger] url[k] != ']' by {
        if k < end {
            assert(url[k] == host[k - at]);
        } else if k > end && k <= end + old.len() {
            assert(url[k] == old[k - end - 1]);
        } else if k > end + old.len() {
            assert(url[k] == path[k - end - 1 - old.len()]);
        }
    }
    lemma_find_char_none(url, ']', at);
    assert forall|k: int| at <= k < end implies #[trigger] url[k] != ':' by {
        assert(url[k] == host[k - at]);
    }
    assert(url[end] == ':');
    lemma_find_char_at(url, ':', at, end);
    assert forall|k: int| end <= k < end + 1 + old.len() implies #[trigger] url[k] != '/' by {
        if k > end {
            assert(url[k] == old[k - end - 1]);
        }
    }
    let slash = end + 1 + old.len();
    if path.len() > 0 {
        assert(url[slash] == path[0]);
        lemma_find_char_at(url, '/', end, slash);
        assert(url.skip(slash) =~= path);
    } else {
        lemma_find_char_none(url, '/', end);
    }
    assert(url.take(end) =~= start);
    assert(with_port(url, port) =~= with);
    // Without one.
    if lacks(path, ':') {
        let bare = start + path;
        assert(bare =~= scheme + "://"@ + (host + path));
        lemma_scheme(scheme, host + path);
        assert forall|k: int| at <= k < bare.len() implies #[trigger] bare[k] != ']' && bare[k]
            != ':' by {
            if k < end {
                assert(bare[k] == host[k - at]);
            } else {
                assert(bare[k] == path[k - end]);
            }
        }
        lemma_find_char_none(bare, ']', at);
        lemma_find_char_none(bare, ':', at);
        assert forall|k: int| at <= k < end implies #[trigger] bare[k] != '/' by {
            assert(bare[k] == host[k - at]);
        }
        if path.len() > 0 {
            assert(bare[end] == path[0]);
            lemma_find_char_at(bare, '/', at, end);
            assert(bare.skip(end) =~= path);
        } else {
            lemma_find_char_none(bare, '/', at);
        }
        assert(bare.take(end) =~= start);
        assert(with_port(bare, port) =~= with);
    }
}

/// The port of a URL whose host is in brackets is put after them, whatever
/// colons stand between them.
pub proof fn law_port_is_put_after_the_brackets(
    scheme: Seq<char>,
    inside: Seq<char>,
    old: Seq<char>,
    path: Seq<char>,
    port: u16,
)
    requires
        lacks(scheme, ':'),
        lacks(inside, '/') && lacks(inside, ']'),
        lacks(old, '/'),
        path.len() > 0 ==> path[0] == '/',
    ensures
        ({
            let start = scheme + "://"@ + (seq!['['] + inside + seq![']']);
            let with = start + ":"@ + decimal(port as nat) + path;
            &&& with_port(start + (":"@ + old + path), port) == with
            &&& lacks(path, ':') ==> with_port(start + path, port) == with
        }),
{
    reveal_strlit("://");
    reveal_strlit(":");
    let host = seq!['['] + inside + seq![']'];
    let start = scheme + "://"@ + host;
    let at = scheme.len() as int + 3;
    let end = at + host.len();
    let bracket = end - 1;
    let with = start + ":"@ + decimal(port as nat) + path;
    // With a port.
    let tail = ":"@ + old + path;
    let url = start + tail;
    assert(url =~= scheme + "://"@ + (host + tail));
    lemma_scheme(scheme, host + tail);
    assert forall|k: int| at <= k < bracket implies #[trigger] url[k] != ']' by {
        assert(url[k] == host[k - at]);
        if k > at {
            assert(host[k - at] == inside[k - at - 1]);
        }
    }
    assert(url[bracket] == ']');
    lemma_find_char_at(url, ']', at, bracket);
    assert(url[end] == ':');
    lemma_find_char_at(url, ':', bracket, end);
    assert forall|k: int| end <= k < end + 1 + old.len() implies #[trigger] url[k] != '/' by {
        if k > end {
            assert(url[k] == old[k - end - 1]);
        }
    }
    let slash = end + 1 + old.len();
    if path.len() > 0 {
        assert(url[slash] == path[0]);
        lemma_find_char_at(url, '/', end, slash);
        assert(url.skip(slash) =~= path);
    } else {
        lemma_find_char_none(url, '/', end);
    }
    assert(url.take(end) =~= start);
    assert(with_port(url, port) =~= with);
    // Without one.
    if lacks(path, ':') {
        let bare = start + path;
        assert(bare =~= scheme + "://"@ + (host + path));
        lemma_scheme(scheme, host + path);
        assert forall|k: int| at <= k < bracket implies #[trigger] bare[k] != ']' by {
            assert(bare[k] == host[k - at]);
            if k > at {
                assert(host[k - at] == inside[k - at - 1]);
            }
        }
        assert(bare[bracket] == ']');
        lemma_find_char_at(bare, ']', at, bracket);
        assert forall|k: int| bracket <= k < bare.len() implies #[trigger] bare[k] != ':' by {
            if k > bracket {
                assert(bare[k] == path[k - end]);
            }
        }
        lemma_find_char_none(bare, ':', bracket);
        assert forall|k: int| at <= k < end implies #[trigger] bare[k] != '/' by {
            assert(bare[k] == host[k - at]);
            if at < k < bracket {
                assert(host[k - at] == inside[k - at - 1]);
            }
        }
        if path.len() > 0 {
            assert(bare[end] == path[0]);
            lemma_find_char_at(bare, '/', at, end);
            assert(bare.skip(end) =~= path);
        } else {
            lemma_find_char_none(bare, '/', at);
        }
        assert(bare.take(end) =~= start);
        assert(with_port(bare, port) =~= with);
    }
}

/// What has no scheme is no URL and is left as it is.
pub proof fn law_other_texts_keep_their_port(text: Seq<char>, port: u16)
    requires
        forall|at: int| 0 <= at && at + 3 <= text.len() ==> #[trigger] text.subrange(at, at + 3)
            != "://"@,
    ensures
        with_port(text, port) == text,
{
    reveal_strlit("://");
    lemma_find_text_occurs(text, "://"@, 0);
    if find_text(text, "://"@, 0) is Some {
        let at = find_text(text, "://"@, 0)->0;
        assert(text.subrange(at, at + 3) == "://"@);
    }
}

// ── Events and actions ──────────────────────────────────────────────────

/// The client reads just the text of a frame that carries one, connects again
/// when the connection is lost or fails, and shows which of the two it was.
pub proof fn law_events(before: AppView, event: AppEvent, after: AppView, outcome: EventOutcome)
    requires
        is_outcome(before, event, after, outcome),
    ensures
        match event {
            AppEvent::ReceivedMsg { data } => {
                &&& after == before
                &&& match data {
                    Frame::Text(text) => if encode_utf8(text@).len() <= 2_097_152 {
                        outcome is Read && outcome->Read_0@ == text@
                    } else {
                        outcome is Nothing
                    },
                    _ => outcome is Nothing,
                }
            },
            AppEvent::Disconnected { close_code, close_reason: None } => {
                &&& after == disconnected(before, close_code, None)
                &&& outcome is Reconnect
                &&& outcome->Reconnect_0@ == reconnect_plan(before)
            },
            AppEvent::Disconnected { close_code, close_reason: Some(reason) } => {
                &&& after == disconnected(before, close_code, Some(reason@))
                &&& outcome is Reconnect
                &&& outcome->Reconnect_0@ == reconnect_plan(before)
            },
            AppEvent::ConnectionError { reason } => {
                &&& after == broken(before, reason@)
                &&& outcome is Reconnect
                &&& outcome->Reconnect_0@ == reconnect_plan(before)
            },
            AppEvent::Reconnected => after == reconnected(before) && outcome is Nothing,
        },
{
}

/// An action is sent as the text of its message, with its names trimmed, if the
/// protocol accepts it, and refused for the reason of the protocol if not. Only
/// joining a room counts as having joined one.
pub proof fn law_actions_are_sent(p: Prepared, action: ActionView)
    requires
        prepares(p, action),
    ensures
        ({
            let m = client_trimmed(request_of(action));
            &&& p is Send <==> client_verdict(m) is Ok
            &&& p matches Prepared::Send { text, joined } ==> text@ == client_json(m) && (joined
                <==> action is JoinRoom)
            &&& p matches Prepared::Refused { reason } ==> client_verdict(m) == Err::<
                (),
                ProtocolError,
            >(reason)
        }),
{
}

/// Showing a line and queueing an action do just that.
pub proof fn law_lines_and_actions(a: AppView, text: Seq<char>, action: ActionView)
    ensures
        then_says(a, said(a, text), text),
        queued(a, action) == (AppView { pending_actions: a.pending_actions.push(action), ..a }),
{
}

/// Who turns from one room to another asks to leave the one, to join the other
/// and for its latest messages, in this order.
pub proof fn law_turning_to_a_room(a: AppView, old_room: Seq<char>, room: Seq<char>)
    requires
        old_room.len() > 0,
        old_room != room,
    ensures
        turns_to(
            AppView { room: old_room, ..a },
            joining_room(a, old_room, room),
            room,
        ),
{
    assert(joining_room(a, old_room, room).pending_actions =~= a.pending_actions.push(
        ActionView::LeaveRoom { room: old_room },
    ).push(ActionView::JoinRoom { room }).push(ActionView::GetHistory { room, cursor: None }));
}

/// The cursor for the next older page is the smallest id of the page that came,
/// and there is none after an empty page.
pub proof fn law_oldest_message_is_remembered(
    a: AppView,
    id: u64,
    page: Seq<HistoryEntryView>,
    has_more: bool,
)
    ensures
        ({
            let m = ServerMessageView::RoomHistory { room: a.room, messages: page, has_more };
            let oldest = received(a, DeliveryView { id, message: m }).oldest_message_id;
            &&& oldest is None <==> page.len() == 0
            &&& page.len() > 0 ==> exists|i: int|
                0 <= i < page.len() && (#[trigger] page[i]).id == oldest->0
            &&& forall|i: int| 0 <= i < page.len() ==> oldest->0 <= (#[trigger] page[i]).id
        }),
{
    lemma_oldest_id(page);
}

/// A message without a date stands under the word for today.
pub proof fn law_days_without_date(timestamp: i64, now: i64)
    requires
        timestamp < -8_334_601_228_800 || timestamp > 8_210_266_876_799,
    ensures
        separator_text(timestamp, now) == "Today"@,
{
}

// ── Values and what is said of them ─────────────────────────────────────

/// What is said of the client is said of its own fields.
pub proof fn law_client_is_seen(app: App)
    ensures
        app@.url == app.url@,
        app@.running == app.running,
        app@.input == app.input@,
        app@.input_mode == app.input_mode,
        app@.messages == app.messages@,
        app@.message_offset == app.message_offset,
        app@.login == app.login@,
        app@.room == app.room@,
        app@.login_input == app.login_input@,
        app@.password_input == app.password_input@,
        app.reconnect_password is None <==> app@.reconnect_password is None,
        app.reconnect_password is Some ==> app@.reconnect_password == Some(
            app.reconnect_password->0@,
        ),
        app@.rooms.len() == app.rooms@.len(),
        forall|i: int| 0 <= i < app.rooms@.len() ==> #[trigger] app@.rooms[i] == app.rooms@[i]@,
        app@.room_selected == app.room_selected,
        app@.auth_mode == app.auth_mode,
        app@.reconnect_pending == app.reconnect_pending,
        app@.pending_actions.len() == app.pending_actions@.len(),
        forall|i: int|
            0 <= i < app.pending_actions@.len() ==> #[trigger] app@.pending_actions[i]
                == app.pending_actions@[i]@,
        app@.connection_state == app.connection_state@,
        app@.oldest_message_id == app.oldest_message_id,
        app@.loading_older == app.loading_older,
        app@.has_more_history == app.has_more_history,
        app@.has_scrolled_up == app.has_scrolled_up,
        app@.system_message_id == app.system_message_id,
{
}

/// What is said of actions, of messages to show and of what is shown of them is
/// said of their own fields.
pub proof fn law_shown_values_are_seen(
    action: PendingAction,
    entry: MessageEntry,
    item: Item,
    plan: ReconnectPlan,
)
    ensures
        match action {
            PendingAction::Login { login, password } => action@ == (ActionView::Login {
                login: login@,
                password: password@,
            }),
            PendingAction::Register { login, password } => action@ == (ActionView::Register {
                login: login@,
                password: password@,
            }),
            PendingAction::SendMessage { room, message } => action@ == (
            ActionView::SendMessage { room: room@, message: message@ }),
            PendingAction::LeaveRoom { room } => action@ == (ActionView::LeaveRoom {
                room: room@,
            }),
            PendingAction::JoinRoom { room } => action@ == (ActionView::JoinRoom { room: room@ }),
            PendingAction::GetHistory { room, cursor } => action@ == (ActionView::GetHistory {
                room: room@,
                cursor,
            }),
        },
        entry@.id == entry.id,
        entry@.sender == entry.sender@,
        entry@.content == entry.content@,
        entry@.timestamp == entry.timestamp,
        entry@.is_own == entry.is_own,
        match entry.msg_type {
            MessageType::Chat => entry@.msg_type == MessageTypeView::Chat,
            MessageType::System(text) => entry@.msg_type == MessageTypeView::System(text@),
        },
        match item {
            Item::System(text) => item@ == ItemView::System(text@),
            Item::Separator(text) => item@ == ItemView::Separator(text@),
            Item::Bubble { sender, content, time, is_own } => item@ == (ItemView::Bubble {
                sender: sender@,
                content: content@,
                time: time@,
                is_own,
            }),
        },
        plan@.url == plan.url@,
        plan.login is None <==> plan@.login is None,
        plan.login is Some ==> plan@.login == Some(plan.login->0@),
        plan.password is None <==> plan@.password is None,
        plan.password is Some ==> plan@.password == Some(plan.password->0@),
{
}

/// An event that reports a lost connection or an error reports just these
/// details of it.
pub proof fn law_reports_are_seen(
    e: AppEvent,
    code: Option<u16>,
    reason: Option<Seq<char>>,
    error: Seq<char>,
)
    ensures
        is_disconnect(e, code, reason) ==> match e {
            AppEvent::Disconnected { close_code, close_reason: None } => close_code == code
                && reason is None,
            AppEvent::Disconnected { close_code, close_reason: Some(r) } => close_code == code
                && reason == Some(r@),
            _ => false,
        },
        is_error(e, error) ==> match e {
            AppEvent::ConnectionError { reason: r } => r@ == error,
            _ => false,
        },
{
}

/// A small letter of ASCII has its capital letter as an avatar, and any other
/// character itself.
pub proof fn law_avatars_are_capitals(c: char)
    ensures
        'a' <= c <= 'z' ==> 'A' <= ascii_upper(c) <= 'Z' && ascii_upper(c) as int + 32 == c as int,
        !('a' <= c <= 'z') ==> ascii_upper(c) == c,
{
}

} // verus!
