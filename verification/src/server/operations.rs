//! What each operation of the server does: whom it answers and how, what it
//! changes and what it leaves alone.

use vstd::arithmetic::power2::{lemma2_to64, lemma_pow2_unfold};
use vstd::prelude::*;
use vstd::string::*;
use vstd::utf8::encode_utf8;

use super::account::{
    account_verdict, bcrypt_verdict, is_before, lets_in, page_of, password_len_verdict,
    standing_rooms, AccountError,
};
use super::addr::PeerAddr;
use super::backoff::{backoff_left, backoff_ms};
use super::laws::{
    in_room, law_newest_page_is_the_end_of_the_room, law_refusals_are_answered, newest_rows,
};
use super::peers::{fresh_peer, with_login, Peer, PeerView};
use super::rate::{cutoff, RateLimiter};
use super::send::{id_after, notices, OutgoingView};
use super::session::{
    connected, disconnect_step, done_step, failed, frame_step, message_step, Clock, Done, DoneView,
    Received, ReceivedView, Server, ServerView, Step, StepView, Task, TaskView,
};
use crate::list::{add_missing, lemma_add_missing};
use crate::protocol::frame::Frame;
use crate::protocol::json::{delivery_json, server_json};
use crate::protocol::message::{
    entries, texts, ClientMessageView, DeliveryView, HistoryEntryView, ServerMessageView,
};
use crate::protocol::validate::server_verdict;

verus! {

broadcast use vstd::string::group_string_axioms;

// ── Words for what is seen ──────────────────────────────────────────────

/// Whether somebody is logged in at an address.
pub open spec fn logged_in(s: ServerView, addr: PeerAddr) -> bool {
    s.peers.contains_key(addr) && s.peers[addr].login != "anonymous"@ && s.peers[addr].login.len()
        > 0
}

/// Whether a text is a message to one peer alone.
pub open spec fn tells(o: OutgoingView, addr: PeerAddr, m: ServerMessageView) -> bool {
    o.to == set![addr] && o.text == server_json(m)
}

/// Whether a text is a notice of the server to those that are in a room, other
/// than the peer that it is about.
pub open spec fn notifies(
    o: OutgoingView,
    peers: Map<PeerAddr, PeerView>,
    about: PeerAddr,
    room: Seq<char>,
    id: u64,
    text: Seq<char>,
    unix: i64,
) -> bool {
    &&& forall|a: PeerAddr| #[trigger]
        o.to.contains(a) <==> peers.contains_key(a) && a != about && peers[a].rooms.contains(room)
    &&& o.text == delivery_json(
        DeliveryView {
            id,
            message: ServerMessageView::IncomingMessage {
                login: "Server"@,
                room: "system"@,
                message: text,
                timestamp: unix,
            },
        },
    )
}

/// Whether texts begin with a notice to each of several rooms, in order.
pub open spec fn told_in_order(
    s: ServerView,
    out: Seq<OutgoingView>,
    about: PeerAddr,
    rooms: Seq<Seq<char>>,
    text: Seq<char>,
    unix: i64,
) -> bool {
    &&& out.len() >= rooms.len()
    &&& forall|i: int|
        0 <= i < rooms.len() ==> notifies(
            #[trigger] out[i],
            s.peers,
            about,
            rooms[i],
            number_after(s.next_system_id, i as nat) as u64,
            text,
            unix,
        )
}

/// Whether a notice of the server keeps the rules of the protocol.
pub open spec fn can_notify(text: Seq<char>, unix: i64) -> bool {
    server_verdict(
        ServerMessageView::IncomingMessage {
            login: "Server"@,
            room: "system"@,
            message: text,
            timestamp: unix,
        },
    ) is Ok
}

/// Whether the same peers are connected, and all but one are as they were.
pub open spec fn only_changes(
    before: Map<PeerAddr, PeerView>,
    after: Map<PeerAddr, PeerView>,
    addr: PeerAddr,
) -> bool {
    &&& forall|a: PeerAddr| #[trigger] after.contains_key(a) <==> before.contains_key(a)
    &&& forall|a: PeerAddr| a != addr && before.contains_key(a) ==> #[trigger] after[a] == before[a]
}

/// Whether a step does nothing but send one message to the peer.
pub open spec fn only_tells(
    s: ServerView,
    step: StepView,
    addr: PeerAddr,
    m: ServerMessageView,
) -> bool {
    &&& step.server == s
    &&& step.task is None
    &&& step.outgoing.len() == 1
    &&& tells(step.outgoing[0], addr, m)
}

/// Whether a step does nothing but hand work to the database.
pub open spec fn only_asks(s: ServerView, step: StepView, task: TaskView) -> bool {
    &&& step.server == s
    &&& step.outgoing.len() == 0
    &&& step.task == Some(task)
}

/// The number after another, with the first after the last.
pub open spec fn number_after(id: u64, count: nat) -> int {
    (id + count) % 0x1_0000_0000_0000_0000
}

/// Whether the wait for the next account attempt is over, for the connection
/// and for its IP address.
pub open spec fn may_attempt(s: ServerView, addr: PeerAddr, now: i64) -> bool {
    &&& s.peers[addr].next_account_attempt matches Some(t) ==> t < now
    &&& s.backoff.contains_key(addr.ip) ==> (s.backoff[addr.ip].1 matches Some(t) ==> t < now)
}

// ── Messages and history ────────────────────────────────────────────────

/// Who is in a room and sends a message has just that text stored for that
/// room under the own name. Until it is stored nothing is sent and nothing
/// changes.
pub proof fn law_sending_stores_the_message(
    s: ServerView,
    addr: PeerAddr,
    room: Seq<char>,
    message: Seq<char>,
    clock: Clock,
)
    requires
        logged_in(s, addr),
        s.peers[addr].rooms.contains(room),
    ensures
        only_asks(
            s,
            message_step(s, addr, ClientMessageView::SendMessage { room, message }, clock),
            TaskView::InsertMessage { room, login: s.peers[addr].login, message },
        ),
{
}

/// Who is in a room and asks for its history has the database asked with just
/// the cursor of the request: without one where it has none, so that it is
/// answered with the end of the room's log.
pub proof fn law_history_is_asked_with_the_cursor(
    s: ServerView,
    addr: PeerAddr,
    room: Seq<char>,
    cursor: Option<u64>,
    clock: Clock,
)
    requires
        logged_in(s, addr),
        s.peers[addr].rooms.contains(room),
    ensures
        only_asks(
            s,
            message_step(s, addr, ClientMessageView::GetHistory { room, cursor }, clock),
            TaskView::GetRoomHistory { room, cursor, limit: 100 },
        ),
{
}

/// Who is not in a room is told to join it before sending to it or reading its
/// history, and nothing else happens.
pub proof fn law_others_are_told_to_join(
    s: ServerView,
    addr: PeerAddr,
    room: Seq<char>,
    message: Seq<char>,
    cursor: Option<u64>,
    clock: Clock,
)
    requires
        logged_in(s, addr),
        !s.peers[addr].rooms.contains(room),
    ensures
        only_tells(
            s,
            message_step(s, addr, ClientMessageView::SendMessage { room, message }, clock),
            addr,
            ServerMessageView::Error {
                message: "Join the room before sending messages."@,
                code: "ROOM_REQUIRED"@,
            },
        ),
        only_tells(
            s,
            message_step(s, addr, ClientMessageView::GetHistory { room, cursor }, clock),
            addr,
            ServerMessageView::Error {
                message: "Join the room before requesting history."@,
                code: "ROOM_REQUIRED"@,
            },
        ),
{
    law_refusals_are_answered(s.peers, addr);
}

/// Who is connected but not logged in is told to log in, and nothing else
/// happens, whatever is asked of rooms and messages.
pub proof fn law_strangers_are_told_to_log_in(
    s: ServerView,
    addr: PeerAddr,
    m: ClientMessageView,
    clock: Clock,
)
    requires
        s.peers.contains_key(addr),
        !logged_in(s, addr),
        m is JoinRoom || m is LeaveRoom || m is SendMessage || m is GetHistory,
    ensures
        only_tells(
            s,
            message_step(s, addr, m, clock),
            addr,
            ServerMessageView::Error { message: "Login required."@, code: "NOT_AUTHENTICATED"@ },
        ),
{
    law_refusals_are_answered(s.peers, addr);
}

/// Whatever comes for an address at which nobody is connected, nothing is sent,
/// no peer changes and the database is not asked.
pub proof fn law_nobody_is_served(
    s: ServerView,
    addr: PeerAddr,
    m: ClientMessageView,
    clock: Clock,
)
    requires
        !s.peers.contains_key(addr),
    ensures
        ({
            let step = message_step(s, addr, m, clock);
            &&& step.outgoing.len() == 0
            &&& step.task is None
            &&& step.server.peers == s.peers
            &&& step.server.rates == s.rates
            &&& step.server.next_system_id == s.next_system_id
            &&& !(m is Login) ==> step.server == s
        }),
{
}

/// A message that is stored is sent under its id, with its sender, its room,
/// its text and the time, to those that are in the room, and to nobody else;
/// one that could not be stored is sent to nobody.
pub proof fn law_stored_messages_are_delivered(
    s: ServerView,
    addr: PeerAddr,
    room: Seq<char>,
    login: Seq<char>,
    message: Seq<char>,
    id: u64,
    is_first: bool,
    clock: Clock,
)
    ensures
        ({
            let chat = ServerMessageView::IncomingMessage {
                login,
                room,
                message,
                timestamp: clock.unix,
            };
            let stored = Some((id, is_first));
            let done = DoneView::MessageStored { room, login, message, stored };
            let step = done_step(s, addr, done, clock);
            let out = step.outgoing;
            &&& step.server == s
            &&& server_verdict(chat) is Ok ==> out.len() == 1 && out[0].text == delivery_json(
                DeliveryView { id, message: chat },
            ) && forall|a: PeerAddr| #[trigger]
                out[0].to.contains(a) <==> s.peers.contains_key(a) && a != addr
                    && s.peers[a].rooms.contains(room)
            &&& server_verdict(chat) is Err ==> out.len() == 0
            &&& step.task == (if is_first && room != "general"@ && room != "random"@ && room
                != "france"@ {
                Some(TaskView::GetChangedRooms)
            } else {
                None
            })
        }),
        ({
            let done = DoneView::MessageStored { room, login, message, stored: None };
            let step = done_step(s, addr, done, clock);
            step.server == s && step.outgoing.len() == 0 && step.task is None
        }),
{
    let standing = standing_rooms();
    assert(standing.contains(room) <==> room == "general"@ || room == "random"@ || room
        == "france"@) by {
        assert(standing[0] == "general"@ && standing[1] == "random"@ && standing[2] == "france"@);
    }
}

/// A page of history that was loaded is sent to who asked for it, and to nobody
/// else, with just its messages and whether there are more. So is the list of
/// rooms after login. What could not be loaded is not answered.
pub proof fn law_what_was_loaded_is_sent(
    s: ServerView,
    addr: PeerAddr,
    room: Seq<char>,
    messages: Seq<HistoryEntryView>,
    has_more: bool,
    rooms: Seq<Seq<char>>,
    clock: Clock,
)
    requires
        s.peers.contains_key(addr),
    ensures
        ({
            let m = ServerMessageView::RoomHistory { room, messages, has_more };
            let page = Some((messages, has_more));
            let step = done_step(s, addr, DoneView::HistoryLoaded { room, page }, clock);
            server_verdict(m) is Ok ==> only_tells(s, step, addr, m)
        }),
        ({
            let m = ServerMessageView::RoomList { rooms };
            let step = done_step(s, addr, DoneView::RoomsListed { rooms: Some(rooms) }, clock);
            server_verdict(m) is Ok ==> only_tells(s, step, addr, m)
        }),
        ({
            let none = StepView { server: s, outgoing: Seq::empty(), task: None };
            &&& done_step(s, addr, DoneView::HistoryLoaded { room, page: None }, clock) == none
            &&& done_step(s, addr, DoneView::RoomsListed { rooms: None }, clock) == none
            &&& done_step(s, addr, DoneView::ChangedRoomsListed { rooms: None }, clock) == none
        }),
{
}

/// Who asks for the history of a room without a cursor is answered with the
/// messages that were stored for the room last, up to a hundred of them, oldest
/// first, and with whether there are more.
pub proof fn law_latest_messages_come_back(
    s: ServerView,
    addr: PeerAddr,
    room: Seq<char>,
    stored: Seq<(Seq<char>, HistoryEntryView)>,
    clock: Clock,
)
    requires
        logged_in(s, addr),
        s.peers[addr].rooms.contains(room),
    ensures
        ({
            let m = ClientMessageView::GetHistory { room, cursor: None };
            let task = message_step(s, addr, m, clock).task;
            let log = in_room(stored, room);
            let latest = if log.len() > 100 {
                log.skip(log.len() - 100)
            } else {
                log
            };
            let answer = ServerMessageView::RoomHistory {
                room,
                messages: latest,
                has_more: log.len() > 100,
            };
            &&& task is Some
            &&& task->0 matches TaskView::GetRoomHistory { room: asked, cursor, limit } && ({
                let rows = newest_rows(in_room(stored, asked), cursor, limit as nat + 1);
                let page = Some(page_of(rows, limit as nat));
                let done = DoneView::HistoryLoaded { room: asked, page };
                server_verdict(answer) is Ok ==> only_tells(
                    s,
                    done_step(s, addr, done, clock),
                    addr,
                    answer,
                )
            })
        }),
{
    law_newest_page_is_the_end_of_the_room(stored, room, 100);
}

// ── Rooms ───────────────────────────────────────────────────────────────

/// The numbers of notices go up by one, and from the last to the first.
proof fn lemma_numbers(id: u64, count: nat)
    ensures
        id_after(id, count) == number_after(id, count),
    decreases count,
{
    if count > 0 {
        lemma_numbers(id, (count - 1) as nat);
    }
}

/// Notices to several rooms are one to each of them, in order.
proof fn lemma_notices(
    peers: Map<PeerAddr, PeerView>,
    id: u64,
    about: PeerAddr,
    rooms: Seq<Seq<char>>,
    text: Seq<char>,
    unix: i64,
)
    requires
        can_notify(text, unix),
    ensures
        notices(peers, id, about, rooms, text, unix).len() == rooms.len(),
        forall|i: int|
            0 <= i < rooms.len() ==> notifies(
                #[trigger] notices(peers, id, about, rooms, text, unix)[i],
                peers,
                about,
                rooms[i],
                number_after(id, i as nat) as u64,
                text,
                unix,
            ),
    decreases rooms.len(),
{
    if rooms.len() > 0 {
        let n = (rooms.len() - 1) as nat;
        let short = rooms.drop_last();
        lemma_notices(peers, id, about, short, text, unix);
        lemma_numbers(id, n);
        let before = notices(peers, id, about, short, text, unix);
        let all = notices(peers, id, about, rooms, text, unix);
        assert forall|i: int| 0 <= i < rooms.len() implies notifies(
            #[trigger] all[i],
            peers,
            about,
            rooms[i],
            number_after(id, i as nat) as u64,
            text,
            unix,
        ) by {
            if i < n {
                assert(all[i] == before[i]);
                assert(short[i] == rooms[i]);
            }
        }
    }
}

/// A user who joins a room is then in that room too, and still in all others;
/// those in the room are told, and nobody else changes or hears of it.
pub proof fn law_joining_a_room(s: ServerView, addr: PeerAddr, room: Seq<char>, clock: Clock)
    requires
        logged_in(s, addr),
        !s.peers[addr].rooms.contains(room),
    ensures
        ({
            let before = s.peers[addr];
            let step = message_step(s, addr, ClientMessageView::JoinRoom { room }, clock);
            let after = step.server.peers[addr];
            &&& only_changes(s.peers, step.server.peers, addr)
            &&& after.rooms == before.rooms.push(room)
            &&& after.login == before.login
            &&& after.login_failures == before.login_failures
            &&& after.next_account_attempt == before.next_account_attempt
            &&& after.is_authenticated == before.is_authenticated
            &&& step.server.backoff == s.backoff
            &&& step.server.rates == s.rates
            &&& step.server.next_system_id == number_after(s.next_system_id, 1)
            &&& step.task is None
            &&& can_notify(before.login + " joined the room"@, clock.unix) ==> step.outgoing.len()
                == 1 && notifies(
                step.outgoing[0],
                step.server.peers,
                addr,
                room,
                s.next_system_id,
                before.login + " joined the room"@,
                clock.unix,
            )
        }),
{
    let step = message_step(s, addr, ClientMessageView::JoinRoom { room }, clock);
    let text = s.peers[addr].login + " joined the room"@;
    lemma_numbers(s.next_system_id, 0);
    lemma_numbers(s.next_system_id, 1);
    if can_notify(text, clock.unix) {
        lemma_notices(step.server.peers, s.next_system_id, addr, seq![room], text, clock.unix);
    }
    assert(step.outgoing == notices(
        step.server.peers,
        s.next_system_id,
        addr,
        seq![room],
        text,
        clock.unix,
    ));
}

/// Who joins a room twice is told so, and nothing else happens.
pub proof fn law_joining_a_room_again(
    s: ServerView,
    addr: PeerAddr,
    room: Seq<char>,
    clock: Clock,
)
    requires
        logged_in(s, addr),
        s.peers[addr].rooms.contains(room),
    ensures
        ({
            let m = ServerMessageView::Error {
                message: "You are already in room '"@ + room + "'"@,
                code: "ALREADY_IN_ROOM"@,
            };
            let step = message_step(s, addr, ClientMessageView::JoinRoom { room }, clock);
            &&& step.server == s
            &&& step.task is None
            &&& server_verdict(m) is Ok ==> only_tells(s, step, addr, m)
        }),
{
}

/// A user who leaves a room is then not in that room, and still in all others;
/// those in the room are told, and nobody else changes or hears of it.
pub proof fn law_leaving_a_room(s: ServerView, addr: PeerAddr, room: Seq<char>, clock: Clock)
    requires
        logged_in(s, addr),
        s.peers[addr].rooms.no_duplicates(),
    ensures
        ({
            let before = s.peers[addr];
            let step = message_step(s, addr, ClientMessageView::LeaveRoom { room }, clock);
            let after = step.server.peers[addr];
            &&& only_changes(s.peers, step.server.peers, addr)
            &&& !after.rooms.contains(room)
            &&& forall|r: Seq<char>|
                r != room ==> (#[trigger] after.rooms.contains(r) <==> before.rooms.contains(r))
            &&& after.rooms.no_duplicates()
            &&& after.login == before.login
            &&& after.login_failures == before.login_failures
            &&& after.next_account_attempt == before.next_account_attempt
            &&& after.is_authenticated == before.is_authenticated
            &&& step.server.backoff == s.backoff
            &&& step.server.rates == s.rates
            &&& step.server.next_system_id == number_after(s.next_system_id, 1)
            &&& step.task is None
            &&& can_notify(before.login + " left the room"@, clock.unix) ==> step.outgoing.len()
                == 1 && notifies(
                step.outgoing[0],
                step.server.peers,
                addr,
                room,
                s.next_system_id,
                before.login + " left the room"@,
                clock.unix,
            )
        }),
{
    let before = s.peers[addr].rooms;
    let step = message_step(s, addr, ClientMessageView::LeaveRoom { room }, clock);
    let text = s.peers[addr].login + " left the room"@;
    lemma_numbers(s.next_system_id, 0);
    lemma_numbers(s.next_system_id, 1);
    if can_notify(text, clock.unix) {
        lemma_notices(step.server.peers, s.next_system_id, addr, seq![room], text, clock.unix);
    }
    assert(step.outgoing == notices(
        step.server.peers,
        s.next_system_id,
        addr,
        seq![room],
        text,
        clock.unix,
    ));
    lemma_taken_out(before, room);
}

/// Taking a room out of a list without duplicates leaves all others in it.
proof fn lemma_taken_out(before: Seq<Seq<char>>, room: Seq<char>)
    requires
        before.no_duplicates(),
    ensures
        ({
            let after = before.remove_value(room);
            &&& !after.contains(room)
            &&& forall|r: Seq<char>|
                r != room ==> (#[trigger] after.contains(r) <==> before.contains(r))
            &&& after.no_duplicates()
        }),
{
    let after = before.remove_value(room);
    before.index_of_first_ensures(room);
    if before.contains(room) {
        let i = before.index_of_first(room)->0;
        assert(after == before.remove(i));
        assert forall|r: Seq<char>| r != room implies (#[trigger] after.contains(r)
            <==> before.contains(r)) by {
            if before.contains(r) {
                let k = choose|k: int| 0 <= k < before.len() && before[k] == r;
                let j = if k < i { k } else { k - 1 };
                assert(after[j] == r);
            }
            if after.contains(r) {
                let k = choose|k: int| 0 <= k < after.len() && after[k] == r;
                let j = if k < i { k } else { k + 1 };
                assert(before[j] == r);
            }
        }
        assert forall|a: int, b: int| 0 <= a < after.len() && 0 <= b < after.len() && a
            != b implies after[a] != after[b] by {
            let a0 = if a < i { a } else { a + 1 };
            let b0 = if b < i { b } else { b + 1 };
            assert(after[a] == before[a0] && after[b] == before[b0]);
        }
        assert forall|k: int| 0 <= k < after.len() implies after[k] != room by {
            let j = if k < i { k } else { k + 1 };
            assert(after[k] == before[j] && before[i] == room);
        }
    }
}

// ── Coming and going ────────────────────────────────────────────────────

/// A peer that connects is nobody, in no room, and free to log in as far as its
/// connection goes; nobody else changes.
pub proof fn law_connecting(s: ServerView, addr: PeerAddr)
    ensures
        ({
            let after = connected(s, addr);
            let peer = after.peers[addr];
            &&& forall|a: PeerAddr| #[trigger]
                after.peers.contains_key(a) <==> s.peers.contains_key(a) || a == addr
            &&& forall|a: PeerAddr|
                a != addr && s.peers.contains_key(a) ==> #[trigger] after.peers[a] == s.peers[a]
            &&& peer.login == "anonymous"@
            &&& peer.rooms.len() == 0
            &&& peer.login_failures == 0
            &&& peer.next_account_attempt is None
            &&& after.backoff == s.backoff
            &&& after.rates == s.rates
            &&& after.next_system_id == s.next_system_id
        }),
{
}

/// A peer that disconnects is gone, and each room that it was in is told so;
/// nobody else changes.
pub proof fn law_disconnecting(s: ServerView, addr: PeerAddr, clock: Clock)
    requires
        s.peers.contains_key(addr),
    ensures
        ({
            let peer = s.peers[addr];
            let step = disconnect_step(s, addr, clock);
            &&& forall|a: PeerAddr| #[trigger]
                step.server.peers.contains_key(a) <==> s.peers.contains_key(a) && a != addr
            &&& forall|a: PeerAddr|
                a != addr && s.peers.contains_key(a) ==> #[trigger] step.server.peers[a]
                    == s.peers[a]
            &&& step.server.backoff == s.backoff
            &&& step.server.rates == s.rates
            &&& step.server.next_system_id == number_after(s.next_system_id, peer.rooms.len())
            &&& step.task is None
            &&& can_notify(peer.login + " disconnected"@, clock.unix) ==> told_in_order(
                s,
                step.outgoing,
                addr,
                peer.rooms,
                peer.login + " disconnected"@,
                clock.unix,
            ) && step.outgoing.len() == peer.rooms.len()
        }),
{
    let peer = s.peers[addr];
    let left = s.peers.remove(addr);
    let text = peer.login + " disconnected"@;
    lemma_numbers(s.next_system_id, peer.rooms.len());
    if can_notify(text, clock.unix) {
        lemma_notices(left, s.next_system_id, addr, peer.rooms, text, clock.unix);
        let out = notices(left, s.next_system_id, addr, peer.rooms, text, clock.unix);
        assert forall|i: int| 0 <= i < peer.rooms.len() implies notifies(
            #[trigger] out[i],
            s.peers,
            addr,
            peer.rooms[i],
            number_after(s.next_system_id, i as nat) as u64,
            text,
            clock.unix,
        ) by {
            assert forall|a: PeerAddr| #[trigger] out[i].to.contains(a) <==> s.peers.contains_key(a)
                && a != addr && s.peers[a].rooms.contains(peer.rooms[i]) by {
                assert(out[i].to.contains(a) <==> left.contains_key(a) && a != addr
                    && left[a].rooms.contains(peer.rooms[i]));
            }
        }
    }
}

/// Who logs out is nobody and in no room, and is told that it is so after each
/// room has been told; the wait for the next attempt stays, and nobody else
/// changes.
pub proof fn law_logout(s: ServerView, addr: PeerAddr, clock: Clock)
    requires
        s.peers.contains_key(addr),
    ensures
        ({
            let before = s.peers[addr];
            let step = message_step(s, addr, ClientMessageView::Logout, clock);
            let after = step.server.peers[addr];
            let n = before.rooms.len();
            &&& only_changes(s.peers, step.server.peers, addr)
            &&& after.login.len() == 0
            &&& after.rooms.len() == 0
            &&& !after.is_authenticated
            &&& after.login_failures == before.login_failures
            &&& after.next_account_attempt == before.next_account_attempt
            &&& step.server.backoff == s.backoff
            &&& step.server.rates == s.rates
            &&& step.server.next_system_id == number_after(s.next_system_id, n)
            &&& step.task is None
            &&& step.outgoing.len() > 0
            &&& tells(step.outgoing.last(), addr, ServerMessageView::LogoutOk)
            &&& can_notify(before.login + " left the room"@, clock.unix) ==> told_in_order(
                s,
                step.outgoing,
                addr,
                before.rooms,
                before.login + " left the room"@,
                clock.unix,
            ) && step.outgoing.len() == n + 1
        }),
{
    let before = s.peers[addr];
    let step = message_step(s, addr, ClientMessageView::Logout, clock);
    let peers = step.server.peers;
    let text = before.login + " left the room"@;
    law_refusals_are_answered(peers, addr);
    lemma_numbers(s.next_system_id, before.rooms.len());
    if can_notify(text, clock.unix) {
        lemma_told_in_order(s, peers, addr, before.rooms, text, clock.unix);
        let out = notices(peers, s.next_system_id, addr, before.rooms, text, clock.unix);
        assert(forall|i: int| 0 <= i < out.len() ==> #[trigger] step.outgoing[i] == out[i]);
    }
}

/// Notices about a peer that is changed are told in order.
proof fn lemma_told_in_order(
    s: ServerView,
    peers: Map<PeerAddr, PeerView>,
    addr: PeerAddr,
    rooms: Seq<Seq<char>>,
    text: Seq<char>,
    unix: i64,
)
    requires
        only_changes(s.peers, peers, addr),
        can_notify(text, unix),
    ensures
        told_in_order(
            s,
            notices(peers, s.next_system_id, addr, rooms, text, unix),
            addr,
            rooms,
            text,
            unix,
        ),
        notices(peers, s.next_system_id, addr, rooms, text, unix).len() == rooms.len(),
{
    let out = notices(peers, s.next_system_id, addr, rooms, text, unix);
    lemma_notices(peers, s.next_system_id, addr, rooms, text, unix);
    assert forall|i: int| 0 <= i < rooms.len() implies notifies(
        #[trigger] out[i],
        s.peers,
        addr,
        rooms[i],
        number_after(s.next_system_id, i as nat) as u64,
        text,
        unix,
    ) by {
        lemma_same_audience(out[i], peers, s.peers, addr, rooms[i]);
    }
}

/// Whom a notice reaches does not depend on the peer that it is about.
proof fn lemma_same_audience(
    o: OutgoingView,
    peers: Map<PeerAddr, PeerView>,
    others: Map<PeerAddr, PeerView>,
    about: PeerAddr,
    room: Seq<char>,
)
    requires
        only_changes(others, peers, about),
        forall|a: PeerAddr| #[trigger]
            o.to.contains(a) <==> peers.contains_key(a) && a != about && peers[a].rooms.contains(
                room,
            ),
    ensures
        forall|a: PeerAddr| #[trigger]
            o.to.contains(a) <==> others.contains_key(a) && a != about && others[a].rooms.contains(
                room,
            ),
{
    assert forall|a: PeerAddr| #[trigger] o.to.contains(a) <==> others.contains_key(a) && a != about
        && others[a].rooms.contains(room) by {
        assert(peers.contains_key(a) <==> others.contains_key(a));
    }
}

// ── Accounts ────────────────────────────────────────────────────────────

/// The wait in milliseconds after a number of failures: ten after the first,
/// and twice the one before after each further, up to eight seconds.
pub open spec fn wait_ms(failures: nat) -> nat
    decreases failures,
{
    if failures <= 1 {
        10
    } else if 2 * wait_ms((failures - 1) as nat) < 8_000 {
        2 * wait_ms((failures - 1) as nat)
    } else {
        8_000
    }
}

/// Whether a number of failures and the time of the next attempt are those
/// after one failure more.
pub open spec fn one_failure_more(
    before: u32,
    after: u32,
    next: Option<i64>,
    now: i64,
) -> bool {
    &&& before < u32::MAX ==> after == before + 1
    &&& before == u32::MAX ==> after == u32::MAX
    &&& next == Some((now + wait_ms(after as nat) * 1_000_000) as i64)
}

/// Whether a failure counts against a connection and its IP address, and
/// against nobody else.
pub open spec fn counts_failure(s: ServerView, after: ServerView, addr: PeerAddr, now: i64) -> bool {
    let (failures, next) = after.backoff[addr.ip];
    &&& after.backoff.contains_key(addr.ip)
    &&& one_failure_more(
        if s.backoff.contains_key(addr.ip) {
            s.backoff[addr.ip].0
        } else {
            0
        },
        failures,
        next,
        now,
    )
    &&& after.backoff.remove(addr.ip) == s.backoff.remove(addr.ip)
    &&& one_failure_more(
        s.peers[addr].login_failures,
        after.peers[addr].login_failures,
        after.peers[addr].next_account_attempt,
        now,
    )
}

/// Whether a peer has no failures left, neither on its connection nor on its IP
/// address, and the failures of all others are as they were.
pub open spec fn forgets_failures(s: ServerView, after: ServerView, addr: PeerAddr) -> bool {
    &&& after.peers[addr].login_failures == 0
    &&& after.peers[addr].next_account_attempt is None
    &&& after.backoff == s.backoff.remove(addr.ip)
}

/// Whether a peer has the login and the rooms that it had.
pub open spec fn stays_who_it_was(before: PeerView, after: PeerView) -> bool {
    &&& after.login == before.login
    &&& after.rooms == before.rooms
    &&& after.is_authenticated == before.is_authenticated
}

/// Whether a step makes a peer somebody else, in no room, tells each room of
/// the user that it was, and ends in an answer to it.
pub open spec fn becomes(
    s: ServerView,
    step: StepView,
    addr: PeerAddr,
    login: Seq<char>,
    m: ServerMessageView,
    unix: i64,
) -> bool {
    let before = s.peers[addr];
    let after = step.server.peers[addr];
    let left = if before.login != "anonymous"@ {
        before.rooms
    } else {
        Seq::empty()
    };
    &&& only_changes(s.peers, step.server.peers, addr)
    &&& after.login == login
    &&& after.rooms.len() == 0
    &&& after.is_authenticated == before.is_authenticated
    &&& step.server.rates == s.rates
    &&& step.server.next_system_id == number_after(s.next_system_id, left.len())
    &&& server_verdict(m) is Ok ==> step.outgoing.len() > 0 && tells(
        step.outgoing.last(),
        addr,
        m,
    )
    &&& can_notify(before.login + " left the room"@, unix) ==> told_in_order(
        s,
        step.outgoing,
        addr,
        left,
        before.login + " left the room"@,
        unix,
    )
    &&& can_notify(before.login + " left the room"@, unix) && server_verdict(m) is Ok
        ==> step.outgoing.len() == left.len() + 1
}

/// The wait is that which doubles with each failure.
proof fn lemma_wait(failures: nat)
    ensures
        backoff_ms(failures) == wait_ms(failures),
    decreases failures,
{
    lemma2_to64();
    if failures > 1 {
        let n = (failures - 1) as nat;
        lemma_wait(n);
        lemma_pow2_unfold(n);
    }
}

/// A failure counts.
proof fn lemma_failure_counts(s: ServerView, addr: PeerAddr, now: i64)
    requires
        s.peers.contains_key(addr),
    ensures
        counts_failure(s, failed(s, addr, now), addr, now),
        only_changes(s.peers, failed(s, addr, now).peers, addr),
        stays_who_it_was(s.peers[addr], failed(s, addr, now).peers[addr]),
{
    let after = failed(s, addr, now);
    lemma_wait(after.backoff[addr.ip].0 as nat);
    lemma_wait(after.peers[addr].login_failures as nat);
    assert(after.backoff.remove(addr.ip) =~= s.backoff.remove(addr.ip));
}

/// Who asks for an account or to log in, and need not wait, has just that name
/// and that password looked at; nothing is sent and nothing changes before.
pub proof fn law_credentials_are_looked_at(
    s: ServerView,
    addr: PeerAddr,
    login: Seq<char>,
    passwd: Seq<char>,
    clock: Clock,
)
    requires
        s.peers.contains_key(addr),
        may_attempt(s, addr, clock.now),
    ensures
        only_asks(
            s,
            message_step(s, addr, ClientMessageView::CreateAccount { login, passwd }, clock),
            TaskView::InsertAccount { login, passwd },
        ),
        login != "anonymous"@ ==> only_asks(
            s,
            message_step(s, addr, ClientMessageView::Login { login, passwd }, clock),
            TaskView::VerifyCredentials { login, passwd },
        ),
{
}

/// Who has to wait is told so and has no credentials looked at. An early
/// attempt to log in also takes the login away.
pub proof fn law_early_attempts_are_refused(
    s: ServerView,
    addr: PeerAddr,
    login: Seq<char>,
    passwd: Seq<char>,
    clock: Clock,
)
    requires
        s.peers.contains_key(addr),
        !may_attempt(s, addr, clock.now),
    ensures
        only_tells(
            s,
            message_step(s, addr, ClientMessageView::CreateAccount { login, passwd }, clock),
            addr,
            ServerMessageView::AccountCreationFailed {
                reason: "Too many account attempts. Try again later."@,
            },
        ),
        login != "anonymous"@ ==> ({
            let step = message_step(s, addr, ClientMessageView::Login { login, passwd }, clock);
            &&& becomes(
                s,
                step,
                addr,
                "anonymous"@,
                ServerMessageView::LoginFailed {
                    reason: "Too many login attempts. Try again later."@,
                },
                clock.unix,
            )
            &&& step.outgoing.len() > 0
            &&& step.task is None
            &&& step.server.backoff == s.backoff
            &&& step.server.peers[addr].login_failures == s.peers[addr].login_failures
            &&& step.server.peers[addr].next_account_attempt == s.peers[addr].next_account_attempt
        }),
{
    law_refusals_are_answered(s.peers, addr);
    if login != "anonymous"@ {
        let step = message_step(s, addr, ClientMessageView::Login { login, passwd }, clock);
        law_refusals_are_answered(step.server.peers, addr);
        lemma_becoming(s, step.server.peers, addr, clock.unix);
    }
}

/// The notices that a peer has left its rooms.
proof fn lemma_becoming(s: ServerView, peers: Map<PeerAddr, PeerView>, addr: PeerAddr, unix: i64)
    requires
        s.peers.contains_key(addr),
        only_changes(s.peers, peers, addr),
    ensures
        ({
            let rooms = s.peers[addr].rooms;
            let text = s.peers[addr].login + " left the room"@;
            let out = notices(peers, s.next_system_id, addr, rooms, text, unix);
            &&& id_after(s.next_system_id, rooms.len()) == number_after(
                s.next_system_id,
                rooms.len(),
            )
            &&& id_after(s.next_system_id, 0) == number_after(s.next_system_id, 0)
            &&& can_notify(text, unix) ==> told_in_order(s, out, addr, rooms, text, unix)
                && out.len() == rooms.len()
        }),
{
    let rooms = s.peers[addr].rooms;
    let text = s.peers[addr].login + " left the room"@;
    lemma_numbers(s.next_system_id, rooms.len());
    lemma_numbers(s.next_system_id, 0);
    if can_notify(text, unix) {
        lemma_told_in_order(s, peers, addr, rooms, text, unix);
    }
}

/// Nobody logs in as the sentinel: that counts as a failure and is answered as
/// one, and the peer stays who it was.
pub proof fn law_nobody_is_the_sentinel(
    s: ServerView,
    addr: PeerAddr,
    passwd: Seq<char>,
    clock: Clock,
)
    requires
        s.peers.contains_key(addr),
    ensures
        ({
            let m = ClientMessageView::Login { login: "anonymous"@, passwd };
            let step = message_step(s, addr, m, clock);
            &&& step.task is None
            &&& counts_failure(s, step.server, addr, clock.now)
            &&& only_changes(s.peers, step.server.peers, addr)
            &&& stays_who_it_was(s.peers[addr], step.server.peers[addr])
            &&& step.server.rates == s.rates
            &&& step.server.next_system_id == s.next_system_id
            &&& step.outgoing.len() == 1
            &&& tells(
                step.outgoing[0],
                addr,
                ServerMessageView::LoginFailed { reason: "Invalid credentials."@ },
            )
        }),
{
    lemma_failure_counts(s, addr, clock.now);
    law_refusals_are_answered(failed(s, addr, clock.now).peers, addr);
}

/// An account that was created is told of under its name, and ends the wait.
/// One that was not counts as a failure and is answered as one. Either way the
/// peer stays who it was, and nobody else changes.
pub proof fn law_account_results(
    s: ServerView,
    addr: PeerAddr,
    login: Seq<char>,
    created: Option<bool>,
    clock: Clock,
)
    requires
        s.peers.contains_key(addr),
    ensures
        ({
            let step = done_step(s, addr, DoneView::AccountInserted { login, created }, clock);
            let m = ServerMessageView::AccountCreated { login };
            &&& step.task is None
            &&& only_changes(s.peers, step.server.peers, addr)
            &&& stays_who_it_was(s.peers[addr], step.server.peers[addr])
            &&& step.server.rates == s.rates
            &&& step.server.next_system_id == s.next_system_id
            &&& created == Some(true) ==> forgets_failures(s, step.server, addr)
            &&& created == Some(true) && server_verdict(m) is Ok ==> step.outgoing.len() == 1
                && tells(step.outgoing[0], addr, m)
            &&& created != Some(true) ==> counts_failure(s, step.server, addr, clock.now)
                && step.outgoing.len() == 1 && tells(
                step.outgoing[0],
                addr,
                ServerMessageView::AccountCreationFailed { reason: "Account creation failed."@ },
            )
        }),
{
    let step = done_step(s, addr, DoneView::AccountInserted { login, created }, clock);
    lemma_failure_counts(s, addr, clock.now);
    law_refusals_are_answered(step.server.peers, addr);
}

/// Who has the right password and a name that nobody else uses becomes that
/// user and is told so, whoever the peer was before; then the rooms are listed.
/// The rooms of the user that it was are told, the wait ends, and nobody else
/// changes.
pub proof fn law_right_password_logs_in(
    s: ServerView,
    addr: PeerAddr,
    login: Seq<char>,
    clock: Clock,
)
    requires
        s.peers.contains_key(addr),
        forall|a: PeerAddr|
            s.peers.contains_key(a) && a != addr ==> (#[trigger] s.peers[a]).login != login,
    ensures
        ({
            let done = DoneView::CredentialsVerified { login, verified: Some(true) };
            let step = done_step(s, addr, done, clock);
            &&& becomes(
                s,
                step,
                addr,
                login,
                ServerMessageView::LoginOk { login },
                clock.unix,
            )
            &&& forgets_failures(s, step.server, addr)
            &&& step.task == Some(TaskView::GetRooms)
        }),
{
    let done = DoneView::CredentialsVerified { login, verified: Some(true) };
    let step = done_step(s, addr, done, clock);
    let named = with_login(s.peers, addr, login);
    lemma_becoming(s, named, addr, clock.unix);
    assert(only_changes(s.peers, step.server.peers, addr));
}

/// A name that another peer uses is refused, even with the right password, and
/// nothing changes.
pub proof fn law_names_are_not_shared(
    s: ServerView,
    addr: PeerAddr,
    other: PeerAddr,
    clock: Clock,
)
    requires
        s.peers.contains_key(addr),
        logged_in(s, other),
        other != addr,
    ensures
        ({
            let login = s.peers[other].login;
            let done = DoneView::CredentialsVerified { login, verified: Some(true) };
            only_tells(
                s,
                done_step(s, addr, done, clock),
                addr,
                ServerMessageView::LoginFailed {
                    reason: "Login already in use. Please try again."@,
                },
            )
        }),
{
    law_refusals_are_answered(s.peers, addr);
}

/// Who has the wrong password, or whose password could not be looked at, is
/// told so, loses the login and the rooms, and has a failure counted; nobody
/// else changes.
pub proof fn law_wrong_password_signs_out(
    s: ServerView,
    addr: PeerAddr,
    login: Seq<char>,
    verified: Option<bool>,
    clock: Clock,
)
    requires
        s.peers.contains_key(addr),
        verified != Some(true),
    ensures
        ({
            let step = done_step(s, addr, DoneView::CredentialsVerified { login, verified }, clock);
            let m = if verified is Some {
                ServerMessageView::LoginFailed { reason: "Invalid credentials."@ }
            } else {
                ServerMessageView::Error { message: "Login failed."@, code: "AUTH_FAILED"@ }
            };
            &&& becomes(s, step, addr, "anonymous"@, m, clock.unix)
            &&& step.outgoing.len() > 0
            &&& tells(step.outgoing.last(), addr, m)
            &&& counts_failure(s, step.server, addr, clock.now)
            &&& step.task is None
        }),
{
    let step = done_step(s, addr, DoneView::CredentialsVerified { login, verified }, clock);
    let blamed = failed(s, addr, clock.now);
    lemma_failure_counts(s, addr, clock.now);
    law_refusals_are_answered(step.server.peers, addr);
    lemma_becoming(s, with_login(blamed.peers, addr, "anonymous"@), addr, clock.unix);
}

/// What comes of work for a peer that is gone is told to nobody, and no peer
/// changes; but a message that it sent is still delivered, and a changed list
/// of rooms is still sent.
pub proof fn law_results_for_who_is_gone(
    s: ServerView,
    addr: PeerAddr,
    done: DoneView,
    clock: Clock,
)
    requires
        !s.peers.contains_key(addr),
        !(done is MessageStored),
        !(done is ChangedRoomsListed),
    ensures
        ({
            let step = done_step(s, addr, done, clock);
            &&& step.outgoing.len() == 0
            &&& step.task is None
            &&& step.server.peers == s.peers
            &&& step.server.rates == s.rates
            &&& step.server.next_system_id == s.next_system_id
        }),
{
}

// ── Frames ──────────────────────────────────────────────────────────────

/// A text is read as it came if it is no longer than two mebibytes and fewer
/// texts than the limit came from the peer within the window before it; if too
/// many did, the peer is told so and the text is not read. The times of the
/// texts that were allowed are kept for the window.
pub proof fn law_texts_are_read_within_the_limit(
    s: ServerView,
    limiter: RateLimiter,
    addr: PeerAddr,
    text: String,
    now: i64,
)
    requires
        now - limiter.window_secs * 1_000_000_000 >= i64::MIN,
    ensures
        ({
            let past = if s.rates.contains_key(addr) {
                s.rates[addr]
            } else {
                Seq::empty()
            };
            let start = now - limiter.window_secs * 1_000_000_000;
            let recent = past.filter(|t: i64| t > start);
            let r = frame_step(s, limiter, addr, Frame::Text(text), now);
            &&& r.server.peers == s.peers
            &&& r.server.backoff == s.backoff
            &&& r.server.next_system_id == s.next_system_id
            &&& r.server.rates.contains_key(addr)
            &&& r.server.rates.remove(addr) == s.rates.remove(addr)
            &&& recent.len() < limiter.limit ==> {
                &&& r.outgoing.len() == 0
                &&& encode_utf8(text@).len() <= 2_097_152 ==> r.text == Some(text@)
                &&& encode_utf8(text@).len() > 2_097_152 ==> r.text is None
                &&& r.server.rates[addr] == recent.push(now)
            }
            &&& recent.len() >= limiter.limit ==> {
                &&& r.text is None
                &&& s.peers.contains_key(addr) ==> r.outgoing.len() == 1 && tells(
                    r.outgoing[0],
                    addr,
                    ServerMessageView::Error {
                        message: "Rate limit exceeded. Try again shortly."@,
                        code: "RATE_LIMITED"@,
                    },
                )
                &&& !s.peers.contains_key(addr) ==> r.outgoing.len() == 0
                &&& r.server.rates[addr] == recent
            }
        }),
{
    let start = now - limiter.window_secs * 1_000_000_000;
    let r = frame_step(s, limiter, addr, Frame::Text(text), now);
    assert(start == cutoff(limiter.window_secs, now));
    let ours = |t: i64| t > start;
    let cut = cutoff(limiter.window_secs, now);
    let theirs = |t: i64| t > cut;
    assert(ours =~= theirs);
    assert(r.server.rates.remove(addr) =~= s.rates.remove(addr));
    if s.peers.contains_key(addr) {
        law_refusals_are_answered(s.peers, addr);
    }
}

/// A frame that is no text is dropped, and counts for nothing.
pub proof fn law_other_frames_are_dropped(
    s: ServerView,
    limiter: RateLimiter,
    addr: PeerAddr,
    frame: Frame,
    now: i64,
)
    requires
        !(frame is Text),
    ensures
        ({
            let r = frame_step(s, limiter, addr, frame, now);
            r.server == s && r.text is None && r.outgoing.len() == 0
        }),
{
}

// ── Waiting ─────────────────────────────────────────────────────────────

/// The time left to wait is that until the next attempt of the IP address or,
/// where that may try again, of the connection; none is left once the time has
/// passed.
pub proof fn law_time_left(s: ServerView, addr: PeerAddr, now: i64)
    requires
        s.peers.contains_key(addr),
    ensures
        ({
            let left = backoff_left(s.peers, s.backoff, addr, now);
            let by_ip = if s.backoff.contains_key(addr.ip) {
                s.backoff[addr.ip].1
            } else {
                None
            };
            let by_peer = s.peers[addr].next_account_attempt;
            &&& by_ip is Some && by_ip->0 >= now ==> left == Ok::<Option<int>, ServerMessageView>(
                Some(by_ip->0 - now),
            )
            &&& (by_ip is None || by_ip->0 < now) && by_peer is Some && by_peer->0 >= now ==> left
                == Ok::<Option<int>, ServerMessageView>(Some(by_peer->0 - now))
            &&& may_attempt(s, addr, now) ==> left == Ok::<Option<int>, ServerMessageView>(None)
        }),
{
}

/// The wait doubles with each failure, from ten milliseconds up to eight
/// seconds.
pub proof fn law_waits_double(failures: nat)
    ensures
        backoff_ms(0) == 10,
        backoff_ms(1) == 10,
        failures >= 1 ==> backoff_ms(failures + 1) == (if 2 * backoff_ms(failures) < 8_000 {
            2 * backoff_ms(failures)
        } else {
            8_000
        }),
{
    lemma_wait(0);
    lemma_wait(1);
    lemma_wait(failures);
    lemma_wait(failures + 1);
}

// ── What is stored ──────────────────────────────────────────────────────

/// An account may have any name but that of the sentinel and any password of at
/// most 72 bytes. A stored hash lets in whom bcrypt says that it fits, and no
/// hash lets in nobody.
pub proof fn law_accounts(name: Seq<char>, passwd: Seq<char>, hash: Seq<char>)
    ensures
        account_verdict(name, passwd) == (if name == "anonymous"@ {
            Err(AccountError::ReservedName)
        } else if encode_utf8(passwd).len() > 72 {
            Err(AccountError::PasswordTooLong)
        } else {
            Ok(())
        }),
        password_len_verdict(passwd) is Ok <==> encode_utf8(passwd).len() <= 72,
        lets_in(Some(hash), passwd) <==> bcrypt_verdict(passwd, hash) == Some(true),
        !lets_in(None, passwd),
{
}

/// The rooms on offer are `general`, `random` and `france`, and then the stored
/// rooms that are none of these, in their order.
pub proof fn law_rooms_are_offered_in_order(stored: Seq<Seq<char>>)
    requires
        stored.no_duplicates(),
    ensures
        add_missing(standing_rooms(), stored) == seq!["general"@, "random"@, "france"@]
            + stored.filter(
            |r: Seq<char>| r != "general"@ && r != "random"@ && r != "france"@,
        ),
    decreases stored.len(),
{
    reveal(Seq::filter);
    let standing = standing_rooms();
    let f = |r: Seq<char>| r != "general"@ && r != "random"@ && r != "france"@;
    assert(forall|r: Seq<char>| standing.contains(r) <==> !(#[trigger] f(r))) by {
        assert(standing[0] == "general"@ && standing[1] == "random"@ && standing[2] == "france"@);
    }
    if stored.len() > 0 {
        let short = stored.drop_last();
        let last = stored.last();
        law_rooms_are_offered_in_order(short);
        let before = add_missing(standing, short);
        if before.contains(last) {
            let i = choose|i: int| 0 <= i < before.len() && before[i] == last;
            if i >= 3 {
                let k = i - 3;
                assert(before[i] == short.filter(f)[k]);
                assert(short.filter(f).contains(last));
                lemma_filter_from(short, f, last);
                let j = choose|j: int| 0 <= j < short.len() && short[j] == last;
                assert(stored[j] == stored[stored.len() - 1]);
            } else {
                assert(standing[i] == last);
            }
            assert(!f(last));
        } else {
            if !f(last) {
                let i = choose|i: int| 0 <= i < standing.len() && standing[i] == last;
                assert(before[i] == standing[i]);
            }
        }
        assert(add_missing(standing, stored) =~= standing + stored.filter(f));
    } else {
        assert(add_missing(standing, stored) =~= standing + stored.filter(f));
    }
}

/// What is left of a list was in the list.
proof fn lemma_filter_from(
    list: Seq<Seq<char>>,
    f: spec_fn(Seq<char>) -> bool,
    item: Seq<char>,
)
    requires
        list.filter(f).contains(item),
    ensures
        list.contains(item),
        f(item),
    decreases list.len(),
{
    reveal(Seq::filter);
    if list.len() > 0 {
        let short = list.drop_last();
        if short.filter(f).contains(item) {
            lemma_filter_from(short, f, item);
            let i = choose|i: int| 0 <= i < short.len() && short[i] == item;
            assert(list[i] == item);
        } else {
            let i = choose|i: int| 0 <= i < list.filter(f).len() && list.filter(f)[i] == item;
            if i < short.filter(f).len() {
                assert(short.filter(f)[i] == item);
            }
            assert(list[list.len() - 1] == item);
        }
    }
}

/// A message stands before a cursor if its id is smaller; without a cursor all
/// do.
pub proof fn law_cursors(id: int, cursor: u64)
    ensures
        is_before(id, Some(cursor)) <==> id < cursor,
        is_before(id, None),
{
}

/// A peer is made with the login and the rooms that it is given, each once, and
/// with no failures.
pub proof fn law_new_peers(login: Seq<char>, rooms: Seq<Seq<char>>)
    ensures
        ({
            let p = fresh_peer(login, rooms);
            &&& p.login == login
            &&& p.rooms.no_duplicates()
            &&& forall|r: Seq<char>| #[trigger] p.rooms.contains(r) <==> rooms.contains(r)
            &&& p.login_failures == 0
            &&& p.next_account_attempt is None
            &&& p.is_authenticated
        }),
{
    lemma_add_missing(Seq::empty(), rooms);
    assert(forall|r: Seq<char>| !Seq::<Seq<char>>::empty().contains(r));
}

// ── Values and what is said of them ─────────────────────────────────────

/// What is said of work for the database is said of its own fields.
pub proof fn law_tasks_are_seen(t: Task)
    ensures
        match t {
            Task::InsertAccount { login, passwd } => t@ == (TaskView::InsertAccount {
                login: login@,
                passwd: passwd@,
            }),
            Task::VerifyCredentials { login, passwd } => t@ == (TaskView::VerifyCredentials {
                login: login@,
                passwd: passwd@,
            }),
            Task::GetRooms => t@ == TaskView::GetRooms,
            Task::GetChangedRooms => t@ == TaskView::GetChangedRooms,
            Task::InsertMessage { room, login, message } => t@ == (TaskView::InsertMessage {
                room: room@,
                login: login@,
                message: message@,
            }),
            Task::GetRoomHistory { room, cursor, limit } => t@ == (TaskView::GetRoomHistory {
                room: room@,
                cursor,
                limit,
            }),
        },
{
}

/// What is said of a result of the database is said of its own fields.
pub proof fn law_results_are_seen(d: Done)
    ensures
        match d {
            Done::AccountInserted { login, created } => d@ == (DoneView::AccountInserted {
                login: login@,
                created,
            }),
            Done::CredentialsVerified { login, verified } => d@ == (
            DoneView::CredentialsVerified { login: login@, verified }),
            Done::RoomsListed { rooms: None } => d@ == (DoneView::RoomsListed { rooms: None }),
            Done::RoomsListed { rooms: Some(rooms) } => d@ == (DoneView::RoomsListed {
                rooms: Some(texts(rooms@)),
            }),
            Done::ChangedRoomsListed { rooms: None } => d@ == (DoneView::ChangedRoomsListed {
                rooms: None,
            }),
            Done::ChangedRoomsListed { rooms: Some(rooms) } => d@ == (
            DoneView::ChangedRoomsListed { rooms: Some(texts(rooms@)) }),
            Done::MessageStored { room, login, message, stored } => d@ == (
            DoneView::MessageStored { room: room@, login: login@, message: message@, stored }),
            Done::HistoryLoaded { room, page: None } => d@ == (DoneView::HistoryLoaded {
                room: room@,
                page: None,
            }),
            Done::HistoryLoaded { room, page: Some((messages, has_more)) } => d@ == (
            DoneView::HistoryLoaded {
                room: room@,
                page: Some((entries(messages@), has_more)),
            }),
        },
{
}

/// What is said of a step is said of the texts that it sends, each to the peers
/// that it names, of its work for the database and of the server after it.
pub proof fn law_steps_are_seen(step: Step, after: ServerView, v: StepView)
    requires
        step.is(after, v),
    ensures
        after == v.server,
        step.outgoing@.len() == v.outgoing.len(),
        forall|i: int|
            0 <= i < v.outgoing.len() ==> (#[trigger] v.outgoing[i]).text == step.outgoing@[i].text@
                && (forall|a: PeerAddr| #[trigger]
                v.outgoing[i].to.contains(a) <==> step.outgoing@[i].to@.contains(a))
                && step.outgoing@[i].to@.no_duplicates(),
        step.task is None <==> v.task is None,
        step.task is Some ==> v.task == Some(step.task->0@),
{
}

/// What is said of what comes of a frame is said of its text and of the texts
/// that are sent.
pub proof fn law_received_is_seen(r: Received, after: ServerView, v: ReceivedView)
    requires
        r.is(after, v),
    ensures
        after == v.server,
        r.outgoing@.len() == v.outgoing.len(),
        forall|i: int|
            0 <= i < v.outgoing.len() ==> (#[trigger] v.outgoing[i]).text == r.outgoing@[i].text@
                && (forall|a: PeerAddr| #[trigger]
                v.outgoing[i].to.contains(a) <==> r.outgoing@[i].to@.contains(a)),
        r.text is None <==> v.text is None,
        r.text is Some ==> v.text == Some(r.text->0@),
{
}

/// What is said of a peer is said of its own fields, and of the server of its
/// peers, its waits, its rates and its counter.
pub proof fn law_peers_are_seen(p: Peer, s: Server)
    ensures
        p@.login == p.login@,
        p@.rooms == texts(p.rooms@),
        p@.login_failures == p.login_failures,
        p@.next_account_attempt == p.next_account_attempt,
        p@.is_authenticated == p.is_authenticated,
        s@.peers == s.peers@,
        s@.backoff == s.ip_backoff.map(),
        s@.rates == s.rates@,
        s@.next_system_id == s.next_system_id,
{
}

} // verus!
