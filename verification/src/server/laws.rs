//! What holds of the server as a whole.

use vstd::arithmetic::power2::{lemma2_to64, lemma_pow2_strictly_increases, pow2};
use vstd::prelude::*;
use vstd::string::*;

use super::account::{
    account_verdict, is_before, is_let_in, lets_in, page_of, standing_rooms,
};
use super::addr::{IpKey, PeerAddr};
use super::backoff::{
    backoff_left, backoff_ms, is_clock_time, one_more, with_ip_failure, ACCOUNT_BACKOFF_BASE_MS,
    ACCOUNT_BACKOFF_MAX_MS,
};
use super::peers::{
    authentication, error_view, is_user, joining, login_in_use, login_required, no_session,
    others_in, user_at, with_login, with_room, without_room, PeerView,
};
use super::rate::{cutoff, is_allowed, still_counting, times_after, window_nanos, RateLimiter};
use super::send::{chat, notices, notification, id_after, post, reply, OutgoingView};
use super::session::{
    answer, connected, create_account_step, created_account_step, departed, disconnect_step,
    done_step, failed, frame_step, join_room_step, leave_room_step, login_step, logout_step,
    message_step, signed_out, stored_message_step, succeeded, told, verified_login_step, Clock,
    DoneView, ServerView, TaskView,
};
use crate::list::{add_missing, lemma_add_missing};
use crate::protocol::frame::Frame;
use crate::protocol::json::{delivery_json, server_json};
use crate::protocol::laws::{is_printable, lemma_printable_text};
use crate::protocol::message::{
    ClientMessageView, DeliveryView, HistoryEntryView, ServerMessageView, MAX_CODE_LEN,
    MAX_LOGIN_LEN, MAX_NEW_ROOM_LEN, MAX_PASSWORD_LEN, MAX_REASON_LEN, MAX_ROOM_LEN,
};
use crate::protocol::validate::{
    is_room_char, legacy_login_verdict, room_verdict, server_verdict, text_verdict,
};
use crate::text::{byte_len, has_control, is_control};

verus! {

broadcast use vstd::string::group_string_axioms;

// ── Users and rooms ─────────────────────────────────────────────────────

/// Whether the state of a server makes sense: no two peers are the same user,
/// only users are in rooms, and no peer is in a room twice.
pub open spec fn is_sound(s: ServerView) -> bool {
    &&& forall|a: PeerAddr, b: PeerAddr|
        #![trigger s.peers.contains_key(a), s.peers.contains_key(b)]
        s.peers.contains_key(a) && s.peers.contains_key(b) && a != b && is_user(s.peers[a].login)
            ==> s.peers[a].login != s.peers[b].login
    &&& forall|a: PeerAddr| #[trigger]
        s.peers.contains_key(a) && s.peers[a].rooms.len() > 0 ==> is_user(s.peers[a].login)
    &&& forall|a: PeerAddr| #[trigger]
        s.peers.contains_key(a) ==> s.peers[a].rooms.no_duplicates()
}

/// Taking a value out of a sequence without duplicates leaves none.
proof fn lemma_remove_value_distinct(rooms: Seq<Seq<char>>, room: Seq<char>)
    requires
        rooms.no_duplicates(),
    ensures
        rooms.remove_value(room).no_duplicates(),
        rooms.remove_value(room).len() <= rooms.len(),
        !rooms.remove_value(room).contains(room),
{
    rooms.index_of_first_ensures(room);
    if rooms.contains(room) {
        let i = rooms.index_of_first(room)->0;
        rooms.remove_ensures(i);
        let after = rooms.remove(i);
        assert forall|a: int, b: int| 0 <= a < after.len() && 0 <= b < after.len() && a
            != b implies after[a] != after[b] by {
            let a0 = if a < i { a } else { a + 1 };
            let b0 = if b < i { b } else { b + 1 };
            assert(after[a] == rooms[a0] && after[b] == rooms[b0]);
        }
        assert forall|a: int| 0 <= a < after.len() implies after[a] != room by {
            let a0 = if a < i { a } else { a + 1 };
            assert(after[a] == rooms[a0] && rooms[i] == room);
        }
    }
}

/// A server with no peers is sound.
pub proof fn law_empty_server_is_sound(s: ServerView)
    requires
        s.peers == Map::<PeerAddr, PeerView>::empty(),
    ensures
        is_sound(s),
{
}

/// A peer that connects leaves the server sound.
pub proof fn law_connecting_keeps_server_sound(s: ServerView, addr: PeerAddr)
    requires
        is_sound(s),
    ensures
        is_sound(connected(s, addr)),
        user_at(connected(s, addr).peers, addr) == Err::<Seq<char>, ServerMessageView>(
            login_required(),
        ),
{
    assert(add_missing(Seq::empty(), Seq::empty()) =~= Seq::<Seq<char>>::empty());
}

/// Whatever message a peer sends, the server stays sound.
pub proof fn law_messages_keep_server_sound(
    s: ServerView,
    addr: PeerAddr,
    m: ClientMessageView,
    clock: Clock,
)
    requires
        is_sound(s),
    ensures
        is_sound(message_step(s, addr, m, clock).server),
{
    match m {
        ClientMessageView::LeaveRoom { room } => {
            if user_at(s.peers, addr) is Ok {
                lemma_remove_value_distinct(s.peers[addr].rooms, room);
            }
        },
        _ => {},
    }
}

/// Whatever the database says, the server stays sound.
pub proof fn law_database_results_keep_server_sound(
    s: ServerView,
    addr: PeerAddr,
    done: DoneView,
    clock: Clock,
)
    requires
        is_sound(s),
    ensures
        is_sound(done_step(s, addr, done, clock).server),
{
}

/// A peer that disconnects leaves the server sound and has no session.
pub proof fn law_disconnecting_keeps_server_sound(s: ServerView, addr: PeerAddr, clock: Clock)
    requires
        is_sound(s),
    ensures
        is_sound(disconnect_step(s, addr, clock).server),
        user_at(disconnect_step(s, addr, clock).server.peers, addr) == Err::<
            Seq<char>,
            ServerMessageView,
        >(no_session()),
{
}

/// A frame leaves the peers as they are.
pub proof fn law_frames_keep_peers(
    s: ServerView,
    limiter: RateLimiter,
    addr: PeerAddr,
    frame: Frame,
    now: i64,
)
    ensures
        frame_step(s, limiter, addr, frame, now).server.peers == s.peers,
        frame_step(s, limiter, addr, frame, now).server.backoff == s.backoff,
{
}

// ── Authentication ──────────────────────────────────────────────────────

/// Who has not logged in can neither join or leave a room nor send or read
/// messages: the answer is an error, and nothing changes.
pub proof fn law_login_comes_first(
    s: ServerView,
    addr: PeerAddr,
    room: Seq<char>,
    message: Seq<char>,
    cursor: Option<u64>,
    clock: Clock,
)
    requires
        s.peers.contains_key(addr),
        !is_user(s.peers[addr].login),
    ensures
        message_step(s, addr, ClientMessageView::JoinRoom { room }, clock) == answer(
            s,
            addr,
            login_required(),
        ),
        message_step(s, addr, ClientMessageView::LeaveRoom { room }, clock) == answer(
            s,
            addr,
            login_required(),
        ),
        message_step(s, addr, ClientMessageView::SendMessage { room, message }, clock) == answer(
            s,
            addr,
            login_required(),
        ),
        message_step(s, addr, ClientMessageView::GetHistory { room, cursor }, clock) == answer(
            s,
            addr,
            login_required(),
        ),
{
}

/// Who is not in a room can neither send to it nor read its history.
pub proof fn law_joining_comes_first(
    s: ServerView,
    addr: PeerAddr,
    room: Seq<char>,
    message: Seq<char>,
    cursor: Option<u64>,
    clock: Clock,
)
    requires
        s.peers.contains_key(addr),
        !s.peers[addr].rooms.contains(room),
    ensures
        message_step(s, addr, ClientMessageView::SendMessage { room, message }, clock).task is None,
        message_step(s, addr, ClientMessageView::SendMessage { room, message }, clock).server == s,
        message_step(s, addr, ClientMessageView::GetHistory { room, cursor }, clock).task is None,
        message_step(s, addr, ClientMessageView::GetHistory { room, cursor }, clock).server == s,
{
}

/// Joining a room lets a user send to it, and leaving it takes that away.
pub proof fn law_joining_and_leaving(
    s: ServerView,
    addr: PeerAddr,
    room: Seq<char>,
    clock: Clock,
)
    requires
        is_sound(s),
        user_at(s.peers, addr) is Ok,
    ensures
        join_room_step(s, addr, room, clock).server.peers[addr].rooms.contains(room),
        !leave_room_step(s, addr, room, clock).server.peers[addr].rooms.contains(room),
        joining(s.peers, addr, room) is Ok <==> !s.peers[addr].rooms.contains(room),
{
    let rooms = s.peers[addr].rooms;
    lemma_remove_value_distinct(rooms, room);
    if !rooms.contains(room) {
        assert(rooms.push(room)[rooms.len() as int] == room);
    }
}

/// Creating an account authenticates nobody and moves nobody.
pub proof fn law_creating_an_account_authenticates_nobody(
    s: ServerView,
    addr: PeerAddr,
    login: Seq<char>,
    passwd: Seq<char>,
    created: Option<bool>,
    clock: Clock,
    other: PeerAddr,
)
    requires
        s.peers.contains_key(other),
    ensures
        ({
            let asked = create_account_step(s, addr, login, passwd, clock).server.peers;
            let done = created_account_step(s, addr, login, created, clock).server.peers;
            &&& asked == s.peers
            &&& done.contains_key(other)
            &&& done[other].login == s.peers[other].login
            &&& done[other].rooms == s.peers[other].rooms
        }),
{
}

/// The sentinel is never authenticated: the database is not even asked, and
/// the attempt counts as a failure.
pub proof fn law_sentinel_never_authenticates(
    s: ServerView,
    addr: PeerAddr,
    passwd: Seq<char>,
    clock: Clock,
)
    ensures
        login_step(s, addr, "anonymous"@, passwd, clock).task is None,
        login_step(s, addr, "anonymous"@, passwd, clock).server == failed(s, addr, clock.now),
{
}

/// Credentials that the database accepts make the peer that user, in no room
/// and with no failures left, unless another peer is that user already.
pub proof fn law_accepted_credentials_authenticate(
    s: ServerView,
    addr: PeerAddr,
    login: Seq<char>,
    clock: Clock,
)
    requires
        s.peers.contains_key(addr),
        is_user(login),
        !login_in_use(s.peers, addr, login),
    ensures
        ({
            let after = verified_login_step(s, addr, login, Some(true), clock).server;
            &&& user_at(after.peers, addr) == Ok::<Seq<char>, ServerMessageView>(login)
            &&& after.peers[addr].rooms.len() == 0
            &&& after.peers[addr].login_failures == 0
            &&& !after.backoff.contains_key(addr.ip)
        }),
{
}

/// A login that another peer uses is refused, and nothing changes.
pub proof fn law_login_in_use_is_refused(
    s: ServerView,
    addr: PeerAddr,
    other: PeerAddr,
    login: Seq<char>,
    clock: Clock,
)
    requires
        s.peers.contains_key(other),
        other != addr,
        s.peers[other].login == login,
        is_user(login),
    ensures
        verified_login_step(s, addr, login, Some(true), clock) == answer(
            s,
            addr,
            ServerMessageView::LoginFailed { reason: "Login already in use. Please try again."@ },
        ),
{
}

/// A login that fails, or comes too early, takes the login away that the peer
/// had before, and its rooms.
pub proof fn law_failed_logins_sign_out(
    s: ServerView,
    addr: PeerAddr,
    login: Seq<char>,
    passwd: Seq<char>,
    verified: Option<bool>,
    clock: Clock,
)
    requires
        s.peers.contains_key(addr),
        verified != Some(true),
    ensures
        ({
            let after = verified_login_step(s, addr, login, verified, clock).server.peers;
            &&& user_at(after, addr) == Err::<Seq<char>, ServerMessageView>(login_required())
            &&& after[addr].rooms.len() == 0
        }),
        backoff_left(s.peers, s.backoff, addr, clock.now) matches Ok(Some(_)) && login
            != "anonymous"@ ==> {
            let after = login_step(s, addr, login, passwd, clock).server.peers;
            &&& user_at(after, addr) == Err::<Seq<char>, ServerMessageView>(login_required())
            &&& after[addr].rooms.len() == 0
        },
{
}

/// Who has logged out is no user and in no room, and logging out again changes
/// nothing more.
pub proof fn law_logging_out(s: ServerView, addr: PeerAddr, clock: Clock, later: Clock)
    requires
        s.peers.contains_key(addr),
    ensures
        ({
            let once = logout_step(s, addr, clock).server;
            let twice = logout_step(once, addr, later);
            &&& user_at(once.peers, addr) == Err::<Seq<char>, ServerMessageView>(login_required())
            &&& once.peers[addr].rooms.len() == 0
            &&& twice.server == once
            &&& twice.outgoing == reply(once.peers, addr, ServerMessageView::LogoutOk)
        }),
{
    let once = logout_step(s, addr, clock).server;
    let twice = logout_step(once, addr, later);
    assert(twice.server.peers =~= once.peers);
    assert(twice.outgoing =~= reply(once.peers, addr, ServerMessageView::LogoutOk));
}

// ── Sending ─────────────────────────────────────────────────────────────

/// Whether a text is that of a message that the protocol allows.
pub open spec fn is_protocol_text(t: Seq<char>) -> bool {
    exists|d: DeliveryView|
        server_verdict(d.message) is Ok && (t == #[trigger] delivery_json(d) || t == server_json(
            d.message,
        ))
}

/// Whether everything in a list is allowed by the protocol and goes to
/// connected peers only.
pub open spec fn is_proper(out: Seq<OutgoingView>, peers: Map<PeerAddr, PeerView>) -> bool {
    forall|i: int| 0 <= i < out.len() ==> is_protocol_text((#[trigger] out[i]).text) && (forall|a: PeerAddr|
        out[i].to.contains(a) ==> peers.contains_key(a))
}

/// What is posted to peers that are connected is proper.
proof fn lemma_post_is_proper(
    peers: Map<PeerAddr, PeerView>,
    sender: PeerAddr,
    room: Seq<char>,
    d: DeliveryView,
)
    ensures
        is_proper(post(others_in(peers, sender, room), d), peers),
{
    if server_verdict(d.message) is Ok {
        assert(is_protocol_text(delivery_json(d)));
    }
}

/// An answer is proper.
proof fn lemma_reply_is_proper(
    peers: Map<PeerAddr, PeerView>,
    addr: PeerAddr,
    m: ServerMessageView,
)
    ensures
        is_proper(reply(peers, addr, m), peers),
{
    if server_verdict(m) is Ok {
        let d = DeliveryView { id: 0, message: m };
        assert(delivery_json(d) == delivery_json(d));
        assert(is_protocol_text(server_json(m)));
    }
}

/// Notices are proper.
proof fn lemma_notices_are_proper(
    peers: Map<PeerAddr, PeerView>,
    id: u64,
    sender: PeerAddr,
    rooms: Seq<Seq<char>>,
    text: Seq<char>,
    unix: i64,
)
    ensures
        is_proper(notices(peers, id, sender, rooms, text, unix), peers),
    decreases rooms.len(),
{
    if rooms.len() > 0 {
        let n = (rooms.len() - 1) as nat;
        lemma_notices_are_proper(peers, id, sender, rooms.drop_last(), text, unix);
        lemma_post_is_proper(
            peers,
            sender,
            rooms.last(),
            notification(id_after(id, n), text, unix),
        );
    }
}

/// Notices depend on the rooms of the peers and on nothing else about them.
proof fn lemma_proper_in(
    out: Seq<OutgoingView>,
    peers: Map<PeerAddr, PeerView>,
    others: Map<PeerAddr, PeerView>,
)
    requires
        is_proper(out, peers),
        peers.dom() == others.dom(),
    ensures
        is_proper(out, others),
{
    assert forall|i: int, a: PeerAddr| 0 <= i < out.len() && (#[trigger] out[i]).to.contains(
        a,
    ) implies #[trigger] others.contains_key(a) by {
        assert(peers.contains_key(a));
        assert(peers.dom().contains(a));
    }
}

/// Two proper lists are proper together.
proof fn lemma_proper_append(
    one: Seq<OutgoingView>,
    two: Seq<OutgoingView>,
    peers: Map<PeerAddr, PeerView>,
)
    requires
        is_proper(one, peers),
        is_proper(two, peers),
    ensures
        is_proper(one + two, peers),
{
    assert forall|i: int| 0 <= i < (one + two).len() implies is_protocol_text(
        (#[trigger] (one + two)[i]).text,
    ) && (forall|a: PeerAddr| (one + two)[i].to.contains(a) ==> peers.contains_key(a)) by {
        if i < one.len() {
            assert((one + two)[i] == one[i]);
        } else {
            assert((one + two)[i] == two[i - one.len()]);
        }
    }
}

/// The step in which a peer is signed out sends what is proper.
proof fn lemma_signed_out_is_proper(s: ServerView, addr: PeerAddr, unix: i64)
    ensures
        is_proper(signed_out(s, addr, unix).outgoing, signed_out(s, addr, unix).server.peers),
        signed_out(s, addr, unix).server.peers.dom() == s.peers.dom(),
{
    let step = signed_out(s, addr, unix);
    if s.peers.contains_key(addr) {
        let peers = with_login(s.peers, addr, "anonymous"@);
        lemma_notices_are_proper(
            peers,
            s.next_system_id,
            addr,
            s.peers[addr].rooms,
            s.peers[addr].login + " left the room"@,
            unix,
        );
        assert(peers.dom() =~= s.peers.dom());
    }
}

/// Whatever a peer sends, everything that goes out in answer is allowed by the
/// protocol and goes to connected peers.
pub proof fn law_answers_are_proper(
    s: ServerView,
    addr: PeerAddr,
    m: ClientMessageView,
    clock: Clock,
)
    ensures
        is_proper(
            message_step(s, addr, m, clock).outgoing,
            message_step(s, addr, m, clock).server.peers,
        ),
{
    let step = message_step(s, addr, m, clock);
    assert forall|p: Map<PeerAddr, PeerView>, r: ServerMessageView| is_proper(
        #[trigger] reply(p, addr, r),
        p,
    ) by {
        lemma_reply_is_proper(p, addr, r);
    }
    match m {
        ClientMessageView::Login { login, passwd } => {
            lemma_signed_out_is_proper(s, addr, clock.unix);
            let early = ServerMessageView::LoginFailed {
                reason: "Too many login attempts. Try again later."@,
            };
            let out = signed_out(s, addr, clock.unix);
            lemma_proper_append(
                out.outgoing,
                reply(out.server.peers, addr, early),
                out.server.peers,
            );
        },
        ClientMessageView::JoinRoom { room } => {
            if user_at(s.peers, addr) is Ok {
                lemma_notices_are_proper(
                    with_room(s.peers, addr, room),
                    s.next_system_id,
                    addr,
                    seq![room],
                    s.peers[addr].login + " joined the room"@,
                    clock.unix,
                );
            }
        },
        ClientMessageView::LeaveRoom { room } => {
            if user_at(s.peers, addr) is Ok {
                lemma_notices_are_proper(
                    without_room(s.peers, addr, room),
                    s.next_system_id,
                    addr,
                    seq![room],
                    s.peers[addr].login + " left the room"@,
                    clock.unix,
                );
            }
        },
        ClientMessageView::Logout => {
            if s.peers.contains_key(addr) {
                let peers = step.server.peers;
                let peer = s.peers[addr];
                lemma_notices_are_proper(
                    peers,
                    s.next_system_id,
                    addr,
                    peer.rooms,
                    peer.login + " left the room"@,
                    clock.unix,
                );
                lemma_proper_append(
                    notices(
                        peers,
                        s.next_system_id,
                        addr,
                        peer.rooms,
                        peer.login + " left the room"@,
                        clock.unix,
                    ),
                    reply(peers, addr, ServerMessageView::LogoutOk),
                    peers,
                );
            }
        },
        _ => {},
    }
}

/// Whatever the database says, everything that goes out is allowed by the
/// protocol and goes to connected peers.
pub proof fn law_results_are_proper(s: ServerView, addr: PeerAddr, done: DoneView, clock: Clock)
    ensures
        is_proper(
            done_step(s, addr, done, clock).outgoing,
            done_step(s, addr, done, clock).server.peers,
        ),
{
    assert forall|p: Map<PeerAddr, PeerView>, r: ServerMessageView| is_proper(
        #[trigger] reply(p, addr, r),
        p,
    ) by {
        lemma_reply_is_proper(p, addr, r);
    }
    match done {
        DoneView::CredentialsVerified { login, verified } => {
            lemma_login_result_is_proper(s, addr, login, verified, clock);
        },
        DoneView::MessageStored { room, login, message, stored: Some((id, _)) } => {
            lemma_post_is_proper(s.peers, addr, room, chat(id, login, room, message, clock.unix));
        },
        DoneView::ChangedRoomsListed { rooms: Some(rooms) } => {
            let m = ServerMessageView::RoomList { rooms };
            if server_verdict(m) is Ok {
                let d = DeliveryView { id: 0, message: m };
                assert(delivery_json(d) == delivery_json(d));
                assert(is_protocol_text(server_json(m)));
            }
        },
        _ => {},
    }
}

/// What goes out after a login is proper.
proof fn lemma_login_result_is_proper(
    s: ServerView,
    addr: PeerAddr,
    login: Seq<char>,
    result: Option<bool>,
    clock: Clock,
)
    ensures
        is_proper(
            verified_login_step(s, addr, login, result, clock).outgoing,
            verified_login_step(s, addr, login, result, clock).server.peers,
        ),
{
    assert forall|p: Map<PeerAddr, PeerView>, r: ServerMessageView| is_proper(
        #[trigger] reply(p, addr, r),
        p,
    ) by {
        lemma_reply_is_proper(p, addr, r);
    }
    let step = verified_login_step(s, addr, login, result, clock);
    if result == Some(true) {
        if authentication(s.peers, addr, login) is Ok {
            let left = authentication(s.peers, addr, login)->Ok_0;
            let peers = with_login(s.peers, addr, login);
            let out = departed(
                ServerView { peers, ..s },
                addr,
                left,
                clock.unix,
            );
            let last = succeeded(out.server, addr);
            match left {
                Some((old_login, rooms)) => lemma_notices_are_proper(
                    peers,
                    s.next_system_id,
                    addr,
                    rooms,
                    old_login + " left the room"@,
                    clock.unix,
                ),
                None => {},
            }
            assert(peers.dom() =~= last.peers.dom());
            lemma_proper_in(out.outgoing, peers, last.peers);
            lemma_proper_append(
                out.outgoing,
                reply(last.peers, addr, ServerMessageView::LoginOk { login }),
                last.peers,
            );
        }
    } else {
        let f = failed(s, addr, clock.now);
        lemma_signed_out_is_proper(f, addr, clock.unix);
        let out = signed_out(f, addr, clock.unix);
        let e = if result is Some {
            ServerMessageView::LoginFailed { reason: "Invalid credentials."@ }
        } else {
            error_view("Login failed."@, "AUTH_FAILED"@)
        };
        lemma_proper_append(out.outgoing, reply(out.server.peers, addr, e), out.server.peers);
    }
}

/// What goes out when a peer disconnects and when a frame comes is allowed by
/// the protocol and goes to connected peers.
pub proof fn law_other_texts_are_proper(
    s: ServerView,
    addr: PeerAddr,
    clock: Clock,
    limiter: RateLimiter,
    frame: Frame,
    now: i64,
)
    ensures
        is_proper(
            disconnect_step(s, addr, clock).outgoing,
            disconnect_step(s, addr, clock).server.peers,
        ),
        is_proper(frame_step(s, limiter, addr, frame, now).outgoing, s.peers),
{
    if s.peers.contains_key(addr) {
        lemma_notices_are_proper(
            s.peers.remove(addr),
            s.next_system_id,
            addr,
            s.peers[addr].rooms,
            s.peers[addr].login + " disconnected"@,
            clock.unix,
        );
    }
    lemma_reply_is_proper(
        s.peers,
        addr,
        error_view("Rate limit exceeded. Try again shortly."@, "RATE_LIMITED"@),
    );
}

/// A peer that is refused for a fixed reason is told so.
pub proof fn law_refusals_are_answered(peers: Map<PeerAddr, PeerView>, addr: PeerAddr)
    requires
        peers.contains_key(addr),
    ensures
        is_answered(peers, addr, login_required()),
        is_answered(
            peers,
            addr,
            error_view("Join the room before sending messages."@, "ROOM_REQUIRED"@),
        ),
        is_answered(
            peers,
            addr,
            error_view("Join the room before requesting history."@, "ROOM_REQUIRED"@),
        ),
        is_answered(
            peers,
            addr,
            error_view("Rate limit exceeded. Try again shortly."@, "RATE_LIMITED"@),
        ),
        is_answered(peers, addr, error_view("Login failed."@, "AUTH_FAILED"@)),
        is_answered(
            peers,
            addr,
            ServerMessageView::LoginFailed { reason: "Invalid credentials."@ },
        ),
        is_answered(
            peers,
            addr,
            ServerMessageView::LoginFailed {
                reason: "Too many login attempts. Try again later."@,
            },
        ),
        is_answered(
            peers,
            addr,
            ServerMessageView::LoginFailed { reason: "Login already in use. Please try again."@ },
        ),
        is_answered(
            peers,
            addr,
            ServerMessageView::AccountCreationFailed { reason: "Account creation failed."@ },
        ),
        is_answered(
            peers,
            addr,
            ServerMessageView::AccountCreationFailed {
                reason: "Too many account attempts. Try again later."@,
            },
        ),
        is_answered(peers, addr, ServerMessageView::LogoutOk),
{
    lemma_codes_can_be_sent();
    lemma_messages_can_be_sent();
    lemma_reasons_can_be_sent();
}

/// The texts of errors keep the rule for them.
proof fn lemma_messages_can_be_sent()
    ensures
        text_verdict("Login required."@, "message", MAX_REASON_LEN) is Ok,
        text_verdict("Join the room before sending messages."@, "message", MAX_REASON_LEN) is Ok,
        text_verdict("Join the room before requesting history."@, "message", MAX_REASON_LEN) is Ok,
        text_verdict("Rate limit exceeded. Try again shortly."@, "message", MAX_REASON_LEN) is Ok,
        text_verdict("Login failed."@, "message", MAX_REASON_LEN) is Ok,
{
    assert(text_verdict("Login required."@, "message", MAX_REASON_LEN) is Ok) by {
        reveal_strlit("Login required.");
        lemma_printable_text("Login required."@, "message", MAX_REASON_LEN);
    }
    assert(text_verdict("Join the room before sending messages."@, "message", MAX_REASON_LEN) is Ok) by {
        reveal_strlit("Join the room before sending messages.");
        lemma_printable_text("Join the room before sending messages."@, "message", MAX_REASON_LEN);
    }
    assert(text_verdict("Join the room before requesting history."@, "message", MAX_REASON_LEN) is Ok) by {
        reveal_strlit("Join the room before requesting history.");
        lemma_printable_text("Join the room before requesting history."@, "message", MAX_REASON_LEN);
    }
    assert(text_verdict("Rate limit exceeded. Try again shortly."@, "message", MAX_REASON_LEN) is Ok) by {
        reveal_strlit("Rate limit exceeded. Try again shortly.");
        lemma_printable_text("Rate limit exceeded. Try again shortly."@, "message", MAX_REASON_LEN);
    }
    assert(text_verdict("Login failed."@, "message", MAX_REASON_LEN) is Ok) by {
        reveal_strlit("Login failed.");
        lemma_printable_text("Login failed."@, "message", MAX_REASON_LEN);
    }
}

/// The reasons of refusals keep the rule for them.
proof fn lemma_reasons_can_be_sent()
    ensures
        text_verdict("Invalid credentials."@, "reason", MAX_REASON_LEN) is Ok,
        text_verdict("Too many login attempts. Try again later."@, "reason", MAX_REASON_LEN) is Ok,
        text_verdict("Login already in use. Please try again."@, "reason", MAX_REASON_LEN) is Ok,
        text_verdict("Account creation failed."@, "reason", MAX_REASON_LEN) is Ok,
        text_verdict("Too many account attempts. Try again later."@, "reason", MAX_REASON_LEN) is Ok,
{
    assert(text_verdict("Invalid credentials."@, "reason", MAX_REASON_LEN) is Ok) by {
        reveal_strlit("Invalid credentials.");
        lemma_printable_text("Invalid credentials."@, "reason", MAX_REASON_LEN);
    }
    assert(text_verdict("Too many login attempts. Try again later."@, "reason", MAX_REASON_LEN) is Ok) by {
        reveal_strlit("Too many login attempts. Try again later.");
        lemma_printable_text("Too many login attempts. Try again later."@, "reason", MAX_REASON_LEN);
    }
    assert(text_verdict("Login already in use. Please try again."@, "reason", MAX_REASON_LEN) is Ok) by {
        reveal_strlit("Login already in use. Please try again.");
        lemma_printable_text("Login already in use. Please try again."@, "reason", MAX_REASON_LEN);
    }
    assert(text_verdict("Account creation failed."@, "reason", MAX_REASON_LEN) is Ok) by {
        reveal_strlit("Account creation failed.");
        lemma_printable_text("Account creation failed."@, "reason", MAX_REASON_LEN);
    }
    assert(text_verdict("Too many account attempts. Try again later."@, "reason", MAX_REASON_LEN) is Ok) by {
        reveal_strlit("Too many account attempts. Try again later.");
        lemma_printable_text("Too many account attempts. Try again later."@, "reason", MAX_REASON_LEN);
    }
}

/// The codes of errors keep the rule for them.
proof fn lemma_codes_can_be_sent()
    ensures
        text_verdict("NOT_AUTHENTICATED"@, "code", MAX_CODE_LEN) is Ok,
        text_verdict("ROOM_REQUIRED"@, "code", MAX_CODE_LEN) is Ok,
        text_verdict("RATE_LIMITED"@, "code", MAX_CODE_LEN) is Ok,
        text_verdict("AUTH_FAILED"@, "code", MAX_CODE_LEN) is Ok,
        text_verdict("ALREADY_IN_ROOM"@, "code", MAX_CODE_LEN) is Ok,
{
    assert(text_verdict("NOT_AUTHENTICATED"@, "code", MAX_CODE_LEN) is Ok) by {
        reveal_strlit("NOT_AUTHENTICATED");
        lemma_printable_text("NOT_AUTHENTICATED"@, "code", MAX_CODE_LEN);
    }
    assert(text_verdict("ROOM_REQUIRED"@, "code", MAX_CODE_LEN) is Ok) by {
        reveal_strlit("ROOM_REQUIRED");
        lemma_printable_text("ROOM_REQUIRED"@, "code", MAX_CODE_LEN);
    }
    assert(text_verdict("RATE_LIMITED"@, "code", MAX_CODE_LEN) is Ok) by {
        reveal_strlit("RATE_LIMITED");
        lemma_printable_text("RATE_LIMITED"@, "code", MAX_CODE_LEN);
    }
    assert(text_verdict("AUTH_FAILED"@, "code", MAX_CODE_LEN) is Ok) by {
        reveal_strlit("AUTH_FAILED");
        lemma_printable_text("AUTH_FAILED"@, "code", MAX_CODE_LEN);
    }
    assert(text_verdict("ALREADY_IN_ROOM"@, "code", MAX_CODE_LEN) is Ok) by {
        reveal_strlit("ALREADY_IN_ROOM");
        lemma_printable_text("ALREADY_IN_ROOM"@, "code", MAX_CODE_LEN);
    }
}

/// Whether a message reaches the peer that it answers.
pub open spec fn is_answered(
    peers: Map<PeerAddr, PeerView>,
    addr: PeerAddr,
    m: ServerMessageView,
) -> bool {
    reply(peers, addr, m) == seq![OutgoingView { to: set![addr], text: server_json(m) }]
}

/// Who joins a room twice is told so.
pub proof fn law_joining_twice_is_answered(
    s: ServerView,
    addr: PeerAddr,
    room: Seq<char>,
    clock: Clock,
)
    requires
        user_at(s.peers, addr) is Ok,
        s.peers[addr].rooms.contains(room),
        room_verdict(room) is Ok,
    ensures
        ({
            let e = error_view("You are already in room '"@ + room + "'"@, "ALREADY_IN_ROOM"@);
            &&& join_room_step(s, addr, room, clock) == answer(s, addr, e)
            &&& is_answered(s.peers, addr, e)
        }),
{
    let start = "You are already in room '"@;
    let text = start + room + "'"@;
    lemma_codes_can_be_sent();
    reveal_strlit("You are already in room '");
    reveal_strlit("'");
    lemma_room_is_short(room);
    assert forall|i: int| 0 <= i < text.len() implies is_printable(#[trigger] text[i]) by {
        if i < start.len() {
            assert(text[i] == start[i]);
        } else if i < start.len() + room.len() {
            assert(text[i] == room[i - start.len()]);
            assert(is_room_char(room[i - start.len()]));
        }
    }
    assert(text[0] == 'Y');
    assert(text.last() == '\'');
    lemma_printable_text(text, "message", MAX_REASON_LEN);
}

/// The name of a room has no more characters than bytes.
proof fn lemma_room_is_short(room: Seq<char>)
    requires
        room_verdict(room) is Ok,
    ensures
        room.len() <= MAX_NEW_ROOM_LEN,
{
    assert(vstd::utf8::is_ascii_chars(room)) by {
        assert forall|i: int| 0 <= i < room.len() implies room[i] as nat <= 127 by {
            assert(is_room_char(room[i]));
        }
    }
    vstd::utf8::is_ascii_chars_encode_utf8(room);
}

/// No notice of a user who joins, leaves or disconnects is dropped.
pub proof fn law_notices_are_not_dropped(
    login: Seq<char>,
    id: u64,
    unix: i64,
    to: Set<PeerAddr>,
)
    requires
        legacy_login_verdict(login) is Ok,
    ensures
        post(to, notification(id, login + " joined the room"@, unix)).len() == 1,
        post(to, notification(id, login + " left the room"@, unix)).len() == 1,
        post(to, notification(id, login + " disconnected"@, unix)).len() == 1,
{
    reveal_strlit("Server");
    lemma_printable_text("Server"@, "login", MAX_LOGIN_LEN);
    reveal_strlit("system");
    lemma_printable_text("system"@, "room", MAX_ROOM_LEN);
    reveal_strlit(" joined the room");
    lemma_no_control_after(login, " joined the room"@);
    reveal_strlit(" left the room");
    lemma_no_control_after(login, " left the room"@);
    reveal_strlit(" disconnected");
    lemma_no_control_after(login, " disconnected"@);
}

/// A text without control characters followed by a printable one has none.
proof fn lemma_no_control_after(text: Seq<char>, end: Seq<char>)
    requires
        !has_control(text),
        forall|i: int| 0 <= i < end.len() ==> is_printable(#[trigger] end[i]),
    ensures
        !has_control(text + end),
{
    let whole = text + end;
    assert forall|i: int| 0 <= i < whole.len() implies !is_control(#[trigger] whole[i]) by {
        if i < text.len() {
            assert(whole[i] == text[i]);
        } else {
            assert(whole[i] == end[i - text.len()]);
            assert(is_printable(end[i - text.len()]));
        }
    }
}

/// A chat message goes to the peers that are in its room and to nobody else,
/// and not back to the sender.
pub proof fn law_messages_stay_in_their_room(
    s: ServerView,
    addr: PeerAddr,
    login: Seq<char>,
    room: Seq<char>,
    message: Seq<char>,
    id: u64,
    is_first: bool,
    clock: Clock,
)
    requires
        server_verdict(
            ServerMessageView::IncomingMessage { login, room, message, timestamp: clock.unix },
        ) is Ok,
    ensures
        ({
            let stored = Some((id, is_first));
            let out = stored_message_step(s, addr, login, room, message, stored, clock).outgoing;
            &&& out.len() == 1
            &&& out[0].text == delivery_json(chat(id, login, room, message, clock.unix))
            &&& forall|a: PeerAddr|
                out[0].to.contains(a) <==> s.peers.contains_key(a) && a != addr
                    && s.peers[a].rooms.contains(room)
        }),
{
}

/// A message that brings a room on offer, and no other, has the rooms listed
/// anew, and that list holds the room. `held` are the rooms that held messages
/// before, `held_after` those that hold messages with it.
pub proof fn law_new_rooms_are_listed(
    s: ServerView,
    addr: PeerAddr,
    login: Seq<char>,
    room: Seq<char>,
    message: Seq<char>,
    id: u64,
    held: Seq<Seq<char>>,
    held_after: Seq<Seq<char>>,
    clock: Clock,
)
    requires
        forall|r: Seq<char>| #[trigger] held_after.contains(r) <==> held.contains(r) || r == room,
    ensures
        ({
            let before = add_missing(standing_rooms(), held);
            let after = add_missing(standing_rooms(), held_after);
            let stored = Some((id, !held.contains(room)));
            let task = stored_message_step(s, addr, login, room, message, stored, clock).task;
            &&& task == Some(TaskView::GetChangedRooms) <==> !before.contains(room)
            &&& task is None <==> before.contains(room)
            &&& forall|r: Seq<char>| #[trigger]
                after.contains(r) <==> before.contains(r) || r == room
        }),
{
    law_rooms_on_offer(held);
    law_rooms_on_offer(held_after);
}

/// The list of rooms that have changed goes to every user and to nobody else.
pub proof fn law_changed_rooms_go_to_every_user(
    s: ServerView,
    addr: PeerAddr,
    rooms: Seq<Seq<char>>,
    clock: Clock,
)
    requires
        server_verdict(ServerMessageView::RoomList { rooms }) is Ok,
    ensures
        ({
            let done = DoneView::ChangedRoomsListed { rooms: Some(rooms) };
            let step = done_step(s, addr, done, clock);
            &&& step.server == s
            &&& step.outgoing.len() == 1
            &&& step.outgoing[0].text == server_json(ServerMessageView::RoomList { rooms })
            &&& forall|a: PeerAddr| #[trigger]
                step.outgoing[0].to.contains(a) <==> s.peers.contains_key(a) && is_user(
                    s.peers[a].login,
                )
        }),
{
}

// ── Backoff ─────────────────────────────────────────────────────────────

/// The wait grows with the number of failures, from the base up to the longest.
pub proof fn law_waits_grow(fewer: nat, more: nat)
    requires
        fewer <= more,
    ensures
        ACCOUNT_BACKOFF_BASE_MS <= backoff_ms(fewer) <= backoff_ms(more) <= ACCOUNT_BACKOFF_MAX_MS,
        backoff_ms(1) == ACCOUNT_BACKOFF_BASE_MS,
        1 <= fewer && backoff_ms(fewer) < ACCOUNT_BACKOFF_MAX_MS ==> backoff_ms(fewer + 1) == (if 2
            * backoff_ms(fewer) < ACCOUNT_BACKOFF_MAX_MS {
            2 * backoff_ms(fewer)
        } else {
            ACCOUNT_BACKOFF_MAX_MS as nat
        }),
{
    lemma2_to64();
    let f = if fewer == 0 { 0 } else { (fewer - 1) as nat };
    let m = if more == 0 { 0 } else { (more - 1) as nat };
    if f < m {
        lemma_pow2_strictly_increases(f, m);
    }
    if 0 < f {
        lemma_pow2_strictly_increases(0, f);
    }
    if 1 <= fewer {
        vstd::arithmetic::power2::lemma_pow2_unfold(fewer);
        assert(pow2(fewer) == 2 * pow2((fewer - 1) as nat));
    }
}

/// After a failure nobody at the same IP address may try again before the wait
/// is over, whatever connection they use.
pub proof fn law_backoff_outlives_connections(
    backoff: Map<IpKey, (u32, Option<i64>)>,
    peers: Map<PeerAddr, PeerView>,
    addr: PeerAddr,
    failed_at: i64,
    now: i64,
)
    requires
        is_clock_time(failed_at),
        failed_at <= now,
    ensures
        ({
            let after = with_ip_failure(backoff, addr.ip, failed_at);
            let until = after[addr.ip].1->0;
            &&& until >= failed_at + ACCOUNT_BACKOFF_BASE_MS * 1_000_000
            &&& now <= until ==> backoff_left(peers, after, addr, now) == Ok::<
                Option<int>,
                ServerMessageView,
            >(Some(until - now))
        }),
{
    let failures = one_more(
        if backoff.contains_key(addr.ip) {
            backoff[addr.ip].0
        } else {
            0
        },
    );
    law_waits_grow(failures as nat, failures as nat);
}

/// Success ends the wait of the peer that had it.
pub proof fn law_success_ends_the_wait(s: ServerView, addr: PeerAddr, now: i64)
    requires
        s.peers.contains_key(addr),
    ensures
        backoff_left(
            succeeded(s, addr).peers,
            succeeded(s, addr).backoff,
            addr,
            now,
        ) == Ok::<Option<int>, ServerMessageView>(None),
{
}

/// A failure makes nobody wait at another IP address.
pub proof fn law_backoff_is_kept_per_ip(
    s: ServerView,
    addr: PeerAddr,
    other: PeerAddr,
    failed_at: i64,
    now: i64,
)
    requires
        other.ip != addr.ip,
    ensures
        backoff_left(
            failed(s, addr, failed_at).peers,
            failed(s, addr, failed_at).backoff,
            other,
            now,
        ) == backoff_left(s.peers, s.backoff, other, now),
{
}

// ── Rate limit ──────────────────────────────────────────────────────────

/// The times at which messages were allowed, of those at which they came.
pub open spec fn allowed_times(limit: nat, window_secs: u64, came: Seq<i64>) -> Seq<i64>
    decreases came.len(),
{
    if came.len() == 0 {
        Seq::empty()
    } else {
        let before = allowed_times(limit, window_secs, came.drop_last());
        if is_allowed(
            limit,
            window_secs,
            kept_times(limit, window_secs, came.drop_last()),
            came.last(),
        ) {
            before.push(came.last())
        } else {
            before
        }
    }
}

/// The times that the limiter has kept after messages came at given times.
pub open spec fn kept_times(limit: nat, window_secs: u64, came: Seq<i64>) -> Seq<i64>
    decreases came.len(),
{
    if came.len() == 0 {
        Seq::empty()
    } else {
        times_after(
            limit,
            window_secs,
            kept_times(limit, window_secs, came.drop_last()),
            came.last(),
        )
    }
}

/// Whether times are in order and none of them is so early that a window
/// before it cannot be written down.
pub open spec fn in_order(window_secs: u64, came: Seq<i64>) -> bool {
    &&& forall|i: int, j: int| 0 <= i <= j < came.len() ==> came[i] <= came[j]
    &&& forall|i: int|
        0 <= i < came.len() ==> #[trigger] came[i] - window_nanos(window_secs) >= i64::MIN
}

/// Counting from a later time on what counts from an earlier one is counting
/// from the later one.
proof fn lemma_count_later(times: Seq<i64>, cut: int, later: int)
    requires
        cut <= later,
    ensures
        still_counting(still_counting(times, cut), later) == still_counting(times, later),
    decreases times.len(),
{
    reveal(Seq::filter);
    if times.len() > 0 {
        lemma_count_later(times.drop_last(), cut, later);
        let rest = still_counting(times.drop_last(), cut);
        if times.last() > cut {
            assert(still_counting(times, cut) =~= rest.push(times.last()));
            assert(rest.push(times.last()).drop_last() =~= rest);
        }
    }
}

/// Of times in order, those after a cut are the last ones.
proof fn lemma_counting_is_a_suffix(times: Seq<i64>, cut: int, i: int)
    requires
        forall|a: int, b: int| 0 <= a <= b < times.len() ==> times[a] <= times[b],
        0 <= i < times.len(),
        times[i] > cut,
    ensures
        still_counting(times, cut).len() >= times.len() - i,
    decreases times.len(),
{
    reveal(Seq::filter);
    assert(times[i] <= times[times.len() - 1]);
    if i < times.len() - 1 {
        assert(times.drop_last()[i] == times[i]);
        assert forall|a: int, b: int| 0 <= a <= b < times.drop_last().len() implies
            times.drop_last()[a] <= times.drop_last()[b] by {
            assert(times[a] <= times[b]);
        }
        lemma_counting_is_a_suffix(times.drop_last(), cut, i);
    }
}

/// Messages that come in order are allowed in order.
proof fn lemma_allowed_in_order(limit: nat, window_secs: u64, came: Seq<i64>)
    requires
        forall|i: int, j: int| 0 <= i <= j < came.len() ==> came[i] <= came[j],
    ensures
        ({
            let allowed = allowed_times(limit, window_secs, came);
            &&& allowed.len() > 0 ==> came.len() > 0 && allowed.last() <= came.last()
            &&& forall|a: int, b: int| 0 <= a <= b < allowed.len() ==> allowed[a] <= allowed[b]
        }),
    decreases came.len(),
{
    if came.len() > 0 {
        let prior = came.drop_last();
        lemma_allowed_in_order(limit, window_secs, prior);
        if prior.len() > 0 {
            assert(prior.last() == came[came.len() - 2]);
        }
    }
}

/// The allowed times are among those at which messages came, and the limiter
/// keeps those of them that still count.
proof fn lemma_kept_times(limit: nat, window_secs: u64, came: Seq<i64>)
    requires
        window_secs > 0,
        in_order(window_secs, came),
    ensures
        ({
            let allowed = allowed_times(limit, window_secs, came);
            &&& allowed.len() > 0 ==> came.len() > 0 && allowed.last() <= came.last()
            &&& forall|a: int, b: int| 0 <= a <= b < allowed.len() ==> allowed[a] <= allowed[b]
            &&& came.len() == 0 ==> kept_times(limit, window_secs, came).len() == 0
            &&& came.len() > 0 ==> kept_times(limit, window_secs, came) == still_counting(
                allowed,
                cutoff(window_secs, came.last()),
            )
            &&& forall|i: int|
                0 <= i < allowed.len() - limit ==> #[trigger] allowed[i] + window_nanos(
                    window_secs,
                ) <= allowed[i + limit]
        }),
    decreases came.len(),
{
    reveal(Seq::filter);
    if came.len() > 0 {
        let prior = came.drop_last();
        let now = came.last();
        assert(in_order(window_secs, prior)) by {
            assert forall|i: int| 0 <= i < prior.len() implies #[trigger] prior[i] - window_nanos(
                window_secs,
            ) >= i64::MIN by {
                assert(came[i] - window_nanos(window_secs) >= i64::MIN);
            }
        }
        lemma_kept_times(limit, window_secs, prior);
        let before = allowed_times(limit, window_secs, prior);
        let kept = kept_times(limit, window_secs, prior);
        let cut = cutoff(window_secs, now);
        assert(came[came.len() - 1] - window_nanos(window_secs) >= i64::MIN);
        if prior.len() > 0 {
            assert(prior.last() == came[came.len() - 2]);
            assert(came[came.len() - 2] <= came[came.len() - 1]);
            assert(came[came.len() - 2] - window_nanos(window_secs) >= i64::MIN);
            lemma_count_later(before, cutoff(window_secs, prior.last()), cut);
        } else {
            assert(before =~= Seq::empty());
            assert(kept =~= Seq::empty());
        }
        assert(still_counting(kept, cut) == still_counting(before, cut));
        let allowed = allowed_times(limit, window_secs, came);
        if is_allowed(limit, window_secs, kept, now) {
            assert(allowed.drop_last() =~= before);
            assert(still_counting(allowed, cut) =~= still_counting(before, cut).push(now));
            let i = before.len() - limit;
            if limit > 0 && 0 <= i {
                if before[i] > cut {
                    lemma_counting_is_a_suffix(before, cut, i);
                }
                assert(before[i] + window_nanos(window_secs) <= now);
            }
            assert forall|k: int| 0 <= k < allowed.len() - limit implies #[trigger] allowed[k]
                + window_nanos(window_secs) <= allowed[k + limit] by {
                if k + limit < before.len() {
                    assert(before[k] + window_nanos(window_secs) <= before[k + limit]);
                }
            }
        }
    }
}

/// Of messages that come in order, no more than the limit are allowed within a
/// window: each message that is allowed comes at least a window after the one
/// that was allowed as many messages before as the limit says.
pub proof fn law_rate_is_limited(limit: nat, window_secs: u64, came: Seq<i64>, i: int)
    requires
        in_order(window_secs, came),
        0 <= i,
        i + limit < allowed_times(limit, window_secs, came).len(),
    ensures
        allowed_times(limit, window_secs, came)[i + limit] - allowed_times(
            limit,
            window_secs,
            came,
        )[i] >= window_nanos(window_secs),
{
    let allowed = allowed_times(limit, window_secs, came);
    if window_secs > 0 {
        lemma_kept_times(limit, window_secs, came);
        assert(allowed[i] + window_nanos(window_secs) <= allowed[i + limit]);
    } else {
        lemma_allowed_in_order(limit, window_secs, came);
    }
}

/// A message is allowed if fewer came before it than the limit, or all of them
/// a window ago.
pub proof fn law_limit_is_not_missed(limit: nat, window_secs: u64, times: Seq<i64>, now: i64)
    requires
        limit > 0,
        now - window_nanos(window_secs) >= i64::MIN,
        times.len() < limit || forall|i: int|
            0 <= i < times.len() ==> #[trigger] times[i] + window_nanos(window_secs) <= now,
    ensures
        is_allowed(limit, window_secs, times, now),
{
    let cut = cutoff(window_secs, now);
    if times.len() < limit {
        lemma_counting_len(times, cut);
    } else {
        assert forall|i: int| 0 <= i < times.len() implies #[trigger] times[i] <= cut by {
            assert(times[i] + window_nanos(window_secs) <= now);
        }
        lemma_counting_none(times, cut);
    }
}

/// No more times count than there are.
proof fn lemma_counting_len(times: Seq<i64>, cut: int)
    ensures
        still_counting(times, cut).len() <= times.len(),
    decreases times.len(),
{
    reveal(Seq::filter);
    if times.len() > 0 {
        lemma_counting_len(times.drop_last(), cut);
    }
}

/// Times before the cut do not count.
proof fn lemma_counting_none(times: Seq<i64>, cut: int)
    requires
        forall|i: int| 0 <= i < times.len() ==> #[trigger] times[i] <= cut,
    ensures
        still_counting(times, cut).len() == 0,
    decreases times.len(),
{
    reveal(Seq::filter);
    if times.len() > 0 {
        assert(times[times.len() - 1] <= cut);
        assert forall|i: int| 0 <= i < times.drop_last().len() implies #[trigger] times.drop_last()[i]
            <= cut by {
            assert(times[i] <= cut);
        }
        lemma_counting_none(times.drop_last(), cut);
    }
}

// ── Accounts ────────────────────────────────────────────────────────────

/// A name without an account lets nobody in, no account lets in a password that
/// is too long, and an account lets in the password that it was created with.
pub proof fn law_who_is_let_in(
    stored: Option<Seq<char>>,
    name: Seq<char>,
    passwd: Seq<char>,
    hash: Seq<char>,
)
    ensures
        !is_let_in(None, passwd),
        byte_len(passwd) > MAX_PASSWORD_LEN ==> !is_let_in(stored, passwd),
        account_verdict(name, passwd) is Ok && lets_in(Some(hash), passwd) ==> is_let_in(
            Some(hash),
            passwd,
        ),
{
}

// ── Rooms and history ───────────────────────────────────────────────────

/// The rooms on offer begin with those that are always there, hold every room
/// that has messages and no other, and name none twice.
pub proof fn law_rooms_on_offer(stored: Seq<Seq<char>>)
    ensures
        ({
            let rooms = add_missing(standing_rooms(), stored);
            &&& rooms.len() >= 3
            &&& rooms.take(3) == standing_rooms()
            &&& rooms.no_duplicates()
            &&& forall|r: Seq<char>| #[trigger]
                rooms.contains(r) <==> standing_rooms().contains(r) || stored.contains(r)
        }),
{
    reveal_strlit("general");
    reveal_strlit("random");
    reveal_strlit("france");
    assert("general"@[0] == 'g' && "random"@[0] == 'r' && "france"@[0] == 'f');
    lemma_add_missing(standing_rooms(), stored);
}

/// The messages of a room before a cursor, of those in the order of their ids.
pub open spec fn before_cursor(
    log: Seq<HistoryEntryView>,
    cursor: Option<u64>,
) -> Seq<HistoryEntryView> {
    log.filter(|e: HistoryEntryView| is_before(e.id as int, cursor))
}

/// What the database returns: the newest messages before a cursor, newest
/// first, up to a number of them.
pub open spec fn newest_rows(
    log: Seq<HistoryEntryView>,
    cursor: Option<u64>,
    count: nat,
) -> Seq<HistoryEntryView> {
    let found = before_cursor(log, cursor);
    if found.len() <= count {
        found.reverse()
    } else {
        found.skip(found.len() - count).reverse()
    }
}

/// Whether messages stand in the order of their ids.
pub open spec fn by_id(log: Seq<HistoryEntryView>) -> bool {
    forall|i: int, j: int| 0 <= i < j < log.len() ==> log[i].id < log[j].id
}

/// What stands before a cursor is the beginning of the log.
proof fn lemma_before_cursor(log: Seq<HistoryEntryView>, cursor: Option<u64>)
    requires
        by_id(log),
    ensures
        before_cursor(log, cursor).len() <= log.len(),
        before_cursor(log, cursor) == log.take(before_cursor(log, cursor).len() as int),
        forall|i: int|
            0 <= i < log.len() ==> (i < before_cursor(log, cursor).len() <==> is_before(
                (#[trigger] log[i]).id as int,
                cursor,
            )),
    decreases log.len(),
{
    reveal(Seq::filter);
    if log.len() > 0 {
        let short = log.drop_last();
        lemma_before_cursor(short, cursor);
        let found = before_cursor(short, cursor);
        let n = found.len() as int;
        if is_before(log.last().id as int, cursor) {
            if n < short.len() {
                assert(log[n].id < log[log.len() - 1].id);
                assert(short[n] == log[n]);
            }
            assert(n == short.len());
            assert(before_cursor(log, cursor) =~= log);
            assert(log.take(log.len() as int) =~= log);
        } else {
            assert(before_cursor(log, cursor) == found);
            assert(log.take(n) =~= short.take(n));
        }
        assert forall|i: int| 0 <= i < log.len() implies (i < before_cursor(log, cursor).len()
            <==> is_before((#[trigger] log[i]).id as int, cursor)) by {
            if i < short.len() {
                assert(short[i] == log[i]);
            }
        }
    } else {
        assert(before_cursor(log, cursor) =~= log.take(0));
    }
}

/// A page is the end of what was found, and says whether that is not all of it.
proof fn lemma_page_is_the_end(log: Seq<HistoryEntryView>, cursor: Option<u64>, limit: nat)
    ensures
        ({
            let found = before_cursor(log, cursor);
            let (page, has_more) = page_of(newest_rows(log, cursor, limit + 1), limit);
            &&& has_more <==> found.len() > limit
            &&& page == (if found.len() > limit {
                found.skip(found.len() - limit)
            } else {
                found
            })
        }),
{
    let found = before_cursor(log, cursor);
    let rows = newest_rows(log, cursor, limit + 1);
    let n = found.len() as int;
    if n > limit {
        let tail = found.skip(n - limit - 1);
        if n == limit + 1 {
            assert(tail =~= found);
        }
        assert(rows == tail.reverse());
        assert(rows.take(limit as int) =~= tail.skip(1).reverse());
        assert(tail.skip(1).reverse().reverse() =~= tail.skip(1));
        assert(tail.skip(1) =~= found.skip(n - limit));
    } else {
        assert(rows == found.reverse());
        assert(found.reverse().reverse() =~= found);
    }
}

/// A page holds the newest messages before its cursor in the order in which
/// they were sent. What is before the page is what the next page is taken
/// from, and it says whether there is any.
pub proof fn law_pages_join_up(log: Seq<HistoryEntryView>, cursor: Option<u64>, limit: nat)
    requires
        by_id(log),
    ensures
        ({
            let (page, has_more) = page_of(newest_rows(log, cursor, limit + 1), limit);
            let found = before_cursor(log, cursor);
            let older = found.take(found.len() - page.len());
            &&& page.len() == (if found.len() > limit {
                limit
            } else {
                found.len()
            })
            &&& older + page == found
            &&& has_more <==> older.len() > 0
            &&& page.len() > 0 ==> before_cursor(log, Some(page[0].id)) == older
            &&& by_id(page)
        }),
{
    let found = before_cursor(log, cursor);
    let page = page_of(newest_rows(log, cursor, limit + 1), limit).0;
    lemma_page_is_the_end(log, cursor, limit);
    lemma_before_cursor(log, cursor);
    let k = found.len() - page.len();
    let older = found.take(k);
    assert(older + page =~= found);
    assert forall|i: int| 0 <= i < page.len() implies #[trigger] page[i] == log[k + i] by {
        assert(page[i] == found[k + i]);
    }
    if page.len() > 0 {
        assert(page[0] == log[k]);
        lemma_cursor_at(log, k);
        assert(older =~= log.take(k));
    }
}

/// The messages that were stored for a room, of all that were stored in turn.
pub open spec fn in_room(
    stored: Seq<(Seq<char>, HistoryEntryView)>,
    room: Seq<char>,
) -> Seq<HistoryEntryView>
    decreases stored.len(),
{
    if stored.len() == 0 {
        Seq::empty()
    } else {
        let before = in_room(stored.drop_last(), room);
        let (r, entry) = stored.last();
        if r == room {
            before.push(entry)
        } else {
            before
        }
    }
}

/// The newest page of a room holds the messages that were stored for the room
/// last, as many as a page holds, oldest first, and no message of another room.
pub proof fn law_newest_page_is_the_end_of_the_room(
    stored: Seq<(Seq<char>, HistoryEntryView)>,
    room: Seq<char>,
    limit: nat,
)
    ensures
        ({
            let log = in_room(stored, room);
            let (page, has_more) = page_of(newest_rows(log, None, limit + 1), limit);
            &&& page == (if log.len() > limit {
                log.skip(log.len() - limit)
            } else {
                log
            })
            &&& has_more <==> log.len() > limit
            &&& forall|i: int|
                0 <= i < page.len() ==> stored.contains((room, #[trigger] page[i]))
        }),
{
    let log = in_room(stored, room);
    let page = page_of(newest_rows(log, None, limit + 1), limit).0;
    lemma_page_is_the_end(log, None, limit);
    lemma_all_before_no_cursor(log);
    lemma_in_room_was_stored(stored, room);
    let k = log.len() - page.len();
    assert forall|i: int| 0 <= i < page.len() implies stored.contains(
        (room, #[trigger] page[i]),
    ) by {
        assert(page[i] == log[k + i]);
    }
}

/// Without a cursor no message is left out.
proof fn lemma_all_before_no_cursor(log: Seq<HistoryEntryView>)
    ensures
        before_cursor(log, None) == log,
    decreases log.len(),
{
    reveal(Seq::filter);
    if log.len() > 0 {
        lemma_all_before_no_cursor(log.drop_last());
        assert(log.drop_last().push(log.last()) =~= log);
    } else {
        assert(before_cursor(log, None) =~= log);
    }
}

/// Every message of a room was stored for it.
proof fn lemma_in_room_was_stored(
    stored: Seq<(Seq<char>, HistoryEntryView)>,
    room: Seq<char>,
)
    ensures
        forall|i: int|
            0 <= i < in_room(stored, room).len() ==> stored.contains(
                (room, #[trigger] in_room(stored, room)[i]),
            ),
    decreases stored.len(),
{
    if stored.len() > 0 {
        let short = stored.drop_last();
        let before = in_room(short, room);
        let log = in_room(stored, room);
        lemma_in_room_was_stored(short, room);
        assert forall|i: int| 0 <= i < log.len() implies stored.contains(
            (room, #[trigger] log[i]),
        ) by {
            if i < before.len() {
                assert(short.contains((room, before[i])));
                let j = choose|j: int| 0 <= j < short.len() && short[j] == (room, before[i]);
                assert(stored[j] == (room, log[i]));
            } else {
                assert(stored[stored.len() - 1] == (room, log[i]));
            }
        }
    }
}

/// What stands before the cursor at a message is what stands before the message.
proof fn lemma_cursor_at(log: Seq<HistoryEntryView>, k: int)
    requires
        by_id(log),
        0 <= k < log.len(),
    ensures
        before_cursor(log, Some(log[k].id)) == log.take(k),
{
    let cursor = Some(log[k].id);
    lemma_before_cursor(log, cursor);
    let b = before_cursor(log, cursor).len() as int;
    if b > k {
        assert(is_before(log[k].id as int, cursor));
    }
    if b < k {
        assert(log[b].id < log[k].id);
        assert(is_before(log[b].id as int, cursor));
    }
}

} // verus!
