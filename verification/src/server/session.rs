//! How the server answers the messages of its peers.
//!
//! A message is handled in steps. A step changes the state of the server and
//! says what to send; where it needs the database it ends in a `Task`, whose
//! result begins the next step.

use vstd::prelude::*;
use vstd::string::*;

use super::account::{is_standing_room, standing_rooms};
use super::addr::{IpKey, PeerAddr};
use super::backoff::{
    account_backoff_remaining, backoff_left, clear_account_failures, is_clock_time,
    record_account_failure, with_ip_failure, with_peer_failure, without_peer_failures, IpBackoffMap,
};
use super::peers::{
    authenticated_login, authentication, clear_peer_authentication, client_error_with_code,
    departures, error_view, fresh_peer, join_peer_room, joining, leave_peer_room, logged_out,
    others_in, peer_is_in_room, set_authenticated_peer, user_at, with_login, with_room,
    without_room, Peer, PeerMap, PeerView, RESERVED_ANONYMOUS_LOGIN,
};
use super::rate::{is_allowed, logged, times_after, RateLimiter, RateLog};
use super::send::{
    announce_room_departures, broadcast_room_list, broadcast_system_message, broadcast_to_room,
    chat, each_once, id_after, next_id, notices, notify_rooms, outgoing, post, reply, send_history,
    send_room_list, send_server_message, to_users, Outgoing, OutgoingView,
};
use super::table::Table;
use crate::protocol::frame::{frame_text, text_payload, Frame};
use crate::protocol::message::{
    entries, texts, ClientMessage, ClientMessageView, HistoryEntry, HistoryEntryView, ServerMessage,
    ServerMessageView, HISTORY_PAGE_SIZE,
};
use crate::text::same_text;

verus! {

broadcast use vstd::string::group_string_axioms;

// ── State ───────────────────────────────────────────────────────────────

/// The time at which a step is taken.
#[derive(Debug, Clone, Copy)]
pub struct Clock {
    /// Nanoseconds on a clock that never runs backwards.
    pub now: i64,
    /// Seconds since the Unix epoch.
    pub unix: i64,
}

impl Clock {
    /// The waits that begin at this time can be written down.
    pub open spec fn wf(self) -> bool {
        is_clock_time(self.now)
    }
}

/// What the server knows of its peers.
pub struct Server {
    pub peers: PeerMap,
    pub ip_backoff: IpBackoffMap,
    pub rates: RateLog,
    pub next_system_id: u64,
}

/// The state of the server over plain values.
pub struct ServerView {
    pub peers: Map<PeerAddr, PeerView>,
    pub backoff: Map<IpKey, (u32, Option<i64>)>,
    pub rates: Map<PeerAddr, Seq<i64>>,
    pub next_system_id: u64,
}

impl View for Server {
    type V = ServerView;

    open spec fn view(&self) -> ServerView {
        ServerView {
            peers: self.peers@,
            backoff: self.ip_backoff.map(),
            rates: self.rates@,
            next_system_id: self.next_system_id,
        }
    }
}

/// Work for the database.
pub enum Task {
    InsertAccount { login: String, passwd: String },
    VerifyCredentials { login: String, passwd: String },
    /// List the rooms for the peer.
    GetRooms,
    /// List the rooms for every user.
    GetChangedRooms,
    InsertMessage { room: String, login: String, message: String },
    GetRoomHistory { room: String, cursor: Option<u64>, limit: usize },
}

/// Work for the database over plain values.
pub enum TaskView {
    InsertAccount { login: Seq<char>, passwd: Seq<char> },
    VerifyCredentials { login: Seq<char>, passwd: Seq<char> },
    GetRooms,
    GetChangedRooms,
    InsertMessage { room: Seq<char>, login: Seq<char>, message: Seq<char> },
    GetRoomHistory { room: Seq<char>, cursor: Option<u64>, limit: usize },
}

impl View for Task {
    type V = TaskView;

    open spec fn view(&self) -> TaskView {
        match self {
            Task::InsertAccount { login, passwd } => TaskView::InsertAccount {
                login: login@,
                passwd: passwd@,
            },
            Task::VerifyCredentials { login, passwd } => TaskView::VerifyCredentials {
                login: login@,
                passwd: passwd@,
            },
            Task::GetRooms => TaskView::GetRooms,
            Task::GetChangedRooms => TaskView::GetChangedRooms,
            Task::InsertMessage { room, login, message } => TaskView::InsertMessage {
                room: room@,
                login: login@,
                message: message@,
            },
            Task::GetRoomHistory { room, cursor, limit } => TaskView::GetRoomHistory {
                room: room@,
                cursor: *cursor,
                limit: *limit,
            },
        }
    }
}

/// What came of work for the database. `None` stands for a failure.
pub enum Done {
    AccountInserted { login: String, created: Option<bool> },
    CredentialsVerified { login: String, verified: Option<bool> },
    RoomsListed { rooms: Option<Vec<String>> },
    ChangedRoomsListed { rooms: Option<Vec<String>> },
    /// The id of the message, and whether it is the first of its room.
    MessageStored { room: String, login: String, message: String, stored: Option<(u64, bool)> },
    HistoryLoaded { room: String, page: Option<(Vec<HistoryEntry>, bool)> },
}

/// What came of work for the database, over plain values.
pub enum DoneView {
    AccountInserted { login: Seq<char>, created: Option<bool> },
    CredentialsVerified { login: Seq<char>, verified: Option<bool> },
    RoomsListed { rooms: Option<Seq<Seq<char>>> },
    ChangedRoomsListed { rooms: Option<Seq<Seq<char>>> },
    MessageStored {
        room: Seq<char>,
        login: Seq<char>,
        message: Seq<char>,
        stored: Option<(u64, bool)>,
    },
    HistoryLoaded { room: Seq<char>, page: Option<(Seq<HistoryEntryView>, bool)> },
}

impl View for Done {
    type V = DoneView;

    open spec fn view(&self) -> DoneView {
        match self {
            Done::AccountInserted { login, created } => DoneView::AccountInserted {
                login: login@,
                created: *created,
            },
            Done::CredentialsVerified { login, verified } => DoneView::CredentialsVerified {
                login: login@,
                verified: *verified,
            },
            Done::RoomsListed { rooms } => DoneView::RoomsListed {
                rooms: match rooms {
                    Some(rooms) => Some(texts(rooms@)),
                    None => None,
                },
            },
            Done::ChangedRoomsListed { rooms } => DoneView::ChangedRoomsListed {
                rooms: match rooms {
                    Some(rooms) => Some(texts(rooms@)),
                    None => None,
                },
            },
            Done::MessageStored { room, login, message, stored } => DoneView::MessageStored {
                room: room@,
                login: login@,
                message: message@,
                stored: *stored,
            },
            Done::HistoryLoaded { room, page } => DoneView::HistoryLoaded {
                room: room@,
                page: match page {
                    Some((messages, has_more)) => Some((entries(messages@), *has_more)),
                    None => None,
                },
            },
        }
    }
}

/// What a step asks for: texts to send, then possibly work for the database.
pub struct Step {
    pub outgoing: Vec<Outgoing>,
    pub task: Option<Task>,
}

/// A step over plain values, with the state of the server after it.
pub struct StepView {
    pub server: ServerView,
    pub outgoing: Seq<OutgoingView>,
    pub task: Option<TaskView>,
}

impl Step {
    /// Whether this is the given step, with the server in the given state after it.
    pub open spec fn is(&self, server: ServerView, v: StepView) -> bool {
        &&& server == v.server
        &&& outgoing(self.outgoing@) == v.outgoing
        &&& each_once(self.outgoing@)
        &&& v.task == (match self.task {
            Some(task) => Some(task@),
            None => None,
        })
    }
}

// ── Steps ───────────────────────────────────────────────────────────────

/// A step that changes nothing and answers the peer.
pub open spec fn answer(s: ServerView, addr: PeerAddr, m: ServerMessageView) -> StepView {
    StepView { server: s, outgoing: reply(s.peers, addr, m), task: None }
}

/// A step that changes nothing and goes on in the database.
pub open spec fn ask(s: ServerView, task: TaskView) -> StepView {
    StepView { server: s, outgoing: Seq::empty(), task: Some(task) }
}

/// The server after an account attempt that failed.
pub open spec fn failed(s: ServerView, addr: PeerAddr, now: i64) -> ServerView {
    ServerView {
        peers: with_peer_failure(s.peers, addr, now),
        backoff: with_ip_failure(s.backoff, addr.ip, now),
        ..s
    }
}

/// The server after an account attempt that succeeded.
pub open spec fn succeeded(s: ServerView, addr: PeerAddr) -> ServerView {
    ServerView {
        peers: without_peer_failures(s.peers, addr),
        backoff: s.backoff.remove(addr.ip),
        ..s
    }
}

/// The step in which rooms are told something of a peer.
pub open spec fn told(
    s: ServerView,
    addr: PeerAddr,
    rooms: Seq<Seq<char>>,
    text: Seq<char>,
    unix: i64,
) -> StepView {
    StepView {
        server: ServerView { next_system_id: id_after(s.next_system_id, rooms.len()), ..s },
        outgoing: notices(s.peers, s.next_system_id, addr, rooms, text, unix),
        task: None,
    }
}

/// The step in which the rooms are told that a user has left, if one has.
pub open spec fn departed(
    s: ServerView,
    addr: PeerAddr,
    left: Option<(Seq<char>, Seq<Seq<char>>)>,
    unix: i64,
) -> StepView {
    match left {
        Some((login, rooms)) => told(s, addr, rooms, login + " left the room"@, unix),
        None => StepView { server: s, outgoing: Seq::empty(), task: None },
    }
}

/// The step in which a peer loses its login and leaves its rooms.
pub open spec fn signed_out(s: ServerView, addr: PeerAddr, unix: i64) -> StepView {
    if s.peers.contains_key(addr) {
        departed(
            ServerView { peers: with_login(s.peers, addr, "anonymous"@), ..s },
            addr,
            departures(s.peers[addr]),
            unix,
        )
    } else {
        StepView { server: s, outgoing: Seq::empty(), task: None }
    }
}

/// A step followed by an answer to the peer.
pub open spec fn and_answer(step: StepView, addr: PeerAddr, m: ServerMessageView) -> StepView {
    StepView { outgoing: step.outgoing + reply(step.server.peers, addr, m), ..step }
}

/// A peer asks for a new account.
pub open spec fn create_account_step(
    s: ServerView,
    addr: PeerAddr,
    login: Seq<char>,
    passwd: Seq<char>,
    clock: Clock,
) -> StepView {
    match backoff_left(s.peers, s.backoff, addr, clock.now) {
        Err(e) => answer(s, addr, e),
        Ok(Some(_)) => answer(
            s,
            addr,
            ServerMessageView::AccountCreationFailed {
                reason: "Too many account attempts. Try again later."@,
            },
        ),
        Ok(None) => ask(s, TaskView::InsertAccount { login, passwd }),
    }
}

/// The database has created an account, or has found one of that name, or has failed.
pub open spec fn created_account_step(
    s: ServerView,
    addr: PeerAddr,
    login: Seq<char>,
    created: Option<bool>,
    clock: Clock,
) -> StepView {
    if created == Some(true) {
        answer(succeeded(s, addr), addr, ServerMessageView::AccountCreated { login })
    } else {
        answer(
            failed(s, addr, clock.now),
            addr,
            ServerMessageView::AccountCreationFailed { reason: "Account creation failed."@ },
        )
    }
}

/// A peer asks to log in. The sentinel never authenticates, whatever the
/// database holds.
pub open spec fn login_step(
    s: ServerView,
    addr: PeerAddr,
    login: Seq<char>,
    passwd: Seq<char>,
    clock: Clock,
) -> StepView {
    if login == "anonymous"@ {
        answer(
            failed(s, addr, clock.now),
            addr,
            ServerMessageView::LoginFailed { reason: "Invalid credentials."@ },
        )
    } else {
        match backoff_left(s.peers, s.backoff, addr, clock.now) {
            Err(e) => answer(s, addr, e),
            Ok(Some(_)) => and_answer(
                signed_out(s, addr, clock.unix),
                addr,
                ServerMessageView::LoginFailed {
                    reason: "Too many login attempts. Try again later."@,
                },
            ),
            Ok(None) => ask(s, TaskView::VerifyCredentials { login, passwd }),
        }
    }
}

/// The database has accepted or refused credentials, or has failed.
pub open spec fn verified_login_step(
    s: ServerView,
    addr: PeerAddr,
    login: Seq<char>,
    verified: Option<bool>,
    clock: Clock,
) -> StepView {
    if verified == Some(true) {
        match authentication(s.peers, addr, login) {
            Err(e) => answer(s, addr, e),
            Ok(left) => {
                let step = departed(
                    ServerView { peers: with_login(s.peers, addr, login), ..s },
                    addr,
                    left,
                    clock.unix,
                );
                StepView {
                    task: Some(TaskView::GetRooms),
                    ..and_answer(
                        StepView { server: succeeded(step.server, addr), ..step },
                        addr,
                        ServerMessageView::LoginOk { login },
                    )
                }
            },
        }
    } else {
        and_answer(
            signed_out(failed(s, addr, clock.now), addr, clock.unix),
            addr,
            if verified is Some {
                ServerMessageView::LoginFailed { reason: "Invalid credentials."@ }
            } else {
                error_view("Login failed."@, "AUTH_FAILED"@)
            },
        )
    }
}

/// A peer asks to join a room.
pub open spec fn join_room_step(
    s: ServerView,
    addr: PeerAddr,
    room: Seq<char>,
    clock: Clock,
) -> StepView {
    match user_at(s.peers, addr) {
        Err(e) => answer(s, addr, e),
        Ok(login) => match joining(s.peers, addr, room) {
            Err(e) => answer(s, addr, e),
            Ok(_) => told(
                ServerView { peers: with_room(s.peers, addr, room), ..s },
                addr,
                seq![room],
                login + " joined the room"@,
                clock.unix,
            ),
        },
    }
}

/// A peer asks to leave a room.
pub open spec fn leave_room_step(
    s: ServerView,
    addr: PeerAddr,
    room: Seq<char>,
    clock: Clock,
) -> StepView {
    match user_at(s.peers, addr) {
        Err(e) => answer(s, addr, e),
        Ok(login) => told(
            ServerView { peers: without_room(s.peers, addr, room), ..s },
            addr,
            seq![room],
            login + " left the room"@,
            clock.unix,
        ),
    }
}

/// A peer sends a message to a room.
pub open spec fn send_message_step(
    s: ServerView,
    addr: PeerAddr,
    room: Seq<char>,
    message: Seq<char>,
) -> StepView {
    match user_at(s.peers, addr) {
        Err(e) => answer(s, addr, e),
        Ok(login) => if s.peers[addr].rooms.contains(room) {
            ask(s, TaskView::InsertMessage { room, login, message })
        } else {
            answer(
                s,
                addr,
                error_view("Join the room before sending messages."@, "ROOM_REQUIRED"@),
            )
        },
    }
}

/// The database has stored a message under an id, as the first of its room or
/// not, or has failed. A room is on offer from its first message on, so that
/// message changes the list of rooms, unless the room is always there.
pub open spec fn stored_message_step(
    s: ServerView,
    addr: PeerAddr,
    login: Seq<char>,
    room: Seq<char>,
    message: Seq<char>,
    stored: Option<(u64, bool)>,
    clock: Clock,
) -> StepView {
    match stored {
        Some((id, is_first)) => StepView {
            server: s,
            outgoing: post(
                others_in(s.peers, addr, room),
                chat(id, login, room, message, clock.unix),
            ),
            task: if is_first && !standing_rooms().contains(room) {
                Some(TaskView::GetChangedRooms)
            } else {
                None
            },
        },
        None => StepView { server: s, outgoing: Seq::empty(), task: None },
    }
}

/// A peer asks for a page of a room's history.
pub open spec fn get_history_step(
    s: ServerView,
    addr: PeerAddr,
    room: Seq<char>,
    cursor: Option<u64>,
) -> StepView {
    match user_at(s.peers, addr) {
        Err(e) => answer(s, addr, e),
        Ok(_) => if s.peers[addr].rooms.contains(room) {
            ask(s, TaskView::GetRoomHistory { room, cursor, limit: HISTORY_PAGE_SIZE })
        } else {
            answer(
                s,
                addr,
                error_view("Join the room before requesting history."@, "ROOM_REQUIRED"@),
            )
        },
    }
}

/// A peer logs out.
pub open spec fn logout_step(s: ServerView, addr: PeerAddr, clock: Clock) -> StepView {
    if s.peers.contains_key(addr) {
        let peer = s.peers[addr];
        and_answer(
            departed(
                ServerView { peers: s.peers.insert(addr, logged_out(peer)), ..s },
                addr,
                Some((peer.login, peer.rooms)),
                clock.unix,
            ),
            addr,
            ServerMessageView::LogoutOk,
        )
    } else {
        answer(s, addr, ServerMessageView::LogoutOk)
    }
}

/// The first step in which a message of a peer is handled.
pub open spec fn message_step(
    s: ServerView,
    addr: PeerAddr,
    m: ClientMessageView,
    clock: Clock,
) -> StepView {
    match m {
        ClientMessageView::CreateAccount { login, passwd } => create_account_step(
            s,
            addr,
            login,
            passwd,
            clock,
        ),
        ClientMessageView::Login { login, passwd } => login_step(s, addr, login, passwd, clock),
        ClientMessageView::JoinRoom { room } => join_room_step(s, addr, room, clock),
        ClientMessageView::LeaveRoom { room } => leave_room_step(s, addr, room, clock),
        ClientMessageView::SendMessage { room, message } => send_message_step(
            s,
            addr,
            room,
            message,
        ),
        ClientMessageView::GetHistory { room, cursor } => get_history_step(s, addr, room, cursor),
        ClientMessageView::Logout => logout_step(s, addr, clock),
    }
}

/// The step that follows work for the database.
pub open spec fn done_step(s: ServerView, addr: PeerAddr, done: DoneView, clock: Clock) -> StepView {
    match done {
        DoneView::AccountInserted { login, created } => created_account_step(
            s,
            addr,
            login,
            created,
            clock,
        ),
        DoneView::CredentialsVerified { login, verified } => verified_login_step(
            s,
            addr,
            login,
            verified,
            clock,
        ),
        DoneView::MessageStored { room, login, message, stored } => stored_message_step(
            s,
            addr,
            login,
            room,
            message,
            stored,
            clock,
        ),
        DoneView::ChangedRoomsListed { rooms: Some(rooms) } => StepView {
            server: s,
            outgoing: to_users(s.peers, ServerMessageView::RoomList { rooms }),
            task: None,
        },
        DoneView::RoomsListed { rooms: Some(rooms) } => answer(
            s,
            addr,
            ServerMessageView::RoomList { rooms },
        ),
        DoneView::HistoryLoaded { room, page: Some((messages, has_more)) } => answer(
            s,
            addr,
            ServerMessageView::RoomHistory { room, messages, has_more },
        ),
        _ => StepView { server: s, outgoing: Seq::empty(), task: None },
    }
}

/// A peer connects.
pub open spec fn connected(s: ServerView, addr: PeerAddr) -> ServerView {
    ServerView {
        peers: s.peers.insert(addr, fresh_peer("anonymous"@, Seq::empty())),
        ..s
    }
}

/// A peer is gone, and the rooms that it was in are told.
pub open spec fn disconnect_step(s: ServerView, addr: PeerAddr, clock: Clock) -> StepView {
    if s.peers.contains_key(addr) {
        let peer = s.peers[addr];
        told(
            ServerView { peers: s.peers.remove(addr), ..s },
            addr,
            peer.rooms,
            peer.login + " disconnected"@,
            clock.unix,
        )
    } else {
        StepView { server: s, outgoing: Seq::empty(), task: None }
    }
}

/// What comes of a frame: a text to be read as a message, or texts to send.
pub struct Received {
    pub text: Option<String>,
    pub outgoing: Vec<Outgoing>,
}

/// What comes of a frame over plain values, with the state of the server after it.
pub struct ReceivedView {
    pub server: ServerView,
    pub text: Option<Seq<char>>,
    pub outgoing: Seq<OutgoingView>,
}

impl Received {
    /// Whether this comes of a frame, with the server in the given state after it.
    pub open spec fn is(&self, server: ServerView, v: ReceivedView) -> bool {
        &&& server == v.server
        &&& outgoing(self.outgoing@) == v.outgoing
        &&& each_once(self.outgoing@)
        &&& v.text == (match self.text {
            Some(text) => Some(text@),
            None => None,
        })
    }
}

/// A frame comes from a peer. Only text counts against the rate limit and is
/// read; a text over the limit is refused, and one that is too long is dropped.
pub open spec fn frame_step(
    s: ServerView,
    limiter: RateLimiter,
    addr: PeerAddr,
    frame: Frame,
    now: i64,
) -> ReceivedView {
    if frame is Text {
        let times = logged(s.rates, addr);
        let limit = limiter.limit as nat;
        let counted = ServerView {
            rates: s.rates.insert(addr, times_after(limit, limiter.window_secs, times, now)),
            ..s
        };
        if is_allowed(limit, limiter.window_secs, times, now) {
            ReceivedView {
                server: counted,
                text: match frame_text(frame) {
                    Ok(text) => Some(text),
                    Err(_) => None,
                },
                outgoing: Seq::empty(),
            }
        } else {
            ReceivedView {
                server: counted,
                text: None,
                outgoing: reply(
                    s.peers,
                    addr,
                    error_view("Rate limit exceeded. Try again shortly."@, "RATE_LIMITED"@),
                ),
            }
        }
    } else {
        ReceivedView { server: s, text: None, outgoing: Seq::empty() }
    }
}

// ── Execution ───────────────────────────────────────────────────────────

/// Answer a peer after other texts.
fn push_reply(out: &mut Vec<Outgoing>, peers: &PeerMap, addr: PeerAddr, message: ServerMessage)
    requires
        peers.wf(),
        each_once(old(out)@),
    ensures
        outgoing(final(out)@) == outgoing(old(out)@) + reply(peers@, addr, message@),
        each_once(final(out)@),
{
    let ghost before = out@;
    match send_server_message(peers, addr, &message) {
        Ok(mut more) => {
            let ghost added = more@;
            out.append(&mut more);
            proof {
                assert(out@ =~= before + added);
                assert(outgoing(out@) =~= outgoing(before) + outgoing(added));
            }
        },
        Err(_) => {
            proof {
                assert(outgoing(before) =~= outgoing(before) + Seq::empty());
            }
        },
    }
}

/// The texts that answer a peer.
fn replies(peers: &PeerMap, addr: PeerAddr, message: ServerMessage) -> (out: Vec<Outgoing>)
    requires
        peers.wf(),
    ensures
        outgoing(out@) == reply(peers@, addr, message@),
        each_once(out@),
{
    let mut out: Vec<Outgoing> = Vec::new();
    push_reply(&mut out, peers, addr, message);
    proof {
        assert(outgoing(Seq::<Outgoing>::empty()) =~= Seq::empty());
        assert(outgoing(out@) =~= reply(peers@, addr, message@));
    }
    out
}

/// No texts.
fn nothing() -> (out: Vec<Outgoing>)
    ensures
        outgoing(out@) == Seq::<OutgoingView>::empty(),
        each_once(out@),
{
    let out: Vec<Outgoing> = Vec::new();
    proof {
        assert(outgoing(out@) =~= Seq::empty());
    }
    out
}

impl Server {
    /// The maps are well formed.
    pub open spec fn wf(&self) -> bool {
        &&& self.peers.wf()
        &&& self.ip_backoff.wf()
        &&& self.rates.wf()
    }

    /// A server without peers.
    pub fn new() -> (s: Self)
        ensures
            s.wf(),
            s@ == (ServerView {
                peers: Map::empty(),
                backoff: Map::empty(),
                rates: Map::empty(),
                next_system_id: 0,
            }),
    {
        Server {
            peers: PeerMap::new(),
            ip_backoff: Table::new(),
            rates: RateLog::new(),
            next_system_id: 0,
        }
    }

    /// A peer connects. Nobody is told.
    pub fn connect(&mut self, addr: PeerAddr)
        requires
            old(self).wf(),
        ensures
            final(self).wf(),
            final(self)@ == connected(old(self)@, addr),
    {
        let peer = Peer::new(RESERVED_ANONYMOUS_LOGIN.to_owned(), Vec::new());
        proof {
            assert(texts(Seq::<String>::empty()) =~= Seq::empty());
        }
        self.peers.insert(addr, peer);
    }

    /// A peer is gone.
    pub fn disconnect(&mut self, addr: PeerAddr, clock: Clock) -> (step: Step)
        requires
            old(self).wf(),
        ensures
            final(self).wf(),
            step.is(final(self)@, disconnect_step(old(self)@, addr, clock)),
    {
        match self.peers.remove(addr) {
            Some(peer) => {
                let text = peer.login.concat(" disconnected");
                let out = notify_rooms(
                    &self.peers,
                    &mut self.next_system_id,
                    addr,
                    &peer.rooms,
                    text.as_str(),
                    clock.unix,
                );
                Step { outgoing: out, task: None }
            },
            None => {
                proof {
                    assert(self.peers@ =~= old(self).peers@);
                }
                Step { outgoing: nothing(), task: None }
            },
        }
    }

    /// Take an account failure down.
    fn record_failure(&mut self, addr: PeerAddr, clock: Clock)
        requires
            old(self).wf(),
            clock.wf(),
        ensures
            final(self).wf(),
            final(self)@ == failed(old(self)@, addr, clock.now),
    {
        record_account_failure(&mut self.peers, &mut self.ip_backoff, addr, clock.now);
    }

    /// Tell the rooms that a user has left, if one has.
    fn announce(
        &mut self,
        addr: PeerAddr,
        left: Option<(String, Vec<String>)>,
        clock: Clock,
    ) -> (out: Vec<Outgoing>)
        requires
            old(self).wf(),
        ensures
            final(self).wf(),
            ({
                let v = departed(
                    old(self)@,
                    addr,
                    super::peers::departures_view(left),
                    clock.unix,
                );
                &&& final(self)@ == v.server
                &&& outgoing(out@) == v.outgoing
                &&& each_once(out@)
            }),
    {
        match left {
            Some((login, rooms)) => announce_room_departures(
                &self.peers,
                &mut self.next_system_id,
                addr,
                login.as_str(),
                &rooms,
                clock.unix,
            ),
            None => nothing(),
        }
    }

    /// Take a peer's login away and tell the rooms that it leaves.
    fn sign_out(&mut self, addr: PeerAddr, clock: Clock) -> (out: Vec<Outgoing>)
        requires
            old(self).wf(),
        ensures
            final(self).wf(),
            ({
                let v = signed_out(old(self)@, addr, clock.unix);
                &&& final(self)@ == v.server
                &&& outgoing(out@) == v.outgoing
                &&& each_once(out@)
            }),
    {
        match clear_peer_authentication(&mut self.peers, addr) {
            Ok(left) => self.announce(addr, left, clock),
            Err(_) => nothing(),
        }
    }

    /// A peer asks for a new account.
    pub fn create_account(
        &mut self,
        addr: PeerAddr,
        login: String,
        passwd: String,
        clock: Clock,
    ) -> (step: Step)
        requires
            old(self).wf(),
        ensures
            final(self).wf(),
            step.is(
                final(self)@,
                create_account_step(old(self)@, addr, login@, passwd@, clock),
            ),
    {
        match account_backoff_remaining(&self.peers, &self.ip_backoff, addr, clock.now) {
            Ok(Some(_)) => {
                let message = ServerMessage::AccountCreationFailed {
                    reason: "Too many account attempts. Try again later.".to_owned(),
                };
                Step { outgoing: replies(&self.peers, addr, message), task: None }
            },
            Ok(None) => Step {
                outgoing: nothing(),
                task: Some(Task::InsertAccount { login, passwd }),
            },
            Err(e) => Step { outgoing: replies(&self.peers, addr, e), task: None },
        }
    }

    /// The database has created an account (`Some(true)`), or has found one of
    /// that name (`Some(false)`), or has failed (`None`).
    pub fn finish_create_account(
        &mut self,
        addr: PeerAddr,
        login: String,
        created: Option<bool>,
        clock: Clock,
    ) -> (step: Step)
        requires
            old(self).wf(),
            clock.wf(),
        ensures
            final(self).wf(),
            step.is(
                final(self)@,
                created_account_step(old(self)@, addr, login@, created, clock),
            ),
    {
        match created {
            Some(true) => {
                clear_account_failures(&mut self.peers, &mut self.ip_backoff, addr);
                let message = ServerMessage::AccountCreated { login };
                Step { outgoing: replies(&self.peers, addr, message), task: None }
            },
            _ => {
                self.record_failure(addr, clock);
                let message = ServerMessage::AccountCreationFailed {
                    reason: "Account creation failed.".to_owned(),
                };
                Step { outgoing: replies(&self.peers, addr, message), task: None }
            },
        }
    }

    /// A peer asks to log in.
    pub fn login(&mut self, addr: PeerAddr, login: String, passwd: String, clock: Clock) -> (step:
        Step)
        requires
            old(self).wf(),
            clock.wf(),
        ensures
            final(self).wf(),
            step.is(final(self)@, login_step(old(self)@, addr, login@, passwd@, clock)),
    {
        if same_text(login.as_str(), RESERVED_ANONYMOUS_LOGIN) {
            self.record_failure(addr, clock);
            let message = ServerMessage::LoginFailed { reason: "Invalid credentials.".to_owned() };
            return Step { outgoing: replies(&self.peers, addr, message), task: None };
        }
        match account_backoff_remaining(&self.peers, &self.ip_backoff, addr, clock.now) {
            Ok(Some(_)) => {
                let mut out = self.sign_out(addr, clock);
                let message = ServerMessage::LoginFailed {
                    reason: "Too many login attempts. Try again later.".to_owned(),
                };
                push_reply(&mut out, &self.peers, addr, message);
                Step { outgoing: out, task: None }
            },
            Ok(None) => Step {
                outgoing: nothing(),
                task: Some(Task::VerifyCredentials { login, passwd }),
            },
            Err(e) => Step { outgoing: replies(&self.peers, addr, e), task: None },
        }
    }

    /// The database has accepted (`Some(true)`) or refused (`Some(false)`)
    /// credentials, or has failed (`None`).
    pub fn finish_login(
        &mut self,
        addr: PeerAddr,
        login: String,
        verified: Option<bool>,
        clock: Clock,
    ) -> (step: Step)
        requires
            old(self).wf(),
            clock.wf(),
        ensures
            final(self).wf(),
            step.is(
                final(self)@,
                verified_login_step(old(self)@, addr, login@, verified, clock),
            ),
    {
        match verified {
            Some(true) => {
                match set_authenticated_peer(&mut self.peers, addr, login.clone()) {
                    Ok(left) => {
                        let mut out = self.announce(addr, left, clock);
                        clear_account_failures(&mut self.peers, &mut self.ip_backoff, addr);
                        let message = ServerMessage::LoginOk { login };
                        push_reply(&mut out, &self.peers, addr, message);
                        Step { outgoing: out, task: Some(Task::GetRooms) }
                    },
                    Err(e) => Step { outgoing: replies(&self.peers, addr, e), task: None },
                }
            },
            Some(false) => {
                self.record_failure(addr, clock);
                let mut out = self.sign_out(addr, clock);
                let message = ServerMessage::LoginFailed {
                    reason: "Invalid credentials.".to_owned(),
                };
                push_reply(&mut out, &self.peers, addr, message);
                Step { outgoing: out, task: None }
            },
            None => {
                self.record_failure(addr, clock);
                let mut out = self.sign_out(addr, clock);
                let message = client_error_with_code("Login failed.", "AUTH_FAILED");
                push_reply(&mut out, &self.peers, addr, message);
                Step { outgoing: out, task: None }
            },
        }
    }

    /// The database has listed the rooms.
    pub fn finish_get_rooms(&self, addr: PeerAddr, rooms: Vec<String>) -> (out: Vec<Outgoing>)
        requires
            self.wf(),
        ensures
            outgoing(out@) == reply(
                self@.peers,
                addr,
                ServerMessageView::RoomList { rooms: texts(rooms@) },
            ),
            each_once(out@),
    {
        match send_room_list(&self.peers, addr, rooms) {
            Ok(out) => out,
            Err(_) => nothing(),
        }
    }

    /// Tell one room something of a peer.
    fn tell(&mut self, addr: PeerAddr, room: &str, text: &str, clock: Clock) -> (step: Step)
        requires
            old(self).wf(),
        ensures
            final(self).wf(),
            step.is(final(self)@, told(old(self)@, addr, seq![room@], text@, clock.unix)),
    {
        let mut out = nothing();
        let ghost id = self.next_system_id;
        proof {
            assert(seq![room@].drop_last() =~= Seq::empty());
            assert(id_after(id, 0) == id);
            assert(id_after(id, 1) == next_id(id)) by {
                reveal_with_fuel(id_after, 2);
            }
            assert(notices(self.peers@, id, addr, Seq::empty(), text@, clock.unix) =~= Seq::empty());
        }
        let ghost one = notices(self.peers@, id, addr, seq![room@], text@, clock.unix);
        match broadcast_system_message(
            &self.peers,
            &mut self.next_system_id,
            addr,
            room,
            text,
            clock.unix,
        ) {
            Ok(sent) => {
                out.push(sent);
                proof {
                    assert(outgoing(out@) =~= seq![sent@]);
                    assert(one =~= seq![sent@]);
                }
            },
            Err(_) => {
                proof {
                    assert(one =~= Seq::empty());
                }
            },
        }
        Step { outgoing: out, task: None }
    }

    /// A peer asks to join a room.
    pub fn join_room(&mut self, addr: PeerAddr, room: String, clock: Clock) -> (step: Step)
        requires
            old(self).wf(),
        ensures
            final(self).wf(),
            step.is(final(self)@, join_room_step(old(self)@, addr, room@, clock)),
    {
        match authenticated_login(&self.peers, addr) {
            Ok(login) => match join_peer_room(&mut self.peers, addr, room.clone()) {
                Ok(_) => {
                    let text = login.concat(" joined the room");
                    self.tell(addr, room.as_str(), text.as_str(), clock)
                },
                Err(e) => Step { outgoing: replies(&self.peers, addr, e), task: None },
            },
            Err(e) => Step { outgoing: replies(&self.peers, addr, e), task: None },
        }
    }

    /// A peer asks to leave a room.
    pub fn leave_room(&mut self, addr: PeerAddr, room: String, clock: Clock) -> (step: Step)
        requires
            old(self).wf(),
        ensures
            final(self).wf(),
            step.is(final(self)@, leave_room_step(old(self)@, addr, room@, clock)),
    {
        match authenticated_login(&self.peers, addr) {
            Ok(login) => match leave_peer_room(&mut self.peers, addr, room.as_str()) {
                Ok(_) => {
                    let text = login.concat(" left the room");
                    self.tell(addr, room.as_str(), text.as_str(), clock)
                },
                Err(e) => Step { outgoing: replies(&self.peers, addr, e), task: None },
            },
            Err(e) => Step { outgoing: replies(&self.peers, addr, e), task: None },
        }
    }

    /// A peer sends a message to a room.
    pub fn send_message(&self, addr: PeerAddr, room: String, message: String) -> (step: Step)
        requires
            self.wf(),
        ensures
            step.is(self@, send_message_step(self@, addr, room@, message@)),
    {
        let login = match authenticated_login(&self.peers, addr) {
            Ok(login) => login,
            Err(e) => {
                return Step { outgoing: replies(&self.peers, addr, e), task: None };
            },
        };
        match peer_is_in_room(&self.peers, addr, room.as_str()) {
            Ok(true) => Step {
                outgoing: nothing(),
                task: Some(Task::InsertMessage { room, login, message }),
            },
            Ok(false) => {
                let e = client_error_with_code(
                    "Join the room before sending messages.",
                    "ROOM_REQUIRED",
                );
                Step { outgoing: replies(&self.peers, addr, e), task: None }
            },
            Err(e) => Step { outgoing: replies(&self.peers, addr, e), task: None },
        }
    }

    /// The database has stored a message under an id, as the first of its room
    /// or not, or has failed.
    pub fn finish_send_message(
        &self,
        addr: PeerAddr,
        login: &str,
        room: &str,
        message: &str,
        stored: Option<(u64, bool)>,
        clock: Clock,
    ) -> (step: Step)
        requires
            self.wf(),
        ensures
            step.is(
                self@,
                stored_message_step(self@, addr, login@, room@, message@, stored, clock),
            ),
    {
        let mut out = nothing();
        match stored {
            Some((id, is_first)) => {
                match broadcast_to_room(
                    &self.peers,
                    addr,
                    login,
                    room,
                    message,
                    id,
                    clock.unix,
                ) {
                    Ok(sent) => {
                        out.push(sent);
                        proof {
                            assert(outgoing(out@) =~= seq![sent@]);
                        }
                    },
                    Err(_) => {},
                }
                let task = if is_first && !is_standing_room(room) {
                    Some(Task::GetChangedRooms)
                } else {
                    None
                };
                Step { outgoing: out, task }
            },
            None => Step { outgoing: out, task: None },
        }
    }

    /// The database has listed the rooms after they have changed.
    pub fn finish_get_changed_rooms(&self, rooms: Vec<String>) -> (out: Vec<Outgoing>)
        requires
            self.wf(),
        ensures
            outgoing(out@) == to_users(
                self@.peers,
                ServerMessageView::RoomList { rooms: texts(rooms@) },
            ),
            each_once(out@),
    {
        let mut out = nothing();
        match broadcast_room_list(&self.peers, rooms) {
            Ok(sent) => {
                out.push(sent);
                proof {
                    assert(outgoing(out@) =~= seq![sent@]);
                }
            },
            Err(_) => {},
        }
        out
    }

    /// A peer asks for a page of a room's history.
    pub fn get_history(&self, addr: PeerAddr, room: String, cursor: Option<u64>) -> (step: Step)
        requires
            self.wf(),
        ensures
            step.is(self@, get_history_step(self@, addr, room@, cursor)),
    {
        match authenticated_login(&self.peers, addr) {
            Ok(_) => {},
            Err(e) => {
                return Step { outgoing: replies(&self.peers, addr, e), task: None };
            },
        }
        match peer_is_in_room(&self.peers, addr, room.as_str()) {
            Ok(true) => Step {
                outgoing: nothing(),
                task: Some(Task::GetRoomHistory { room, cursor, limit: HISTORY_PAGE_SIZE }),
            },
            Ok(false) => {
                let e = client_error_with_code(
                    "Join the room before requesting history.",
                    "ROOM_REQUIRED",
                );
                Step { outgoing: replies(&self.peers, addr, e), task: None }
            },
            Err(e) => Step { outgoing: replies(&self.peers, addr, e), task: None },
        }
    }

    /// The database has loaded a page of a room's history.
    pub fn finish_get_history(
        &self,
        addr: PeerAddr,
        room: String,
        messages: Vec<HistoryEntry>,
        has_more: bool,
    ) -> (out: Vec<Outgoing>)
        requires
            self.wf(),
        ensures
            outgoing(out@) == reply(
                self@.peers,
                addr,
                ServerMessageView::RoomHistory {
                    room: room@,
                    messages: entries(messages@),
                    has_more,
                },
            ),
            each_once(out@),
    {
        match send_history(&self.peers, addr, room, messages, has_more) {
            Ok(out) => out,
            Err(_) => nothing(),
        }
    }

    /// A peer logs out.
    pub fn logout(&mut self, addr: PeerAddr, clock: Clock) -> (step: Step)
        requires
            old(self).wf(),
        ensures
            final(self).wf(),
            step.is(final(self)@, logout_step(old(self)@, addr, clock)),
    {
        let mut out = nothing();
        match self.peers.remove(addr) {
            Some(mut peer) => {
                let login = peer.login.clone();
                let rooms = peer.rooms.clone();
                proof {
                    assert(texts(rooms@) =~= texts(peer.rooms@));
                }
                peer.logout();
                self.peers.insert(addr, peer);
                proof {
                    assert(self.peers@ =~= old(self).peers@.insert(
                        addr,
                        logged_out(old(self).peers@[addr]),
                    ));
                }
                out = self.announce(addr, Some((login, rooms)), clock);
            },
            None => {
                proof {
                    assert(self.peers@ =~= old(self).peers@);
                }
            },
        }
        push_reply(&mut out, &self.peers, addr, ServerMessage::LogoutOk);
        proof {
            if !old(self).peers@.contains_key(addr) {
                assert(outgoing(out@) =~= reply(self.peers@, addr, ServerMessageView::LogoutOk));
            }
        }
        Step { outgoing: out, task: None }
    }

    /// A frame comes from a peer.
    pub fn receive(
        &mut self,
        limiter: &RateLimiter,
        addr: PeerAddr,
        frame: Frame,
        now: i64,
    ) -> (r: Received)
        requires
            old(self).wf(),
        ensures
            final(self).wf(),
            r.is(final(self)@, frame_step(old(self)@, *limiter, addr, frame, now)),
    {
        match frame {
            Frame::Text(text) => {
                if !limiter.check(&mut self.rates, addr, now) {
                    let e = client_error_with_code(
                        "Rate limit exceeded. Try again shortly.",
                        "RATE_LIMITED",
                    );
                    return Received { text: None, outgoing: replies(&self.peers, addr, e) };
                }
                match text_payload(Frame::Text(text)) {
                    Ok(text) => Received { text: Some(text), outgoing: nothing() },
                    Err(_) => Received { text: None, outgoing: nothing() },
                }
            },
            _ => Received { text: None, outgoing: nothing() },
        }
    }

    /// Process an incoming protocol message.
    pub fn process_data(&mut self, message: ClientMessage, addr: PeerAddr, clock: Clock) -> (step:
        Step)
        requires
            old(self).wf(),
            clock.wf(),
        ensures
            final(self).wf(),
            step.is(final(self)@, message_step(old(self)@, addr, message@, clock)),
    {
        match message {
            ClientMessage::CreateAccount { login, passwd } => self.create_account(
                addr,
                login,
                passwd,
                clock,
            ),
            ClientMessage::Login { login, passwd } => self.login(addr, login, passwd, clock),
            ClientMessage::JoinRoom { room } => self.join_room(addr, room, clock),
            ClientMessage::LeaveRoom { room } => self.leave_room(addr, room, clock),
            ClientMessage::SendMessage { room, message } => self.send_message(addr, room, message),
            ClientMessage::GetHistory { room, cursor } => self.get_history(addr, room, cursor),
            ClientMessage::Logout => self.logout(addr, clock),
        }
    }

    /// Go on with the result of work for the database.
    pub fn resume(&mut self, addr: PeerAddr, done: Done, clock: Clock) -> (step: Step)
        requires
            old(self).wf(),
            clock.wf(),
        ensures
            final(self).wf(),
            step.is(final(self)@, done_step(old(self)@, addr, done@, clock)),
    {
        match done {
            Done::AccountInserted { login, created } => self.finish_create_account(
                addr,
                login,
                created,
                clock,
            ),
            Done::CredentialsVerified { login, verified } => self.finish_login(
                addr,
                login,
                verified,
                clock,
            ),
            Done::RoomsListed { rooms } => match rooms {
                Some(rooms) => Step { outgoing: self.finish_get_rooms(addr, rooms), task: None },
                None => Step { outgoing: nothing(), task: None },
            },
            Done::ChangedRoomsListed { rooms } => match rooms {
                Some(rooms) => Step {
                    outgoing: self.finish_get_changed_rooms(rooms),
                    task: None,
                },
                None => Step { outgoing: nothing(), task: None },
            },
            Done::MessageStored { room, login, message, stored } => self.finish_send_message(
                addr,
                login.as_str(),
                room.as_str(),
                message.as_str(),
                stored,
                clock,
            ),
            Done::HistoryLoaded { room, page } => match page {
                Some((messages, has_more)) => Step {
                    outgoing: self.finish_get_history(addr, room, messages, has_more),
                    task: None,
                },
                None => Step { outgoing: nothing(), task: None },
            },
        }
    }
}

} // verus!
