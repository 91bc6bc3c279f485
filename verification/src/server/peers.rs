//! The connected peers: who they are and which rooms they are in.

use vstd::prelude::*;
use vstd::string::*;

use super::addr::PeerAddr;
use super::table::Table;
use crate::list::{add_missing, index_in_list, lemma_add_missing, list_contains, push_missing};
use crate::protocol::message::{texts, ServerMessage, ServerMessageView};
use crate::text::same_text;

verus! {

broadcast use vstd::string::group_string_axioms;

/// Login used by the server as the "not authenticated yet" sentinel on peers.
/// It must never become a real account name.
pub const RESERVED_ANONYMOUS_LOGIN: &'static str = "anonymous";

/// A connected peer: login name, room membership, and auth backoff.
pub struct Peer {
    pub login: String,
    pub rooms: Vec<String>,
    pub login_failures: u32,
    /// The earliest time, in nanoseconds, of the next account attempt.
    pub next_account_attempt: Option<i64>,
    pub is_authenticated: bool,
}

/// A peer over plain sequences. The rooms stand in the order in which they
/// were joined.
pub struct PeerView {
    pub login: Seq<char>,
    pub rooms: Seq<Seq<char>>,
    pub login_failures: u32,
    pub next_account_attempt: Option<i64>,
    pub is_authenticated: bool,
}

impl View for Peer {
    type V = PeerView;

    open spec fn view(&self) -> PeerView {
        PeerView {
            login: self.login@,
            rooms: texts(self.rooms@),
            login_failures: self.login_failures,
            next_account_attempt: self.next_account_attempt,
            is_authenticated: self.is_authenticated,
        }
    }
}

/// A peer that has just connected, with a login and the rooms it is in.
pub open spec fn fresh_peer(login: Seq<char>, rooms: Seq<Seq<char>>) -> PeerView {
    PeerView {
        login,
        rooms: add_missing(Seq::empty(), rooms),
        login_failures: 0,
        next_account_attempt: None,
        is_authenticated: true,
    }
}

/// A peer after it has logged out.
pub open spec fn logged_out(p: PeerView) -> PeerView {
    PeerView { login: Seq::empty(), rooms: Seq::empty(), is_authenticated: false, ..p }
}

impl Peer {
    /// A peer is in no room twice.
    pub open spec fn wf(&self) -> bool {
        self@.rooms.no_duplicates()
    }

    pub fn new(login: String, rooms: Vec<String>) -> (p: Self)
        ensures
            p.wf(),
            p@ == fresh_peer(login@, texts(rooms@)),
    {
        let mut own: Vec<String> = Vec::new();
        push_missing(&mut own, &rooms);
        proof {
            assert(texts(Seq::<String>::empty()) =~= Seq::empty());
            lemma_add_missing(Seq::empty(), texts(rooms@));
        }
        Peer {
            login,
            rooms: own,
            login_failures: 0,
            next_account_attempt: None,
            is_authenticated: true,
        }
    }

    /// Forget who the peer is and which rooms it is in.
    pub fn logout(&mut self)
        ensures
            final(self).wf(),
            final(self)@ == logged_out(old(self)@),
    {
        self.login = String::new();
        self.rooms = Vec::new();
        self.is_authenticated = false;
        proof {
            assert(self.rooms@ =~= Seq::<String>::empty());
            assert(texts(self.rooms@) =~= Seq::empty());
            assert(self.login@ =~= Seq::empty());
        }
    }
}

/// The peers by their addresses.
pub struct PeerMap {
    table: Table<PeerAddr, Peer>,
}

impl View for PeerMap {
    type V = Map<PeerAddr, PeerView>;

    closed spec fn view(&self) -> Map<PeerAddr, PeerView> {
        self.table.map().map_values(|p: Peer| p@)
    }
}

impl PeerMap {
    /// Each peer is well formed and stands in the map once.
    pub closed spec fn wf(&self) -> bool {
        &&& self.table.wf()
        &&& forall|a: PeerAddr| #[trigger] self.table.map().contains_key(a) ==> self.table.map()[a].wf()
    }

    /// No peer is in a room twice.
    pub proof fn law_rooms_are_distinct(&self, addr: PeerAddr)
        requires
            self.wf(),
            self@.contains_key(addr),
        ensures
            self@[addr].rooms.no_duplicates(),
    {
        assert(self.table.map().contains_key(addr));
    }

    pub fn new() -> (m: Self)
        ensures
            m.wf(),
            m@ == Map::<PeerAddr, PeerView>::empty(),
    {
        let m = PeerMap { table: Table::new() };
        proof {
            assert(m@ =~= Map::<PeerAddr, PeerView>::empty());
        }
        m
    }

    /// The peer at an address.
    pub fn get(&self, addr: PeerAddr) -> (p: Option<&Peer>)
        requires
            self.wf(),
        ensures
            match p {
                Some(p) => p.wf() && self@.contains_key(addr) && p@ == self@[addr],
                None => !self@.contains_key(addr),
            },
    {
        self.table.get(addr)
    }

    /// Set the peer at an address.
    pub fn insert(&mut self, addr: PeerAddr, peer: Peer)
        requires
            old(self).wf(),
            peer.wf(),
        ensures
            final(self).wf(),
            final(self)@ == old(self)@.insert(addr, peer@),
    {
        self.table.insert(addr, peer);
        proof {
            assert(self@ =~= old(self)@.insert(addr, peer@));
        }
    }

    /// Take the peer at an address out of the map.
    pub fn remove(&mut self, addr: PeerAddr) -> (p: Option<Peer>)
        requires
            old(self).wf(),
        ensures
            final(self).wf(),
            final(self)@ == old(self)@.remove(addr),
            match p {
                Some(p) => p.wf() && old(self)@.contains_key(addr) && p@ == old(self)@[addr],
                None => !old(self)@.contains_key(addr),
            },
    {
        let p = self.table.remove(addr);
        proof {
            assert(self@ =~= old(self)@.remove(addr));
        }
        p
    }

    /// Whether a peer at another address has a login.
    fn has_login_elsewhere(&self, addr: PeerAddr, login: &str) -> (b: bool)
        requires
            self.wf(),
        ensures
            b == exists|a: PeerAddr| #[trigger]
                self@.contains_key(a) && a != addr && self@[a].login == login@,
    {
        proof {
            self.table.lemma_map_is_seq();
        }
        let mut i: usize = 0;
        while i < self.table.len()
            invariant
                self.wf(),
                i <= self.table.seq().len(),
                forall|j: int|
                    0 <= j < i ==> (#[trigger] self.table.seq()[j]).0 == addr
                        || self.table.seq()[j].1.login@ != login@,
            decreases self.table.seq().len() - i,
        {
            let entry = self.table.at(i);
            if entry.0 != addr && same_text(entry.1.login.as_str(), login) {
                proof {
                    self.table.lemma_map_is_seq();
                    assert(self@.contains_key(self.table.seq()[i as int].0));
                }
                return true;
            }
            i = i + 1;
        }
        proof {
            assert forall|a: PeerAddr| #[trigger] self@.contains_key(a) && a != addr implies
                self@[a].login != login@ by {
                assert(self.table.map().contains_key(a));
                let j = choose|j: int|
                    0 <= j < self.table.seq().len() && (#[trigger] self.table.seq()[j]).0 == a;
                assert(self.table.seq()[j].0 == a);
            }
        }
        false
    }

    /// The addresses of the peers in a room, other than the sender.
    pub fn others_in_room(&self, sender: PeerAddr, room: &str) -> (to: Vec<PeerAddr>)
        requires
            self.wf(),
        ensures
            to@.no_duplicates(),
            to@.to_set() == others_in(self@, sender, room@),
    {
        let mut to: Vec<PeerAddr> = Vec::new();
        let ghost all = self.table.seq();
        proof {
            self.table.lemma_map_is_seq();
        }
        let mut i: usize = 0;
        while i < self.table.len()
            invariant
                self.wf(),
                all == self.table.seq(),
                i <= all.len(),
                to@.no_duplicates(),
                forall|a: PeerAddr| #[trigger]
                    to@.contains(a) ==> exists|j: int|
                        0 <= j < i && (#[trigger] all[j]).0 == a,
                forall|a: PeerAddr| #[trigger]
                    to@.contains(a) ==> others_in(self@, sender, room@).contains(a),
                forall|j: int|
                    0 <= j < i && others_in(self@, sender, room@).contains(
                        (#[trigger] all[j]).0,
                    ) ==> to@.contains(all[j].0),
            decreases all.len() - i,
        {
            let entry = self.table.at(i);
            let ghost before = to@;
            proof {
                self.table.lemma_map_is_seq();
                assert(self.table.map().contains_key(all[i as int].0));
                assert(self@[all[i as int].0] == all[i as int].1@);
            }
            if entry.0 != sender && list_contains(&entry.1.rooms, room) {
                proof {
                    if before.contains(entry.0) {
                        let j = choose|j: int| 0 <= j < i && (#[trigger] all[j]).0 == entry.0;
                        assert(all[j].0 != all[i as int].0);
                    }
                }
                to.push(entry.0);
                proof {
                    assert(to@[before.len() as int] == entry.0);
                    assert forall|a: PeerAddr| #[trigger] to@.contains(a) implies before.contains(a)
                        || a == entry.0 by {
                        let k = choose|k: int| 0 <= k < to@.len() && to@[k] == a;
                        if k < before.len() {
                            assert(before[k] == a);
                        }
                    }
                    assert forall|a: PeerAddr| #[trigger] before.contains(a) implies to@.contains(
                        a,
                    ) by {
                        let k = choose|k: int| 0 <= k < before.len() && before[k] == a;
                        assert(to@[k] == a);
                    }
                    assert(all[i as int].0 == entry.0);
                    assert(others_in(self@, sender, room@).contains(entry.0));
                }
            }
            i = i + 1;
        }
        proof {
            assert forall|a: PeerAddr| #[trigger]
                to@.to_set().contains(a) == others_in(self@, sender, room@).contains(a) by {
                if others_in(self@, sender, room@).contains(a) {
                    assert(self.table.map().contains_key(a));
                    let j = choose|j: int| 0 <= j < all.len() && (#[trigger] all[j]).0 == a;
                    assert(all[j].0 == a);
                }
            }
            assert(to@.to_set() =~= others_in(self@, sender, room@));
        }
        to
    }

    /// The addresses of the peers that have logged in.
    pub fn users(&self) -> (to: Vec<PeerAddr>)
        requires
            self.wf(),
        ensures
            to@.no_duplicates(),
            to@.to_set() == users(self@),
    {
        let mut to: Vec<PeerAddr> = Vec::new();
        let ghost all = self.table.seq();
        proof {
            self.table.lemma_map_is_seq();
        }
        let mut i: usize = 0;
        while i < self.table.len()
            invariant
                self.wf(),
                all == self.table.seq(),
                i <= all.len(),
                to@.no_duplicates(),
                forall|a: PeerAddr| #[trigger]
                    to@.contains(a) ==> exists|j: int|
                        0 <= j < i && (#[trigger] all[j]).0 == a,
                forall|a: PeerAddr| #[trigger]
                    to@.contains(a) ==> users(self@).contains(a),
                forall|j: int|
                    0 <= j < i && users(self@).contains((#[trigger] all[j]).0) ==> to@.contains(
                        all[j].0,
                    ),
            decreases all.len() - i,
        {
            let entry = self.table.at(i);
            let ghost before = to@;
            proof {
                self.table.lemma_map_is_seq();
                assert(self.table.map().contains_key(all[i as int].0));
                assert(self@[all[i as int].0] == all[i as int].1@);
            }
            if names_user(entry.1.login.as_str()) {
                proof {
                    if before.contains(entry.0) {
                        let j = choose|j: int| 0 <= j < i && (#[trigger] all[j]).0 == entry.0;
                        assert(all[j].0 != all[i as int].0);
                    }
                }
                to.push(entry.0);
                proof {
                    assert(to@[before.len() as int] == entry.0);
                    assert forall|a: PeerAddr| #[trigger] to@.contains(a) implies before.contains(a)
                        || a == entry.0 by {
                        let k = choose|k: int| 0 <= k < to@.len() && to@[k] == a;
                        if k < before.len() {
                            assert(before[k] == a);
                        }
                    }
                    assert forall|a: PeerAddr| #[trigger] before.contains(a) implies to@.contains(
                        a,
                    ) by {
                        let k = choose|k: int| 0 <= k < before.len() && before[k] == a;
                        assert(to@[k] == a);
                    }
                    assert(all[i as int].0 == entry.0);
                    assert(users(self@).contains(entry.0));
                }
            }
            i = i + 1;
        }
        proof {
            assert forall|a: PeerAddr| #[trigger]
                to@.to_set().contains(a) == users(self@).contains(a) by {
                if users(self@).contains(a) {
                    assert(self.table.map().contains_key(a));
                    let j = choose|j: int| 0 <= j < all.len() && (#[trigger] all[j]).0 == a;
                    assert(all[j].0 == a);
                }
            }
            assert(to@.to_set() =~= users(self@));
        }
        to
    }
}

/// The addresses of the peers in a room, other than the sender.
pub open spec fn others_in(
    peers: Map<PeerAddr, PeerView>,
    sender: PeerAddr,
    room: Seq<char>,
) -> Set<PeerAddr> {
    Set::new(|a: PeerAddr| peers.contains_key(a) && a != sender && peers[a].rooms.contains(room))
}

/// The addresses of the peers that have logged in.
pub open spec fn users(peers: Map<PeerAddr, PeerView>) -> Set<PeerAddr> {
    Set::new(|a: PeerAddr| peers.contains_key(a) && is_user(peers[a].login))
}

// ── Errors ──────────────────────────────────────────────────────────────

/// An error that a client is told of.
pub open spec fn error_view(message: Seq<char>, code: Seq<char>) -> ServerMessageView {
    ServerMessageView::Error { message, code }
}

/// The error for an address at which no peer is connected.
pub open spec fn no_session() -> ServerMessageView {
    error_view("Session not found."@, "GENERAL"@)
}

/// The error for a peer that has to log in first.
pub open spec fn login_required() -> ServerMessageView {
    error_view("Login required."@, "NOT_AUTHENTICATED"@)
}

pub fn client_error(message: &str) -> (m: ServerMessage)
    ensures
        m@ == error_view(message@, "GENERAL"@),
{
    ServerMessage::Error { message: message.to_owned(), code: "GENERAL".to_owned() }
}

pub fn client_error_with_code(message: &str, code: &str) -> (m: ServerMessage)
    ensures
        m@ == error_view(message@, code@),
{
    ServerMessage::Error { message: message.to_owned(), code: code.to_owned() }
}

/// The error for a server whose state cannot be reached.
pub fn lock_peer_error() -> (m: ServerMessage)
    ensures
        m@ == error_view("Internal server error."@, "GENERAL"@),
{
    client_error("Internal server error.")
}

pub fn session_not_found_error() -> (m: ServerMessage)
    ensures
        m@ == no_session(),
{
    client_error("Session not found.")
}

// ── Authentication ──────────────────────────────────────────────────────

/// Whether a login is that of a user: neither the sentinel nor, as after a
/// logout, empty.
pub open spec fn is_user(login: Seq<char>) -> bool {
    login != "anonymous"@ && login.len() > 0
}

/// Whether a login is that of a user.
fn names_user(login: &str) -> (b: bool)
    ensures
        b == is_user(login@),
{
    !same_text(login, RESERVED_ANONYMOUS_LOGIN) && !login.is_empty()
}

/// The login of the user at an address.
pub open spec fn user_at(peers: Map<PeerAddr, PeerView>, addr: PeerAddr) -> Result<
    Seq<char>,
    ServerMessageView,
> {
    if !peers.contains_key(addr) {
        Err(no_session())
    } else if is_user(peers[addr].login) {
        Ok(peers[addr].login)
    } else {
        Err(login_required())
    }
}

pub fn authenticated_login(peers: &PeerMap, addr: PeerAddr) -> (r: Result<String, ServerMessage>)
    requires
        peers.wf(),
    ensures
        match r {
            Ok(login) => user_at(peers@, addr) == Ok::<Seq<char>, ServerMessageView>(login@),
            Err(e) => user_at(peers@, addr) == Err::<Seq<char>, ServerMessageView>(e@),
        },
{
    match peers.get(addr) {
        None => Err(session_not_found_error()),
        Some(peer) => {
            let login = peer.login.clone();
            if names_user(login.as_str()) {
                Ok(login)
            } else {
                Err(client_error_with_code("Login required.", "NOT_AUTHENTICATED"))
            }
        },
    }
}

/// Whether a peer at another address uses a login. The sentinel is never in use.
pub open spec fn login_in_use(
    peers: Map<PeerAddr, PeerView>,
    addr: PeerAddr,
    login: Seq<char>,
) -> bool {
    login != "anonymous"@ && exists|a: PeerAddr| #[trigger]
        peers.contains_key(a) && a != addr && peers[a].login == login
}

/// The rooms that a user leaves by becoming someone else.
pub open spec fn departures(p: PeerView) -> Option<(Seq<char>, Seq<Seq<char>>)> {
    if p.login != "anonymous"@ && p.rooms.len() > 0 {
        Some((p.login, p.rooms))
    } else {
        None
    }
}

/// Whether a peer can become the user of a login, and what it then leaves.
pub open spec fn authentication(
    peers: Map<PeerAddr, PeerView>,
    addr: PeerAddr,
    login: Seq<char>,
) -> Result<Option<(Seq<char>, Seq<Seq<char>>)>, ServerMessageView> {
    if login_in_use(peers, addr, login) {
        Err(
            ServerMessageView::LoginFailed { reason: "Login already in use. Please try again."@ },
        )
    } else if !peers.contains_key(addr) {
        Err(no_session())
    } else {
        Ok(departures(peers[addr]))
    }
}

/// The peers after one of them has become the user of a login, in no room.
pub open spec fn with_login(
    peers: Map<PeerAddr, PeerView>,
    addr: PeerAddr,
    login: Seq<char>,
) -> Map<PeerAddr, PeerView> {
    peers.insert(addr, PeerView { login, rooms: Seq::empty(), ..peers[addr] })
}

/// The contents of what a user leaves.
pub open spec fn departures_view(d: Option<(String, Vec<String>)>) -> Option<
    (Seq<char>, Seq<Seq<char>>),
> {
    match d {
        Some((login, rooms)) => Some((login@, texts(rooms@))),
        None => None,
    }
}

/// Make a peer the user of a login, unless another peer is. Returns the login
/// and the rooms that the peer leaves, if it was in any as another user.
pub fn set_authenticated_peer(peers: &mut PeerMap, addr: PeerAddr, login: String) -> (r: Result<
    Option<(String, Vec<String>)>,
    ServerMessage,
>)
    requires
        old(peers).wf(),
    ensures
        final(peers).wf(),
        match r {
            Ok(left) => authentication(old(peers)@, addr, login@) == Ok::<
                _,
                ServerMessageView,
            >(departures_view(left)) && final(peers)@ == with_login(old(peers)@, addr, login@),
            Err(e) => authentication(old(peers)@, addr, login@) == Err::<
                Option<(Seq<char>, Seq<Seq<char>>)>,
                ServerMessageView,
            >(e@) && final(peers)@ == old(peers)@,
        },
{
    if !same_text(login.as_str(), RESERVED_ANONYMOUS_LOGIN) && peers.has_login_elsewhere(
        addr,
        login.as_str(),
    ) {
        return Err(
            ServerMessage::LoginFailed {
                reason: "Login already in use. Please try again.".to_owned(),
            },
        );
    }
    match peers.remove(addr) {
        None => {
            proof {
                assert(old(peers)@.remove(addr) =~= old(peers)@);
            }
            Err(session_not_found_error())
        },
        Some(mut peer) => {
            let old_login = peer.login;
            let old_rooms = peer.rooms;
            peer.login = login;
            peer.rooms = Vec::new();
            proof {
                assert(texts(Seq::<String>::empty()) =~= Seq::empty());
                assert(old(peers)@.remove(addr).insert(addr, peer@) =~= with_login(
                    old(peers)@,
                    addr,
                    login@,
                ));
            }
            peers.insert(addr, peer);
            if !same_text(old_login.as_str(), RESERVED_ANONYMOUS_LOGIN) && old_rooms.len() > 0 {
                Ok(Some((old_login, old_rooms)))
            } else {
                Ok(None)
            }
        },
    }
}

/// Take a peer's login away.
pub fn clear_peer_authentication(peers: &mut PeerMap, addr: PeerAddr) -> (r: Result<
    Option<(String, Vec<String>)>,
    ServerMessage,
>)
    requires
        old(peers).wf(),
    ensures
        final(peers).wf(),
        match r {
            Ok(left) => old(peers)@.contains_key(addr) && departures_view(left) == departures(
                old(peers)@[addr],
            ) && final(peers)@ == with_login(old(peers)@, addr, "anonymous"@),
            Err(e) => !old(peers)@.contains_key(addr) && e@ == no_session() && final(peers)@
                == old(peers)@,
        },
{
    set_authenticated_peer(peers, addr, RESERVED_ANONYMOUS_LOGIN.to_owned())
}

// ── Rooms ───────────────────────────────────────────────────────────────

/// What keeps a peer from joining a room.
pub open spec fn joining(
    peers: Map<PeerAddr, PeerView>,
    addr: PeerAddr,
    room: Seq<char>,
) -> Result<(), ServerMessageView> {
    if !peers.contains_key(addr) {
        Err(no_session())
    } else if peers[addr].rooms.contains(room) {
        Err(error_view("You are already in room '"@ + room + "'"@, "ALREADY_IN_ROOM"@))
    } else {
        Ok(())
    }
}

/// The peers after one of them has joined a room.
pub open spec fn with_room(
    peers: Map<PeerAddr, PeerView>,
    addr: PeerAddr,
    room: Seq<char>,
) -> Map<PeerAddr, PeerView> {
    peers.insert(addr, PeerView { rooms: peers[addr].rooms.push(room), ..peers[addr] })
}

/// The peers after one of them has left a room.
pub open spec fn without_room(
    peers: Map<PeerAddr, PeerView>,
    addr: PeerAddr,
    room: Seq<char>,
) -> Map<PeerAddr, PeerView> {
    peers.insert(addr, PeerView { rooms: peers[addr].rooms.remove_value(room), ..peers[addr] })
}

pub fn join_peer_room(peers: &mut PeerMap, addr: PeerAddr, room: String) -> (r: Result<
    (),
    ServerMessage,
>)
    requires
        old(peers).wf(),
    ensures
        final(peers).wf(),
        match r {
            Ok(_) => joining(old(peers)@, addr, room@) is Ok && final(peers)@ == with_room(
                old(peers)@,
                addr,
                room@,
            ),
            Err(e) => joining(old(peers)@, addr, room@) == Err::<(), ServerMessageView>(e@)
                && final(peers)@ == old(peers)@,
        },
{
    match peers.remove(addr) {
        None => {
            proof {
                assert(old(peers)@.remove(addr) =~= old(peers)@);
            }
            Err(session_not_found_error())
        },
        Some(mut peer) => {
            if list_contains(&peer.rooms, room.as_str()) {
                peers.insert(addr, peer);
                proof {
                    assert(peers@ =~= old(peers)@);
                }
                let message = "You are already in room '".to_owned().concat(room.as_str()).concat(
                    "'",
                );
                return Err(client_error_with_code(message.as_str(), "ALREADY_IN_ROOM"));
            }
            let ghost before = peer@;
            peer.rooms.push(room);
            proof {
                assert(peer@.rooms =~= before.rooms.push(room@));
                assert(old(peers)@.remove(addr).insert(addr, peer@) =~= with_room(
                    old(peers)@,
                    addr,
                    room@,
                ));
            }
            peers.insert(addr, peer);
            Ok(())
        },
    }
}

pub fn leave_peer_room(peers: &mut PeerMap, addr: PeerAddr, room: &str) -> (r: Result<
    (),
    ServerMessage,
>)
    requires
        old(peers).wf(),
    ensures
        final(peers).wf(),
        match r {
            Ok(_) => old(peers)@.contains_key(addr) && final(peers)@ == without_room(
                old(peers)@,
                addr,
                room@,
            ),
            Err(e) => !old(peers)@.contains_key(addr) && e@ == no_session() && final(peers)@
                == old(peers)@,
        },
{
    match peers.remove(addr) {
        None => {
            proof {
                assert(old(peers)@.remove(addr) =~= old(peers)@);
            }
            Err(session_not_found_error())
        },
        Some(mut peer) => {
            let ghost before = peer@;
            proof {
                before.rooms.index_of_first_ensures(room@);
            }
            match index_in_list(&peer.rooms, room) {
                Some(i) => {
                    let _ = peer.rooms.remove(i);
                    proof {
                        assert(peer@.rooms =~= before.rooms.remove(i as int));
                    }
                },
                None => {},
            }
            proof {
                assert(peer@.rooms == before.rooms.remove_value(room@));
                assert(old(peers)@.remove(addr).insert(addr, peer@) =~= without_room(
                    old(peers)@,
                    addr,
                    room@,
                ));
            }
            peers.insert(addr, peer);
            Ok(())
        },
    }
}

pub fn peer_is_in_room(peers: &PeerMap, addr: PeerAddr, room: &str) -> (r: Result<
    bool,
    ServerMessage,
>)
    requires
        peers.wf(),
    ensures
        match r {
            Ok(b) => peers@.contains_key(addr) && b == peers@[addr].rooms.contains(room@),
            Err(e) => !peers@.contains_key(addr) && e@ == no_session(),
        },
{
    match peers.get(addr) {
        None => Err(session_not_found_error()),
        Some(peer) => Ok(list_contains(&peer.rooms, room)),
    }
}

} // verus!
