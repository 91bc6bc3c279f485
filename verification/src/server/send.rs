//! What the server sends, and to whom.

use vstd::prelude::*;
use vstd::string::*;

use super::addr::PeerAddr;
use super::peers::{others_in, users, PeerMap, PeerView};
use crate::protocol::error::ProtocolError;
use crate::protocol::json::{
    delivery_json, serialize_delivery, serialize_server_message, server_json,
};
use crate::protocol::message::{
    entries, texts, Delivery, DeliveryView, HistoryEntry, ServerMessage, ServerMessageView,
};
use crate::protocol::validate::server_verdict;

verus! {

/// A text and the peers that it goes to, each once.
pub struct Outgoing {
    pub to: Vec<PeerAddr>,
    pub text: String,
}

/// An outgoing text over plain values. The order of the peers has no meaning.
pub struct OutgoingView {
    pub to: Set<PeerAddr>,
    pub text: Seq<char>,
}

impl View for Outgoing {
    type V = OutgoingView;

    open spec fn view(&self) -> OutgoingView {
        OutgoingView { to: self.to@.to_set(), text: self.text@ }
    }
}

/// The contents of a list of outgoing texts.
pub open spec fn outgoing(v: Seq<Outgoing>) -> Seq<OutgoingView> {
    v.map_values(|o: Outgoing| o@)
}

/// Whether each text of a list goes to no peer twice.
pub open spec fn each_once(v: Seq<Outgoing>) -> bool {
    forall|i: int| 0 <= i < v.len() ==> (#[trigger] v[i]).to@.no_duplicates()
}

/// A delivery to a set of peers. Nothing is sent that breaks the protocol.
pub open spec fn post(to: Set<PeerAddr>, d: DeliveryView) -> Seq<OutgoingView> {
    if server_verdict(d.message) is Ok {
        seq![OutgoingView { to, text: delivery_json(d) }]
    } else {
        Seq::empty()
    }
}

/// A message to one peer. Nothing is sent to an address where no peer is
/// connected, nor anything that breaks the protocol.
pub open spec fn reply(
    peers: Map<PeerAddr, PeerView>,
    addr: PeerAddr,
    m: ServerMessageView,
) -> Seq<OutgoingView> {
    if server_verdict(m) is Ok && peers.contains_key(addr) {
        seq![OutgoingView { to: set![addr], text: server_json(m) }]
    } else {
        Seq::empty()
    }
}

/// A message to every user. Nothing is sent that breaks the protocol.
pub open spec fn to_users(
    peers: Map<PeerAddr, PeerView>,
    m: ServerMessageView,
) -> Seq<OutgoingView> {
    if server_verdict(m) is Ok {
        seq![OutgoingView { to: users(peers), text: server_json(m) }]
    } else {
        Seq::empty()
    }
}

/// A notification from the server itself.
pub open spec fn notification(id: u64, text: Seq<char>, unix: i64) -> DeliveryView {
    DeliveryView {
        id,
        message: ServerMessageView::IncomingMessage {
            login: "Server"@,
            room: "system"@,
            message: text,
            timestamp: unix,
        },
    }
}

/// A chat message.
pub open spec fn chat(
    id: u64,
    login: Seq<char>,
    room: Seq<char>,
    message: Seq<char>,
    unix: i64,
) -> DeliveryView {
    DeliveryView {
        id,
        message: ServerMessageView::IncomingMessage { login, room, message, timestamp: unix },
    }
}

/// The id of the notification after the one with the given id.
pub open spec fn next_id(id: u64) -> u64 {
    if id == u64::MAX {
        0
    } else {
        (id + 1) as u64
    }
}

/// The id of the notification after as many others.
pub open spec fn id_after(id: u64, count: nat) -> u64
    decreases count,
{
    if count == 0 {
        id
    } else {
        next_id(id_after(id, (count - 1) as nat))
    }
}

/// A notification to each of several rooms: to the peers in it other than the sender.
pub open spec fn notices(
    peers: Map<PeerAddr, PeerView>,
    id: u64,
    sender: PeerAddr,
    rooms: Seq<Seq<char>>,
    text: Seq<char>,
    unix: i64,
) -> Seq<OutgoingView>
    decreases rooms.len(),
{
    if rooms.len() == 0 {
        Seq::empty()
    } else {
        let n = (rooms.len() - 1) as nat;
        notices(peers, id, sender, rooms.drop_last(), text, unix) + post(
            others_in(peers, sender, rooms.last()),
            notification(id_after(id, n), text, unix),
        )
    }
}

/// Send a message to a specific peer.
pub fn send_server_message(peers: &PeerMap, addr: PeerAddr, message: &ServerMessage) -> (r: Result<
    Vec<Outgoing>,
    ProtocolError,
>)
    requires
        peers.wf(),
    ensures
        match r {
            Ok(out) => server_verdict(message@) is Ok && outgoing(out@) == reply(
                peers@,
                addr,
                message@,
            ) && each_once(out@),
            Err(e) => server_verdict(message@) == Err::<(), ProtocolError>(e),
        },
{
    let text = serialize_server_message(message)?;
    let mut out: Vec<Outgoing> = Vec::new();
    if peers.get(addr).is_some() {
        let mut to: Vec<PeerAddr> = Vec::new();
        to.push(addr);
        proof {
            assert forall|a: PeerAddr| to@.contains(a) <==> a == addr by {
                assert(to@[0] == addr);
            }
            assert(to@.to_set() =~= set![addr]);
        }
        out.push(Outgoing { to, text });
    }
    proof {
        assert(outgoing(out@) =~= reply(peers@, addr, message@));
    }
    Ok(out)
}

/// Send room list to a peer.
pub fn send_room_list(peers: &PeerMap, addr: PeerAddr, rooms: Vec<String>) -> (r: Result<
    Vec<Outgoing>,
    ProtocolError,
>)
    requires
        peers.wf(),
    ensures
        ({
            let m = ServerMessageView::RoomList { rooms: texts(rooms@) };
            match r {
                Ok(out) => server_verdict(m) is Ok && outgoing(out@) == reply(peers@, addr, m)
                    && each_once(out@),
                Err(e) => server_verdict(m) == Err::<(), ProtocolError>(e),
            }
        }),
{
    send_server_message(peers, addr, &ServerMessage::RoomList { rooms })
}

/// Send room list to every user.
pub fn broadcast_room_list(peers: &PeerMap, rooms: Vec<String>) -> (r: Result<
    Outgoing,
    ProtocolError,
>)
    requires
        peers.wf(),
    ensures
        ({
            let m = ServerMessageView::RoomList { rooms: texts(rooms@) };
            match r {
                Ok(out) => server_verdict(m) is Ok && seq![out@] == to_users(peers@, m)
                    && out.to@.no_duplicates(),
                Err(e) => server_verdict(m) == Err::<(), ProtocolError>(e),
            }
        }),
{
    let text = serialize_server_message(&ServerMessage::RoomList { rooms })?;
    let to = peers.users();
    Ok(Outgoing { to, text })
}

/// Send room history to a peer.
pub fn send_history(
    peers: &PeerMap,
    addr: PeerAddr,
    room: String,
    messages: Vec<HistoryEntry>,
    has_more: bool,
) -> (r: Result<Vec<Outgoing>, ProtocolError>)
    requires
        peers.wf(),
    ensures
        ({
            let m = ServerMessageView::RoomHistory {
                room: room@,
                messages: entries(messages@),
                has_more,
            };
            match r {
                Ok(out) => server_verdict(m) is Ok && outgoing(out@) == reply(peers@, addr, m)
                    && each_once(out@),
                Err(e) => server_verdict(m) == Err::<(), ProtocolError>(e),
            }
        }),
{
    send_server_message(peers, addr, &ServerMessage::RoomHistory { room, messages, has_more })
}

/// Send a system notification to all peers in the given room but the sender.
/// It comes from `Server` in the room `system`, so that the client renders it
/// as a system notification.
pub fn broadcast_system_message(
    peers: &PeerMap,
    next_system_id: &mut u64,
    sender: PeerAddr,
    room: &str,
    message: &str,
    unix: i64,
) -> (r: Result<Outgoing, ProtocolError>)
    requires
        peers.wf(),
    ensures
        *final(next_system_id) == next_id(*old(next_system_id)),
        ({
            let d = notification(*old(next_system_id), message@, unix);
            match r {
                Ok(out) => server_verdict(d.message) is Ok && seq![out@] == post(
                    others_in(peers@, sender, room@),
                    d,
                ) && out.to@.no_duplicates(),
                Err(e) => server_verdict(d.message) == Err::<(), ProtocolError>(e),
            }
        }),
{
    let id: u64 = *next_system_id;
    *next_system_id = next_system_id.wrapping_add(1);
    let delivery = Delivery {
        id,
        message: ServerMessage::IncomingMessage {
            login: "Server".to_owned(),
            room: "system".to_owned(),
            message: message.to_owned(),
            timestamp: unix,
        },
    };
    let text = serialize_delivery(&delivery)?;
    let to = peers.others_in_room(sender, room);
    Ok(Outgoing { to, text })
}

/// Broadcast a regular chat message to all peers in the same room except the sender.
pub fn broadcast_to_room(
    peers: &PeerMap,
    sender: PeerAddr,
    login: &str,
    room: &str,
    message: &str,
    id: u64,
    unix: i64,
) -> (r: Result<Outgoing, ProtocolError>)
    requires
        peers.wf(),
    ensures
        ({
            let d = chat(id, login@, room@, message@, unix);
            match r {
                Ok(out) => server_verdict(d.message) is Ok && seq![out@] == post(
                    others_in(peers@, sender, room@),
                    d,
                ) && out.to@.no_duplicates(),
                Err(e) => server_verdict(d.message) == Err::<(), ProtocolError>(e),
            }
        }),
{
    let delivery = Delivery {
        id,
        message: ServerMessage::IncomingMessage {
            login: login.to_owned(),
            room: room.to_owned(),
            message: message.to_owned(),
            timestamp: unix,
        },
    };
    let text = serialize_delivery(&delivery)?;
    let to = peers.others_in_room(sender, room);
    Ok(Outgoing { to, text })
}

/// Notify each of several rooms.
pub fn notify_rooms(
    peers: &PeerMap,
    next_system_id: &mut u64,
    sender: PeerAddr,
    rooms: &Vec<String>,
    message: &str,
    unix: i64,
) -> (out: Vec<Outgoing>)
    requires
        peers.wf(),
    ensures
        *final(next_system_id) == id_after(*old(next_system_id), rooms@.len()),
        outgoing(out@) == notices(
            peers@,
            *old(next_system_id),
            sender,
            texts(rooms@),
            message@,
            unix,
        ),
        each_once(out@),
{
    let mut out: Vec<Outgoing> = Vec::new();
    let ghost all = texts(rooms@);
    let ghost start = *next_system_id;
    let mut i: usize = 0;
    proof {
        assert(all.take(0) =~= Seq::empty());
        assert(outgoing(out@) =~= Seq::empty());
    }
    while i < rooms.len()
        invariant
            peers.wf(),
            all == texts(rooms@),
            i <= rooms.len(),
            *next_system_id == id_after(start, i as nat),
            outgoing(out@) == notices(
                peers@,
                start,
                sender,
                all.take(i as int),
                message@,
                unix,
            ),
            each_once(out@),
        decreases rooms.len() - i,
    {
        let ghost before = outgoing(out@);
        proof {
            assert(all.take(i + 1).drop_last() =~= all.take(i as int));
            assert(all.take(i + 1).last() == rooms@[i as int]@);
        }
        match broadcast_system_message(
            peers,
            next_system_id,
            sender,
            rooms[i].as_str(),
            message,
            unix,
        ) {
            Ok(one) => {
                out.push(one);
                proof {
                    assert(outgoing(out@) =~= before + seq![one@]);
                }
            },
            Err(_) => {
                proof {
                    assert(before =~= before + Seq::empty());
                }
            },
        }
        i = i + 1;
    }
    proof {
        assert(all.take(i as int) =~= all);
    }
    out
}

/// Tell the rooms that a user leaves.
pub fn announce_room_departures(
    peers: &PeerMap,
    next_system_id: &mut u64,
    addr: PeerAddr,
    login: &str,
    rooms: &Vec<String>,
    unix: i64,
) -> (out: Vec<Outgoing>)
    requires
        peers.wf(),
    ensures
        *final(next_system_id) == id_after(*old(next_system_id), rooms@.len()),
        outgoing(out@) == notices(
            peers@,
            *old(next_system_id),
            addr,
            texts(rooms@),
            login@ + " left the room"@,
            unix,
        ),
        each_once(out@),
{
    let message = login.to_owned().concat(" left the room");
    notify_rooms(peers, next_system_id, addr, rooms, message.as_str(), unix)
}

} // verus!
