use chatter::protocol::error::ProtocolError;
use chatter::protocol::frame::Frame;
use chatter::protocol::message::{ClientMessage, HistoryEntry, ServerMessage, HISTORY_PAGE_SIZE};
use chatter::server::account::{is_standing_room, room_list};
use chatter::server::addr::{IpKey, PeerAddr};
use chatter::server::backoff::{
    account_backoff_duration, account_backoff_remaining, clear_account_failures,
    record_account_failure, IpBackoffMap,
};
use chatter::server::config::{bind_address, database_path, parse_port};
use chatter::server::peers::{
    authenticated_login, clear_peer_authentication, client_error, client_error_with_code,
    join_peer_room, leave_peer_room, lock_peer_error, peer_is_in_room, session_not_found_error,
    set_authenticated_peer, Peer, PeerMap, RESERVED_ANONYMOUS_LOGIN,
};
use chatter::server::rate::{RateLimiter, RateLog, RATE_LIMIT, RATE_WINDOW_SECS};
use chatter::server::send::{
    announce_room_departures, broadcast_room_list, broadcast_system_message, broadcast_to_room, send_history,
    send_room_list, send_server_message, Outgoing,
};
use chatter::server::session::{Clock, Done, Server, Task};
use chatter::server::table::{Key, Table};
use chatter::server::tasks::{AccountTasks, MAX_CONCURRENT_ACCOUNT_TASKS};

const MS: i64 = 1_000_000;
const SEC: i64 = 1_000_000_000;

fn ip(last: u128) -> IpKey {
    IpKey { v6: false, bits: 0x7f00_0000 + last }
}

fn test_addr(port: u16) -> PeerAddr {
    PeerAddr { ip: ip(1), port, flow: 0, scope: 0 }
}

fn make_peer_map(peers: Vec<(PeerAddr, &str, Vec<&str>)>) -> PeerMap {
    let mut map = PeerMap::new();
    for (addr, login, rooms) in peers {
        let rooms = rooms.into_iter().map(|r| r.to_string()).collect();
        map.insert(addr, Peer::new(login.to_string(), rooms));
    }
    map
}

fn server_with(peers: Vec<(PeerAddr, &str, Vec<&str>)>) -> Server {
    let mut server = Server::new();
    server.peers = make_peer_map(peers);
    server
}

fn clock(now: i64) -> Clock {
    Clock { now, unix: 1_700_000_000 }
}

/// The texts that go to a peer.
fn sent_to(out: &Vec<Outgoing>, addr: PeerAddr) -> Vec<String> {
    out.iter().filter(|o| o.to.contains(&addr)).map(|o| o.text.clone()).collect()
}

fn notice(id: u64, text: &str) -> String {
    format!(
        r#"{{"IncomingMessage":{{"id":{id},"login":"Server","room":"system","message":"{text}","timestamp":1700000000}}}}"#
    )
}

fn login_required() -> Result<String, ServerMessage> {
    Err(client_error_with_code("Login required.", "NOT_AUTHENTICATED"))
}

#[test]
fn test_anonymous_has_no_authenticated_login() {
    let addr = test_addr(8090);
    let peer_map = make_peer_map(vec![(addr, "anonymous", vec![])]);

    assert_eq!(authenticated_login(&peer_map, addr), login_required());
}

#[test]
fn test_post_logout_has_no_authenticated_login() {
    let addr = test_addr(8090);
    let peer_map = make_peer_map(vec![(addr, "", vec![])]);

    assert_eq!(authenticated_login(&peer_map, addr), login_required());
}

#[test]
fn test_authenticated_peer_exposes_login() {
    let addr = test_addr(8091);
    let peer_map = make_peer_map(vec![(addr, "alice", vec![])]);

    assert_eq!(authenticated_login(&peer_map, addr), Ok("alice".to_string()));
}

#[test]
fn test_create_account_rejects_reserved_anonymous_username() {
    let addr = test_addr(8092);
    let mut server = server_with(vec![(addr, RESERVED_ANONYMOUS_LOGIN, vec![])]);
    let message = ClientMessage::CreateAccount {
        login: RESERVED_ANONYMOUS_LOGIN.to_string(),
        passwd: "password123".to_string(),
    };
    let step = server.process_data(message, addr, clock(0));
    let login = match step.task {
        Some(Task::InsertAccount { login, mut passwd }) => {
            assert!(chatter::server::account::begin_insert_account(&login, &mut passwd).is_err());
            login
        }
        _ => panic!("expected an account task"),
    };
    let refused = Done::AccountInserted { login, created: None };
    let step = server.resume(addr, refused, clock(0));
    assert_eq!(
        sent_to(&step.outgoing, addr),
        vec![r#"{"AccountCreationFailed":{"reason":"Account creation failed."}}"#]
    );
}

#[test]
fn test_login_with_reserved_anonymous_username_is_rejected() {
    let addr = test_addr(8093);
    let mut server = server_with(vec![(addr, RESERVED_ANONYMOUS_LOGIN, vec![])]);
    let message = ClientMessage::Login {
        login: RESERVED_ANONYMOUS_LOGIN.to_string(),
        passwd: "password123".to_string(),
    };
    let step = server.process_data(message, addr, clock(0));

    assert!(step.task.is_none());
    assert_eq!(
        sent_to(&step.outgoing, addr),
        vec![r#"{"LoginFailed":{"reason":"Invalid credentials."}}"#]
    );
    assert_eq!(authenticated_login(&server.peers, addr), login_required());
}

#[test]
fn test_create_account_does_not_authenticate_and_rejects_duplicate() {
    let addr = test_addr(8084);
    let mut server = server_with(vec![(addr, "anonymous", vec![])]);
    let message = ClientMessage::CreateAccount {
        login: "alice".to_string(),
        passwd: "password123".to_string(),
    };
    let step = server.process_data(message, addr, clock(0));
    assert!(matches!(
        step.task,
        Some(Task::InsertAccount { ref login, ref passwd }) if login == "alice" && passwd == "password123"
    ));
    assert!(step.outgoing.is_empty());
    let created = Done::AccountInserted { login: "alice".to_string(), created: Some(true) };
    let step = server.resume(addr, created, clock(0));
    assert_eq!(
        sent_to(&step.outgoing, addr),
        vec![r#"{"AccountCreated":{"login":"alice"}}"#]
    );
    assert_eq!(server.peers.get(addr).unwrap().login, "anonymous");

    let message = ClientMessage::CreateAccount {
        login: "alice".to_string(),
        passwd: "different-password".to_string(),
    };
    let step = server.process_data(message, addr, clock(0));
    assert!(matches!(
        step.task,
        Some(Task::InsertAccount { ref login, ref passwd })
            if login == "alice" && passwd == "different-password"
    ));
    assert!(step.outgoing.is_empty());
    let taken = Done::AccountInserted { login: "alice".to_string(), created: Some(false) };
    let step = server.resume(addr, taken, clock(0));
    assert_eq!(
        sent_to(&step.outgoing, addr),
        vec![r#"{"AccountCreationFailed":{"reason":"Account creation failed."}}"#]
    );
    assert_eq!(server.peers.get(addr).unwrap().login, "anonymous");
}

#[test]
fn test_successful_relogin_announces_departure_from_previous_rooms() {
    let addr = test_addr(8085);
    let other_addr = test_addr(8086);
    let mut server = server_with(vec![
        (addr, "old-login", vec!["general"]),
        (other_addr, "observer", vec!["general"]),
    ]);
    let message = ClientMessage::Login {
        login: "new-login".to_string(),
        passwd: "password123".to_string(),
    };
    let step = server.process_data(message, addr, clock(0));
    assert!(matches!(step.task, Some(Task::VerifyCredentials { .. })));
    let verified =
        Done::CredentialsVerified { login: "new-login".to_string(), verified: Some(true) };
    let step = server.resume(addr, verified, clock(0));

    assert_eq!(
        sent_to(&step.outgoing, other_addr),
        vec![notice(0, "old-login left the room")]
    );
    assert_eq!(
        sent_to(&step.outgoing, addr),
        vec![r#"{"LoginOk":{"login":"new-login"}}"#]
    );
    assert!(matches!(step.task, Some(Task::GetRooms)));
    let peer = server.peers.get(addr).unwrap();
    assert_eq!(peer.login, "new-login");
    assert!(peer.rooms.is_empty());

    let rooms = Done::RoomsListed { rooms: Some(vec!["general".to_string(), "x".to_string()]) };
    let step = server.resume(addr, rooms, clock(0));
    assert_eq!(
        sent_to(&step.outgoing, addr),
        vec![r#"{"RoomList":{"rooms":["general","x"]}}"#]
    );
}

#[test]
fn test_failed_relogin_clears_prior_auth_state() {
    let addr = test_addr(8087);
    let other_addr = test_addr(8088);
    let mut server = server_with(vec![
        (addr, "alice", vec!["general"]),
        (other_addr, "observer", vec!["general"]),
    ]);
    let message = ClientMessage::Login {
        login: "alice".to_string(),
        passwd: "wrong-password".to_string(),
    };
    let step = server.process_data(message, addr, clock(0));
    assert!(matches!(
        step.task,
        Some(Task::VerifyCredentials { ref login, ref passwd })
            if login == "alice" && passwd == "wrong-password"
    ));
    let refused = Done::CredentialsVerified { login: "alice".to_string(), verified: Some(false) };
    let step = server.resume(addr, refused, clock(0));

    assert_eq!(
        sent_to(&step.outgoing, other_addr),
        vec![notice(0, "alice left the room")]
    );
    assert_eq!(
        sent_to(&step.outgoing, addr),
        vec![r#"{"LoginFailed":{"reason":"Invalid credentials."}}"#]
    );
    let peer = server.peers.get(addr).unwrap();
    assert_eq!(peer.login, "anonymous");
    assert!(peer.rooms.is_empty());
}

#[test]
fn test_rate_limiter_allows_under_limit() {
    let limiter = RateLimiter::new(5, 1);
    let mut log = RateLog::new();
    let addr = test_addr(9001);
    let now = 10 * SEC;

    for i in 0..5 {
        assert!(limiter.check(&mut log, addr, now + i * 100 * MS));
    }
    assert!(!limiter.check(&mut log, addr, now + 500 * MS));
}

#[test]
fn test_rate_limiter_window_expires() {
    let limiter = RateLimiter::new(3, 1);
    let mut log = RateLog::new();
    let addr = test_addr(9002);
    let now = 10 * SEC;

    for _ in 0..3 {
        assert!(limiter.check(&mut log, addr, now));
    }
    assert!(!limiter.check(&mut log, addr, now + 500 * MS));
    assert!(limiter.check(&mut log, addr, now + 2 * SEC));
}

#[test]
fn test_rate_limiter_independent_per_peer() {
    let limiter = RateLimiter::new(2, 1);
    let mut log = RateLog::new();
    let addr_a = test_addr(9003);
    let addr_b = test_addr(9004);
    let now = 10 * SEC;

    assert!(limiter.check(&mut log, addr_a, now));
    assert!(limiter.check(&mut log, addr_a, now + 100 * MS));
    assert!(!limiter.check(&mut log, addr_a, now + 200 * MS));

    assert!(limiter.check(&mut log, addr_b, now));
    assert!(limiter.check(&mut log, addr_b, now + 100 * MS));
    assert!(!limiter.check(&mut log, addr_b, now + 200 * MS));
}

#[test]
fn test_rate_limiter_evicts_empty_entries() {
    let limiter = RateLimiter::new(1, 1);
    let mut log = RateLog::new();
    let addr = test_addr(9010);
    let now = 10 * SEC;

    assert!(limiter.check(&mut log, addr, now));
    assert!(!limiter.check(&mut log, addr, now + 500 * MS));
    assert!(limiter.check(&mut log, addr, now + 2 * SEC));
}

#[test]
fn test_join_peer_room_double_join_returns_error() {
    let addr = test_addr(9005);
    let mut peer_map = make_peer_map(vec![(addr, "alice", vec!["general"])]);

    let result = join_peer_room(&mut peer_map, addr, "general".into());
    assert!(result.is_err());
    match result.unwrap_err() {
        ServerMessage::Error { code, message } => {
            assert_eq!(code, "ALREADY_IN_ROOM");
            assert!(message.contains("already in room"));
            assert_eq!(message, "You are already in room 'general'");
        }
        other => panic!("Expected Error variant, got {:?}", other),
    }
}

#[test]
fn test_join_peer_room_allows_different_room() {
    let addr = test_addr(9006);
    let mut peer_map = make_peer_map(vec![(addr, "alice", vec!["general"])]);

    assert!(join_peer_room(&mut peer_map, addr, "rust".into()).is_ok());

    let peer = peer_map.get(addr).unwrap();
    assert!(peer.rooms.contains(&"general".to_string()));
    assert!(peer.rooms.contains(&"rust".to_string()));
}

#[test]
fn test_peer_logout_clears_auth_and_rooms() {
    let mut peer = Peer::new(
        "alice".to_string(),
        vec!["general".to_string(), "random".to_string()],
    );

    assert!(peer.is_authenticated);
    assert_eq!(peer.login, "alice");
    assert_eq!(peer.rooms.len(), 2);

    peer.logout();

    assert!(!peer.is_authenticated);
    assert!(peer.login.is_empty());
    assert!(peer.rooms.is_empty());
}

#[test]
fn test_peer_logout_idempotent() {
    let mut peer = Peer::new("alice".to_string(), vec!["general".to_string()]);

    peer.logout();
    assert!(!peer.is_authenticated);
    assert!(peer.login.is_empty());
    assert!(peer.rooms.is_empty());

    peer.logout();
    assert!(!peer.is_authenticated);
    assert!(peer.login.is_empty());
    assert!(peer.rooms.is_empty());
}

#[test]
fn test_logout_sets_anonymous_login() {
    let mut peer = Peer::new("alice".to_string(), vec!["general".to_string()]);

    peer.logout();

    assert_eq!(peer.login, "");
    assert!(!peer.is_authenticated);
}

#[test]
fn test_ip_backoff_persists_across_connections() {
    let addr1 = test_addr(1000);
    let mut peer_map = make_peer_map(vec![(addr1, "anon", vec![])]);
    let mut ip_backoff: IpBackoffMap = Table::new();

    record_account_failure(&mut peer_map, &mut ip_backoff, addr1, 0);
    let remaining = account_backoff_remaining(&peer_map, &ip_backoff, addr1, 0).unwrap();
    assert!(remaining.is_some());
    assert_eq!(remaining, Some(10_000_000));

    let addr2 = test_addr(1001);
    peer_map.insert(addr2, Peer::new("anon".to_string(), vec![]));
    let remaining2 = account_backoff_remaining(&peer_map, &ip_backoff, addr2, 0).unwrap();
    assert!(remaining2.is_some());
}

#[test]
fn test_ip_backoff_cleared_on_success() {
    let addr = test_addr(2000);
    let mut peer_map = make_peer_map(vec![(addr, "anon", vec![])]);
    let mut ip_backoff: IpBackoffMap = Table::new();

    record_account_failure(&mut peer_map, &mut ip_backoff, addr, 0);
    record_account_failure(&mut peer_map, &mut ip_backoff, addr, 0);
    assert!(account_backoff_remaining(&peer_map, &ip_backoff, addr, 0).unwrap().is_some());

    clear_account_failures(&mut peer_map, &mut ip_backoff, addr);
    let remaining = account_backoff_remaining(&peer_map, &ip_backoff, addr, 0).unwrap();
    assert!(remaining.is_none());
}

#[test]
fn test_ip_backoff_independent_per_ip() {
    let addr1 = PeerAddr { ip: ip(1), port: 3000, flow: 0, scope: 0 };
    let addr2 = PeerAddr { ip: ip(2), port: 3000, flow: 0, scope: 0 };
    let mut peer_map = make_peer_map(vec![(addr1, "anon", vec![]), (addr2, "anon", vec![])]);
    let mut ip_backoff: IpBackoffMap = Table::new();

    record_account_failure(&mut peer_map, &mut ip_backoff, addr1, 0);

    assert!(account_backoff_remaining(&peer_map, &ip_backoff, addr1, 0).unwrap().is_some());
    assert!(account_backoff_remaining(&peer_map, &ip_backoff, addr2, 0).unwrap().is_none());
}

// Exact values, each error, and the laws on concrete values.

#[test]
fn waits_double_up_to_the_longest() {
    let waits: Vec<u64> = (0..13).map(account_backoff_duration).collect();
    assert_eq!(
        waits,
        vec![10, 10, 20, 40, 80, 160, 320, 640, 1280, 2560, 5120, 8000, 8000]
    );
    assert_eq!(account_backoff_duration(u32::MAX), 8000);
}

#[test]
fn backoff_ends_and_needs_a_session() {
    let addr = test_addr(1);
    let mut peers = make_peer_map(vec![(addr, "anon", vec![])]);
    let mut backoff: IpBackoffMap = Table::new();
    record_account_failure(&mut peers, &mut backoff, addr, 5);
    assert_eq!(
        account_backoff_remaining(&peers, &backoff, addr, 10 * MS + 5),
        Ok(Some(0))
    );
    assert_eq!(
        account_backoff_remaining(&peers, &backoff, addr, 10 * MS + 6),
        Ok(None)
    );
    let other = PeerAddr { ip: ip(9), port: 1, flow: 0, scope: 0 };
    assert_eq!(
        account_backoff_remaining(&peers, &backoff, other, 0),
        Err(session_not_found_error())
    );
}

#[test]
fn login_comes_first() {
    let addr = test_addr(1);
    let mut server = Server::new();
    server.connect(addr);
    let required = vec![r#"{"Error":{"message":"Login required.","code":"NOT_AUTHENTICATED"}}"#];
    let room = || "general".to_string();
    let messages = vec![
        ClientMessage::JoinRoom { room: room() },
        ClientMessage::LeaveRoom { room: room() },
        ClientMessage::SendMessage { room: room(), message: "hi".to_string() },
        ClientMessage::GetHistory { room: room(), cursor: None },
    ];
    for message in messages {
        let step = server.process_data(message, addr, clock(0));
        assert!(step.task.is_none());
        assert_eq!(sent_to(&step.outgoing, addr), required);
    }
}

#[test]
fn joining_comes_before_sending() {
    let addr = test_addr(1);
    let server = server_with(vec![(addr, "alice", vec!["random"])]);
    let step = server.send_message(addr, "general".to_string(), "hi".to_string());
    assert!(step.task.is_none());
    assert_eq!(
        sent_to(&step.outgoing, addr),
        vec![r#"{"Error":{"message":"Join the room before sending messages.","code":"ROOM_REQUIRED"}}"#]
    );
    let step = server.get_history(addr, "general".to_string(), None);
    assert_eq!(
        sent_to(&step.outgoing, addr),
        vec![r#"{"Error":{"message":"Join the room before requesting history.","code":"ROOM_REQUIRED"}}"#]
    );
    let step = server.get_history(addr, "random".to_string(), Some(9));
    assert!(matches!(
        step.task,
        Some(Task::GetRoomHistory { ref room, cursor: Some(9), limit })
            if room == "random" && limit == HISTORY_PAGE_SIZE
    ));
}

#[test]
fn messages_stay_in_their_room() {
    let alice = test_addr(1);
    let bob = test_addr(2);
    let carol = test_addr(3);
    let server = server_with(vec![
        (alice, "alice", vec!["general"]),
        (bob, "bob", vec!["random", "general"]),
        (carol, "carol", vec!["random"]),
    ]);
    let step = server.send_message(alice, "general".to_string(), "hi".to_string());
    assert!(matches!(step.task, Some(Task::InsertMessage { ref login, .. }) if login == "alice"));
    let step = server.finish_send_message(alice, "alice", "general", "hi", Some((42, true)), clock(0));
    assert_eq!(step.outgoing.len(), 1);
    assert_eq!(step.outgoing[0].to, vec![bob]);
    assert_eq!(
        step.outgoing[0].text,
        r#"{"IncomingMessage":{"id":42,"login":"alice","room":"general","message":"hi","timestamp":1700000000}}"#
    );
    let failed = server.finish_send_message(alice, "alice", "general", "hi", None, clock(0));
    assert!(failed.outgoing.is_empty());
    let refused = server.finish_send_message(alice, "alice", "general", "h\u{7}", Some((1, false)), clock(0));
    assert!(refused.outgoing.is_empty());
}

#[test]
fn joining_and_leaving_are_announced() {
    let alice = test_addr(1);
    let bob = test_addr(2);
    let mut server = server_with(vec![(alice, "alice", vec![]), (bob, "bob", vec!["general"])]);
    let step = server.join_room(alice, "general".to_string(), clock(0));
    assert_eq!(sent_to(&step.outgoing, bob), vec![notice(0, "alice joined the room")]);
    assert!(sent_to(&step.outgoing, alice).is_empty());
    let again = server.join_room(alice, "general".to_string(), clock(0));
    assert_eq!(
        sent_to(&again.outgoing, alice),
        vec![r#"{"Error":{"message":"You are already in room 'general'","code":"ALREADY_IN_ROOM"}}"#]
    );
    let step = server.leave_room(alice, "general".to_string(), clock(0));
    assert_eq!(sent_to(&step.outgoing, bob), vec![notice(1, "alice left the room")]);
    assert_eq!(peer_is_in_room(&server.peers, alice, "general"), Ok(false));
    assert_eq!(server.next_system_id, 2);
}

#[test]
fn logins_are_unique() {
    let alice = test_addr(1);
    let other = test_addr(2);
    let mut server = server_with(vec![(alice, "alice", vec![]), (other, "anonymous", vec![])]);
    let step = server.finish_login(other, "alice".to_string(), Some(true), clock(0));
    assert!(step.task.is_none());
    assert_eq!(
        sent_to(&step.outgoing, other),
        vec![r#"{"LoginFailed":{"reason":"Login already in use. Please try again."}}"#]
    );
    assert_eq!(server.peers.get(other).unwrap().login, "anonymous");
    let step = server.finish_login(alice, "alice".to_string(), Some(true), clock(0));
    assert_eq!(
        sent_to(&step.outgoing, alice),
        vec![r#"{"LoginOk":{"login":"alice"}}"#]
    );
}

#[test]
fn attempts_that_come_too_early_are_refused() {
    let alice = test_addr(1);
    let bob = test_addr(2);
    let mut server = server_with(vec![
        (alice, "alice", vec!["general"]),
        (bob, "bob", vec!["general"]),
    ]);
    let step = server.finish_create_account(alice, "x".to_string(), None, clock(0));
    assert_eq!(step.outgoing.len(), 1);
    let step = server.create_account(alice, "x".to_string(), "pass".to_string(), clock(1));
    assert!(step.task.is_none());
    assert_eq!(
        sent_to(&step.outgoing, alice),
        vec![r#"{"AccountCreationFailed":{"reason":"Too many account attempts. Try again later."}}"#]
    );
    let step = server.login(alice, "alice".to_string(), "pass".to_string(), clock(1));
    assert!(step.task.is_none());
    assert_eq!(sent_to(&step.outgoing, bob), vec![notice(0, "alice left the room")]);
    assert_eq!(
        sent_to(&step.outgoing, alice),
        vec![r#"{"LoginFailed":{"reason":"Too many login attempts. Try again later."}}"#]
    );
    assert_eq!(server.peers.get(alice).unwrap().login, "anonymous");
    let later = server.login(alice, "alice".to_string(), "pass".to_string(), clock(SEC));
    assert!(matches!(later.task, Some(Task::VerifyCredentials { .. })));
}

#[test]
fn a_database_that_fails_signs_out() {
    let alice = test_addr(1);
    let mut server = server_with(vec![(alice, "alice", vec!["general"])]);
    let step = server.finish_login(alice, "alice".to_string(), None, clock(0));
    assert_eq!(
        sent_to(&step.outgoing, alice),
        vec![r#"{"Error":{"message":"Login failed.","code":"AUTH_FAILED"}}"#]
    );
    assert_eq!(server.peers.get(alice).unwrap().login, "anonymous");
    assert_eq!(server.peers.get(alice).unwrap().login_failures, 1);
}

#[test]
fn logging_out_twice() {
    let alice = test_addr(1);
    let bob = test_addr(2);
    let mut server = server_with(vec![
        (alice, "alice", vec!["general", "random"]),
        (bob, "bob", vec!["general"]),
    ]);
    let step = server.process_data(ClientMessage::Logout, alice, clock(0));
    assert_eq!(sent_to(&step.outgoing, bob), vec![notice(0, "alice left the room")]);
    assert_eq!(sent_to(&step.outgoing, alice), vec![r#""LogoutOk""#]);
    assert_eq!(authenticated_login(&server.peers, alice), login_required());
    let step = server.logout(alice, clock(0));
    assert_eq!(step.outgoing.len(), 1);
    assert_eq!(sent_to(&step.outgoing, alice), vec![r#""LogoutOk""#]);
    assert_eq!(server.next_system_id, 2);
}

#[test]
fn disconnecting_is_announced() {
    let alice = test_addr(1);
    let bob = test_addr(2);
    let mut server = server_with(vec![
        (alice, "alice", vec!["general"]),
        (bob, "bob", vec!["general"]),
    ]);
    let step = server.disconnect(alice, clock(0));
    assert_eq!(sent_to(&step.outgoing, bob), vec![notice(0, "alice disconnected")]);
    assert!(server.peers.get(alice).is_none());
    assert!(server.disconnect(alice, clock(0)).outgoing.is_empty());
    assert_eq!(
        authenticated_login(&server.peers, alice),
        Err(session_not_found_error())
    );
}

#[test]
fn frames_are_limited() {
    let alice = test_addr(1);
    let mut server = server_with(vec![(alice, "alice", vec![])]);
    let limiter = RateLimiter::new(RATE_LIMIT, RATE_WINDOW_SECS);
    for i in 0..20 {
        let r = server.receive(&limiter, alice, Frame::Text("hi".to_string()), i);
        assert_eq!(r.text, Some("hi".to_string()));
        assert!(r.outgoing.is_empty());
    }
    let ping = server.receive(&limiter, alice, Frame::Ping(vec![]), 20);
    assert!(ping.text.is_none() && ping.outgoing.is_empty());
    let r = server.receive(&limiter, alice, Frame::Text("hi".to_string()), 20);
    assert!(r.text.is_none());
    assert_eq!(
        sent_to(&r.outgoing, alice),
        vec![r#"{"Error":{"message":"Rate limit exceeded. Try again shortly.","code":"RATE_LIMITED"}}"#]
    );
    let r = server.receive(&limiter, alice, Frame::Text("hi".to_string()), SEC);
    assert_eq!(r.text, Some("hi".to_string()));
    let long = "x".repeat(chatter::protocol::message::MAX_PAYLOAD_LEN + 1);
    let r = server.receive(&limiter, alice, Frame::Text(long), 3 * SEC);
    assert!(r.text.is_none() && r.outgoing.is_empty());
}

#[test]
fn a_window_before_all_times_counts_from_now() {
    let limiter = RateLimiter::new(1, u64::MAX);
    let mut log = RateLog::new();
    assert!(limiter.check(&mut log, test_addr(1), 5));
    assert!(limiter.check(&mut log, test_addr(1), 5));
    let none = RateLimiter::new(0, 1);
    assert!(!none.check(&mut log, test_addr(2), 5));
}

#[test]
fn peers_change_their_rooms_and_logins() {
    let alice = test_addr(1);
    let nobody = test_addr(9);
    let mut peers = make_peer_map(vec![(alice, "alice", vec!["a", "b", "a"])]);
    assert_eq!(peers.get(alice).unwrap().rooms, vec!["a", "b"]);
    assert_eq!(leave_peer_room(&mut peers, alice, "a"), Ok(()));
    assert_eq!(leave_peer_room(&mut peers, alice, "zzz"), Ok(()));
    assert_eq!(peers.get(alice).unwrap().rooms, vec!["b"]);
    assert_eq!(
        leave_peer_room(&mut peers, nobody, "a"),
        Err(client_error("Session not found."))
    );
    assert_eq!(
        join_peer_room(&mut peers, nobody, "a".to_string()),
        Err(session_not_found_error())
    );
    assert_eq!(
        peer_is_in_room(&peers, nobody, "a"),
        Err(session_not_found_error())
    );
    assert_eq!(
        set_authenticated_peer(&mut peers, alice, "bob".to_string()),
        Ok(Some(("alice".to_string(), vec!["b".to_string()])))
    );
    assert_eq!(clear_peer_authentication(&mut peers, alice), Ok(None));
    assert_eq!(peers.get(alice).unwrap().login, "anonymous");
    assert_eq!(
        clear_peer_authentication(&mut peers, nobody),
        Err(session_not_found_error())
    );
    assert_eq!(lock_peer_error(), client_error("Internal server error."));
    assert!(peers.remove(alice).is_some());
    assert!(peers.remove(alice).is_none());
}

#[test]
fn texts_are_sent_to_those_who_are_there() {
    let alice = test_addr(1);
    let bob = test_addr(2);
    let peers = make_peer_map(vec![(alice, "alice", vec!["a"]), (bob, "bob", vec!["a", "b"])]);
    let out = send_server_message(&peers, alice, &ServerMessage::LogoutOk).unwrap();
    assert_eq!(sent_to(&out, alice), vec![r#""LogoutOk""#]);
    assert!(send_server_message(&peers, test_addr(9), &ServerMessage::LogoutOk).unwrap().is_empty());
    assert!(matches!(
        send_server_message(&peers, alice, &ServerMessage::LoginOk { login: "".to_string() }),
        Err(ProtocolError::FieldEmpty { field: "login" })
    ));
    let out = send_room_list(&peers, alice, vec!["a".to_string()]).ok().unwrap();
    assert_eq!(sent_to(&out, alice), vec![r#"{"RoomList":{"rooms":["a"]}}"#]);
    assert!(send_room_list(&peers, alice, vec!["".to_string()]).is_err());
    let entry = HistoryEntry {
        id: 3,
        login: "bob".to_string(),
        timestamp: 4,
        message: "m".to_string(),
    };
    let out = send_history(&peers, alice, "a".to_string(), vec![entry], true).ok().unwrap();
    assert_eq!(
        sent_to(&out, alice),
        vec![r#"{"RoomHistory":{"room":"a","messages":[{"id":3,"login":"bob","timestamp":4,"message":"m"}],"has_more":true}}"#]
    );
    let mut id: u64 = u64::MAX;
    let out = broadcast_system_message(&peers, &mut id, alice, "a", "hey", 1_700_000_000);
    assert_eq!(out.ok().unwrap().text, notice(u64::MAX, "hey"));
    assert_eq!(id, 0);
    let out = broadcast_to_room(&peers, bob, "bob", "a", "m", 5, 6).ok().unwrap();
    assert_eq!(out.to, vec![alice]);
    let rooms = vec!["a".to_string(), "b".to_string()];
    let out = announce_room_departures(&peers, &mut id, alice, "alice", &rooms, 1_700_000_000);
    assert_eq!(
        sent_to(&out, bob),
        vec![notice(0, "alice left the room"), notice(1, "alice left the room")]
    );
    assert_eq!(id, 2);
}

#[test]
fn tables_map_keys_to_values() {
    let mut table: Table<IpKey, u8> = Table::new();
    table.insert(ip(1), 1);
    table.insert(ip(2), 2);
    table.insert(ip(1), 3);
    assert_eq!(table.len(), 2);
    assert_eq!(table.get(ip(1)), Some(&3));
    assert_eq!(table.remove(ip(2)), Some(2));
    assert_eq!(table.get(ip(2)), None);
    assert_eq!(table.at(0), &(ip(1), 3));
    assert!(ip(1).same(&ip(1)));
    assert!(!test_addr(1).same(&test_addr(2)));
}

#[test]
fn account_tasks_are_limited() {
    let mut tasks = AccountTasks::new();
    for _ in 0..MAX_CONCURRENT_ACCOUNT_TASKS {
        assert!(tasks.try_acquire());
    }
    assert!(!tasks.try_acquire());
    tasks.release();
    assert!(tasks.try_acquire());
}

#[test]
fn configuration_is_resolved() {
    let s = |t: &str| t.to_string();
    assert_eq!(database_path(Some(s("a.db")), Some(s("b.db"))), "a.db");
    assert_eq!(database_path(None, Some(s("b.db"))), "b.db");
    assert_eq!(database_path(None, None), "chatter.db");
    assert_eq!(bind_address(s("127.0.0.1"), 8080, None, None), "127.0.0.1:8080");
    assert_eq!(
        bind_address(s("127.0.0.1"), 8080, Some(s("0.0.0.0")), Some(s("9000"))),
        "0.0.0.0:9000"
    );
    assert_eq!(bind_address(s("h"), 1, None, Some(s("70000"))), "h:1");
    for t in ["", "+", "0", "8080", "+80", "65535", "65536", "-1", "8a", "00000000000080", " 1",
        "99999999999999999999"]
    {
        assert_eq!(parse_port(t), t.parse::<u16>().ok(), "{}", t);
    }
}

#[test]
fn work_for_the_database_is_resumed() {
    let alice = test_addr(1);
    let bob = test_addr(2);
    let mut server = server_with(vec![
        (alice, "anonymous", vec![]),
        (bob, "bob", vec!["general"]),
    ]);
    let created = Done::AccountInserted { login: "alice".to_string(), created: Some(true) };
    let step = server.resume(alice, created, clock(0));
    assert_eq!(
        sent_to(&step.outgoing, alice),
        vec![r#"{"AccountCreated":{"login":"alice"}}"#]
    );
    let verified =
        Done::CredentialsVerified { login: "alice".to_string(), verified: Some(true) };
    let step = server.resume(alice, verified, clock(0));
    assert!(matches!(step.task, Some(Task::GetRooms)));
    let rooms = Done::RoomsListed { rooms: Some(vec!["general".to_string()]) };
    let step = server.resume(alice, rooms, clock(0));
    assert_eq!(
        sent_to(&step.outgoing, alice),
        vec![r#"{"RoomList":{"rooms":["general"]}}"#]
    );
    let stored = Done::MessageStored {
        room: "general".to_string(),
        login: "alice".to_string(),
        message: "hi".to_string(),
        stored: Some((3, false)),
    };
    let step = server.resume(alice, stored, clock(0));
    assert_eq!(step.outgoing[0].to, vec![bob]);
    let page = Done::HistoryLoaded {
        room: "general".to_string(),
        page: Some((vec![], false)),
    };
    let step = server.resume(alice, page, clock(0));
    assert_eq!(
        sent_to(&step.outgoing, alice),
        vec![r#"{"RoomHistory":{"room":"general","messages":[],"has_more":false}}"#]
    );
    let failed = Done::HistoryLoaded { room: "general".to_string(), page: None };
    assert!(server.resume(alice, failed, clock(0)).outgoing.is_empty());
    let failed = Done::RoomsListed { rooms: None };
    assert!(server.resume(alice, failed, clock(0)).outgoing.is_empty());
    let failed = Done::ChangedRoomsListed { rooms: None };
    assert!(server.resume(alice, failed, clock(0)).outgoing.is_empty());
}

#[test]
fn users_are_told_when_rooms_change() {
    let alice = test_addr(1);
    let bob = test_addr(2);
    let nobody = test_addr(3);
    let gone = test_addr(4);
    let mut server = server_with(vec![
        (alice, "alice", vec!["new"]),
        (bob, "bob", vec!["general"]),
        (nobody, RESERVED_ANONYMOUS_LOGIN, vec![]),
        (gone, "", vec![]),
    ]);
    let message = ClientMessage::SendMessage {
        room: "new".to_string(),
        message: "hi".to_string(),
    };
    let step = server.process_data(message, alice, clock(0));
    assert!(matches!(step.task, Some(Task::InsertMessage { ref room, .. }) if room == "new"));
    let stored = |room: &str, stored| Done::MessageStored {
        room: room.to_string(),
        login: "alice".to_string(),
        message: "hi".to_string(),
        stored,
    };
    let step = server.resume(alice, stored("new", Some((7, true))), clock(0));
    assert_eq!(step.outgoing.len(), 1);
    assert!(matches!(step.task, Some(Task::GetChangedRooms)));
    let rooms = room_list(&vec!["new".to_string()]);
    let changed = Done::ChangedRoomsListed { rooms: Some(rooms) };
    let step = server.resume(alice, changed, clock(0));
    assert!(step.task.is_none());
    assert_eq!(step.outgoing.len(), 1);
    assert_eq!(
        step.outgoing[0].text,
        r#"{"RoomList":{"rooms":["general","random","france","new"]}}"#
    );
    let mut to = step.outgoing[0].to.clone();
    to.sort_by_key(|a| a.port);
    assert_eq!(to, vec![alice, bob]);

    // The list only changes with the first message of a room that is not always there.
    for (room, result) in [
        ("new", Some((8, false))),
        ("new", None),
        ("general", Some((9, true))),
        ("random", Some((10, true))),
        ("france", Some((11, true))),
    ] {
        assert!(server.resume(alice, stored(room, result), clock(0)).task.is_none());
    }
    let later = server.resume(bob, stored("General", Some((12, true))), clock(0));
    assert!(matches!(later.task, Some(Task::GetChangedRooms)));
    let broken = Done::ChangedRoomsListed { rooms: Some(vec!["bad\n".to_string()]) };
    assert!(server.resume(alice, broken, clock(0)).outgoing.is_empty());

    assert!(is_standing_room("general"));
    assert!(!is_standing_room("new"));
    let sent = broadcast_room_list(&server.peers, vec!["a".to_string()]).unwrap();
    assert_eq!(sent.to.len(), 2);
    assert_eq!(sent.text, r#"{"RoomList":{"rooms":["a"]}}"#);
}
