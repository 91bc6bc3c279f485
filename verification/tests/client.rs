use chatter::client::app::{
    action_result, ActionResult, EventOutcome, Prepared, SendOutcome,
};
use chatter::client::entry::{system_message, MessageEntry, MessageLog, MessageType, MAX_HISTORY};
use chatter::client::net::{
    connect_failed, heartbeat_step, read_step, reconnect_message, AppEvent, Heartbeat, ReadResult,
    ReadStep, ReconnectWaits,
};
use chatter::client::screen::Item;
use chatter::client::state::{
    action_request, default_rooms, App, AuthMode, ConnectionState, InputMode, PendingAction,
};
use chatter::client::url::override_url_port;
use chatter::client::utils::{
    date_separator_at, day_of, format_date_separator, format_timestamp_bubble, resolve_sender,
};
use chatter::protocol::error::ProtocolError;
use chatter::protocol::frame::{CloseInfo, Frame};
use chatter::protocol::message::{ClientMessage, Delivery, HistoryEntry, ServerMessage};

fn app() -> App {
    App::new("ws://localhost:8080".to_string(), None)
}

fn deliver(app: &mut App, message: ServerMessage) {
    app.handle_server_message(Delivery { id: 0, message });
}

fn chat(app: &mut App, id: u64, login: &str, room: &str, message: &str) {
    app.handle_server_message(Delivery {
        id,
        message: ServerMessage::IncomingMessage {
            login: login.to_string(),
            room: room.to_string(),
            message: message.to_string(),
            timestamp: 100,
        },
    });
}

fn entry(id: u64, login: &str, message: &str) -> HistoryEntry {
    HistoryEntry { id, login: login.to_string(), timestamp: 100, message: message.to_string() }
}

fn system_texts(app: &App) -> Vec<String> {
    app.messages
        .ordered()
        .iter()
        .filter_map(|e| match &e.msg_type {
            MessageType::System(t) => Some(t.clone()),
            MessageType::Chat => None,
        })
        .collect()
}

fn chat_texts(app: &App) -> Vec<String> {
    app.messages
        .ordered()
        .iter()
        .filter(|e| matches!(e.msg_type, MessageType::Chat))
        .map(|e| e.content.clone())
        .collect()
}

fn next_text(app: &mut App) -> String {
    match app.run_pending_action() {
        Some(Prepared::Send { text, .. }) => text,
        _ => panic!("expected a text to send"),
    }
}

fn logged_in() -> App {
    let mut app = app();
    deliver(&mut app, ServerMessage::LoginOk { login: "alice".to_string() });
    app.pending_actions.clear();
    app
}

#[test]
fn connection_state_helpers_are_correct() {
    assert!(!ConnectionState::Disconnected.is_connected());
    assert!(ConnectionState::LoggedIn { login: "a".into() }.is_logged_in());
}

#[test]
fn default_room_is_general() {
    assert_eq!(default_rooms(), vec!["general"]);
}

#[test]
fn override_port_replaces_existing_port() {
    assert_eq!(
        override_url_port("ws://localhost:8080", 9090),
        "ws://localhost:9090"
    );
}

#[test]
fn override_port_with_path() {
    assert_eq!(
        override_url_port("ws://localhost:8080/chat", 9090),
        "ws://localhost:9090/chat"
    );
}

#[test]
fn override_port_with_wss() {
    assert_eq!(
        override_url_port("wss://example.com:443/app", 8443),
        "wss://example.com:8443/app"
    );
}

#[test]
fn override_port_without_existing_port() {
    assert_eq!(
        override_url_port("ws://localhost/chat", 9090),
        "ws://localhost:9090/chat"
    );
}

#[test]
fn override_port_no_path_no_existing_port() {
    assert_eq!(override_url_port("ws://localhost", 9090), "ws://localhost:9090");
}

#[test]
fn override_port_with_ipv6() {
    assert_eq!(override_url_port("ws://[::1]:8080", 9090), "ws://[::1]:9090");
}

#[test]
fn no_port_override_unchanged() {
    assert_eq!(override_url_port("ws://localhost:8080", 0), "ws://localhost:0");
}

#[test]
fn bubble_uses_only_time() {
    let result = format_timestamp_bubble(1700000000);
    assert_eq!(result.len(), 5);
    assert_eq!(result.chars().nth(2), Some(':'));
}

#[test]
fn date_separator_returns_string() {
    let now = chrono::Utc::now().timestamp();
    let sep = format_date_separator(now);
    assert_eq!(sep, "Today");
}

#[test]
fn date_separator_yesterday() {
    let yesterday = chrono::Utc::now().timestamp() - 86400;
    let sep = format_date_separator(yesterday);
    assert_eq!(sep, "Yesterday");
}

#[test]
fn date_separator_old_date() {
    let old = 1609459200i64;
    let sep = format_date_separator(old);
    assert_eq!(sep, "01/01/2021");
}

// Exact values, each outcome, and the laws on concrete values.

#[test]
fn the_last_port_counts() {
    for url in ["ws://h", "ws://h/p", "ws://h:1", "ws://[::1]/x", "ws://[::1]", "h:80", "ws://h/a:b"]
    {
        assert_eq!(
            override_url_port(&override_url_port(url, 1), 2),
            override_url_port(url, 2)
        );
    }
    assert_eq!(override_url_port("localhost:80", 9), "localhost:80");
    assert_eq!(override_url_port("ws://[::1]/x", 9), "ws://[::1]:9/x");
    assert_eq!(override_url_port("ws://h/a]", 1), "ws://h:1/a]");
}

#[test]
fn times_and_dates() {
    assert_eq!(format_timestamp_bubble(1700000000), "22:13");
    assert_eq!(format_timestamp_bubble(-1), "23:59");
    assert_eq!(format_timestamp_bubble(0), "00:00");
    assert_eq!(format_timestamp_bubble(8_210_266_876_799), "23:59");
    assert_eq!(format_timestamp_bubble(8_210_266_876_800), "??:??");
    assert_eq!(format_timestamp_bubble(-8_334_601_228_800), "00:00");
    assert_eq!(format_timestamp_bubble(-8_334_601_228_801), "??:??");
    assert_eq!(format_timestamp_bubble(i64::MAX), "??:??");
    assert_eq!(date_separator_at(86_400, 86_400), "Today");
    assert_eq!(date_separator_at(86_399, 86_400), "Yesterday");
    assert_eq!(date_separator_at(-1, 86_400), "31/12/1969");
    assert_eq!(date_separator_at(172_800, 86_400), "03/01/1970");
    assert_eq!(date_separator_at(1609459200, 0), "01/01/2021");
    assert_eq!(date_separator_at(i64::MAX, 0), "Today");
    assert_eq!(format_date_separator(i64::MIN), "Today");
    assert_eq!(day_of(-1), -1);
    assert_eq!(day_of(-86_400), -1);
    assert_eq!(day_of(-86_401), -2);
    assert_eq!(day_of(86_399), 0);
    assert_eq!(resolve_sender("a", "a"), "You");
    assert_eq!(resolve_sender("a", "b"), "b");
}

#[test]
fn dates_follow_the_calendar() {
    let day = 86_400i64;
    assert_eq!(date_separator_at(951_782_400, 0), "29/02/2000");
    assert_eq!(date_separator_at(1_709_164_800, 0), "29/02/2024");
    assert_eq!(date_separator_at(-2_203_891_200, 0), "01/03/1900");
    assert_eq!(date_separator_at(-2_203_891_201, 0), "28/02/1900");
    assert_eq!(date_separator_at(-719_528 * day, 0), "01/01/0000");
    assert_eq!(date_separator_at(-719_528 * day - 1, 0), "31/12/-0001");
    assert_eq!(date_separator_at(2_932_897 * day - 1, 0), "31/12/9999");
    assert_eq!(date_separator_at(2_932_897 * day, 0), "01/01/+10000");
    assert_eq!(date_separator_at(-8_334_601_228_800, 0), "01/01/-262143");
    assert_eq!(date_separator_at(8_210_266_876_799, 0), "31/12/+262142");
    assert_eq!(format_date_separator(-86_401), "30/12/1969");
    for year in (-12_003i64..12_000).step_by(101) {
        let past = year - 1;
        let leaps = past.div_euclid(4) - past.div_euclid(100) + past.div_euclid(400);
        let mut first = 365 * past + leaps - 719_162;
        let leap = year % 4 == 0 && (year % 100 != 0 || year % 400 == 0);
        let shown = if (0..10_000).contains(&year) {
            format!("{year:04}")
        } else {
            format!("{year:+05}")
        };
        for (i, len) in [31, 28, 31, 30, 31, 30, 31, 31, 30, 31, 30, 31].iter().enumerate() {
            let len = if leap && i == 1 { 29 } else { *len };
            let month = i + 1;
            let now = 1_000_000 * day;
            let expected = format!("01/{month:02}/{shown}");
            assert_eq!(date_separator_at(first * day, now), expected);
            let expected = format!("{len:02}/{month:02}/{shown}");
            assert_eq!(date_separator_at((first + len) * day - 1, now), expected);
            first += len;
        }
    }
}

#[test]
fn lines_are_composed_and_sent() {
    let mut app = logged_in();
    app.input = "hello".to_string();
    assert!(!app.press_enter(true, 5));
    app.input.push_str("world");
    assert!(app.press_enter(false, 5));
    assert_eq!(app.messages.ordered()[0].content, "hello\nworld");
    assert_eq!(
        next_text(&mut app),
        r#"{"SendMessage":{"room":"general","message":"hello\nworld"}}"#
    );
}

#[test]
fn the_log_keeps_the_newest() {
    let mut log = MessageLog::new();
    for id in [5u64, 1, 9, 3] {
        log.insert(id, system_message(format!("{}", id)));
    }
    log.insert(5, system_message("five".to_string()));
    assert_eq!(log.len(), 4);
    log.keep_newest(2);
    let texts: Vec<String> = log
        .ordered()
        .iter()
        .map(|e| match &e.msg_type {
            MessageType::System(t) => t.clone(),
            MessageType::Chat => "chat".to_string(),
        })
        .collect();
    assert_eq!(texts, vec!["five", "9"]);
    log.keep_newest(7);
    assert_eq!(log.len(), 2);
    log.clear();
    assert_eq!(log.len(), 0);
}

#[test]
fn a_client_starts_on_the_splash_screen() {
    let app = App::new("ws://h".to_string(), Some("bob".to_string()));
    assert_eq!(app.input_mode, InputMode::Splash);
    assert_eq!(app.login, "bob");
    assert_eq!(app.login_input, "bob");
    assert_eq!(app.room, "general");
    assert_eq!(app.connection_state, ConnectionState::Connecting);
    assert_eq!(system_texts(&app), vec!["Connecting to server..."]);
    assert_eq!(app.system_message_id, 1000);
}

#[test]
fn logging_in_joins_the_first_room() {
    let mut app = app();
    deliver(&mut app, ServerMessage::LoginOk { login: "alice".to_string() });
    assert_eq!(app.login, "alice");
    assert_eq!(app.connection_state, ConnectionState::LoggedIn { login: "alice".to_string() });
    assert_eq!(app.input_mode, InputMode::Normal);
    assert_eq!(app.messages.len(), 0);
    assert_eq!(next_text(&mut app), r#"{"JoinRoom":{"room":"general"}}"#);
    assert_eq!(next_text(&mut app), r#"{"GetHistory":{"room":"general","cursor":null}}"#);
    assert!(app.run_pending_action().is_none());
}

#[test]
fn failures_are_shown() {
    let mut app = app();
    app.password_input = "x".to_string();
    deliver(&mut app, ServerMessage::LoginFailed { reason: "no".to_string() });
    assert_eq!(app.input_mode, InputMode::EnteringPassword);
    assert_eq!(app.password_input, "");
    assert_eq!(app.connection_state, ConnectionState::Connected);
    deliver(&mut app, ServerMessage::AccountCreationFailed { reason: "taken".to_string() });
    app.auth_mode = AuthMode::Register;
    deliver(&mut app, ServerMessage::AccountCreated { login: "bob".to_string() });
    assert_eq!(app.auth_mode, AuthMode::Login);
    assert_eq!(app.login_input, "bob");
    assert_eq!(app.input_mode, InputMode::EnteringLogin);
    deliver(&mut app, ServerMessage::Error {
        message: "Login required.".to_string(),
        code: "NOT_AUTHENTICATED".to_string(),
    });
    assert_eq!(app.input_mode, InputMode::Splash);
    deliver(&mut app, ServerMessage::LogoutOk);
    // A message that breaks the protocol is dropped.
    deliver(&mut app, ServerMessage::LoginOk { login: " ".to_string() });
    assert_eq!(
        system_texts(&app),
        vec![
            "Connecting to server...",
            "no",
            "taken",
            "Account created. Please login.",
            "[NOT_AUTHENTICATED] Login required."
        ]
    );
}

#[test]
fn messages_of_the_room_are_shown_once() {
    let mut app = logged_in();
    chat(&mut app, 5, "bob", "general", "hi");
    chat(&mut app, 5, "bob", "general", "hi");
    chat(&mut app, 6, "bob", "random", "elsewhere");
    chat(&mut app, 7, "alice", "general", "mine");
    chat(&mut app, 8, "Server", "system", "carol joined the room");
    assert_eq!(chat_texts(&app), vec!["hi", "mine"]);
    assert_eq!(system_texts(&app), vec!["carol joined the room"]);
    let shown = app.messages.ordered();
    assert_eq!((shown[0].sender.as_str(), shown[0].is_own), ("bob", false));
    assert_eq!((shown[1].sender.as_str(), shown[1].is_own), ("You", true));
    assert_eq!(app.message_offset, 2);
}

#[test]
fn only_so_many_messages_are_kept() {
    let mut app = logged_in();
    for id in 0..(MAX_HISTORY as u64 + 10) {
        chat(&mut app, id, "bob", "general", "x");
    }
    assert_eq!(app.messages.len(), MAX_HISTORY);
    assert_eq!(app.messages.ordered()[0].id, 10);
    assert_eq!(app.message_offset, MAX_HISTORY - 1);
}

#[test]
fn history_is_loaded_page_by_page() {
    let mut app = logged_in();
    deliver(&mut app, ServerMessage::RoomHistory {
        room: "general".to_string(),
        messages: vec![entry(11, "bob", "b"), entry(12, "alice", "c")],
        has_more: true,
    });
    assert_eq!(chat_texts(&app), vec!["b", "c"]);
    assert_eq!(system_texts(&app), vec!["Joined room 'general'"]);
    assert_eq!(app.oldest_message_id, Some(11));
    app.scroll_up();
    app.scrolled(true, false);
    assert!(app.loading_older);
    app.load_older();
    assert_eq!(next_text(&mut app), r#"{"GetHistory":{"room":"general","cursor":11}}"#);
    assert!(app.run_pending_action().is_none());
    deliver(&mut app, ServerMessage::RoomHistory {
        room: "general".to_string(),
        messages: vec![entry(9, "bob", "z"), entry(10, "bob", "a")],
        has_more: false,
    });
    assert_eq!(chat_texts(&app), vec!["z", "a", "b", "c"]);
    assert_eq!(app.oldest_message_id, Some(9));
    assert!(!app.loading_older && !app.has_more_history);
    app.scrolled(true, true);
    assert!(!app.has_scrolled_up);
    assert!(app.run_pending_action().is_none());
    deliver(&mut app, ServerMessage::RoomHistory {
        room: "random".to_string(),
        messages: vec![],
        has_more: true,
    });
    assert_eq!(app.messages.len(), 5);
    assert!(!app.has_more_history);
}

#[test]
fn rooms_are_listed_and_selected() {
    let mut app = logged_in();
    deliver(&mut app, ServerMessage::RoomList {
        rooms: vec!["random".to_string(), "general".to_string()],
    });
    assert_eq!(app.room_selected, 1);
    assert_eq!(app.room_label(0), ("#random".to_string(), false));
    assert_eq!(app.room_label(1), ("#general".to_string(), true));
    app.select_room(0);
    assert_eq!(app.room, "random");
    assert_eq!(app.room_title(), "# random");
    assert_eq!(next_text(&mut app), r#"{"LeaveRoom":{"room":"general"}}"#);
    assert_eq!(next_text(&mut app), r#"{"JoinRoom":{"room":"random"}}"#);
    assert_eq!(next_text(&mut app), r#"{"GetHistory":{"room":"random","cursor":null}}"#);
    app.select_room(0);
    assert!(app.run_pending_action().is_none());
    app.connection_state = ConnectionState::Connected;
    app.select_room(1);
    assert_eq!(app.room, "general");
    assert!(app.run_pending_action().is_none());
}

#[test]
fn own_messages_are_shown_and_sent() {
    let mut app = logged_in();
    app.input = "  hello ".to_string();
    assert!(!app.press_enter(true, 5));
    assert_eq!(app.input, "  hello \n");
    assert!(app.press_enter(false, 5));
    assert_eq!(app.input, "");
    let shown: Vec<&MessageEntry> = app.messages.ordered();
    assert_eq!(shown.len(), 1);
    assert_eq!(shown[0].content, "hello");
    assert_eq!(shown[0].sender, "You");
    assert_eq!(shown[0].timestamp, 5);
    assert!(shown[0].is_own);
    assert_eq!(next_text(&mut app), r#"{"SendMessage":{"room":"general","message":"hello"}}"#);
    app.input = " \n".to_string();
    app.submit_message(6);
    assert_eq!(app.input, " \n");
    assert!(app.run_pending_action().is_none());
}

#[test]
fn credentials_are_submitted() {
    let mut app = app();
    app.choose_auth(AuthMode::Register);
    assert_eq!(app.login_title(), "Create account");
    assert_eq!(app.input_mode, InputMode::EnteringLogin);
    app.leave_login(true, false);
    assert_eq!(app.input_mode, InputMode::EnteringPassword);
    app.leave_password(true, false);
    assert_eq!(
        system_texts(&app).last().unwrap(),
        "Login and password are required."
    );
    app.login_input = " bob ".to_string();
    app.password_input = "secret".to_string();
    app.leave_password(true, false);
    assert_eq!(
        next_text(&mut app),
        r#"{"CreateAccount":{"login":"bob","passwd":"secret"}}"#
    );
    app.choose_auth(AuthMode::Login);
    assert_eq!(app.login_title(), "Login");
    app.password_input = "secret".to_string();
    app.submit_credentials();
    assert_eq!(app.password_input, "");
    assert_eq!(next_text(&mut app), r#"{"Login":{"login":"bob","passwd":"secret"}}"#);
    app.password_input = "x".to_string();
    app.escape_auth();
    assert_eq!(app.password_input, "");
    assert_eq!(app.input_mode, InputMode::Splash);
    app.leave_login(true, true);
    assert_eq!(app.input_mode, InputMode::Splash);
}

#[test]
fn credentials_are_sent_again() {
    let mut app = app();
    app.login_input = "alice".to_string();
    app.password_input = "password123".to_string();
    app.submit_credentials();
    deliver(&mut app, ServerMessage::LoginOk { login: "alice".to_string() });
    let plan = match app.handle_event(AppEvent::Disconnected {
        close_code: Some(1001),
        close_reason: Some("bye".to_string()),
    }) {
        EventOutcome::Reconnect(plan) => plan,
        _ => panic!("expected a plan"),
    };
    assert_eq!(plan.url, "ws://localhost:8080");
    assert_eq!(
        reconnect_message(&plan.login, &plan.password),
        Some(r#"{"Login":{"login":"alice","passwd":"password123"}}"#.to_string())
    );
    assert_eq!(system_texts(&app).last().unwrap(), "Disconnected (code 1001): bye");
    assert_eq!(app.connection_state, ConnectionState::Disconnected);
    assert_eq!(app.input_mode, InputMode::Disconnected);
    assert_eq!(app.room, "");
    assert!(matches!(app.handle_event(AppEvent::Reconnected), EventOutcome::Nothing));
    assert_eq!(app.input_mode, InputMode::Normal);
    assert!(app.start_reconnect().is_none());
    assert!(app.request_reconnect().is_some());
}

#[test]
fn errors_of_the_connection_are_shown() {
    let mut app = app();
    app.password_input = "typed".to_string();
    app.login_input = "bob".to_string();
    let plan = match app.handle_event(AppEvent::ConnectionError { reason: "refused".to_string() }) {
        EventOutcome::Reconnect(plan) => plan,
        _ => panic!("expected a plan"),
    };
    assert_eq!(plan.login, Some("bob".to_string()));
    assert_eq!(plan.password, Some("typed".to_string()));
    assert_eq!(
        system_texts(&app),
        vec!["Connecting to server...", "Connection error: refused", "Disconnected"]
    );
    app.handle_reconnected();
    assert_eq!(app.input_mode, InputMode::Splash);
    assert!(matches!(
        app.handle_event(AppEvent::ReceivedMsg { data: Frame::Text("t".to_string()) }),
        EventOutcome::Read(ref t) if t == "t"
    ));
    assert!(matches!(
        app.handle_event(AppEvent::ReceivedMsg { data: Frame::Binary(vec![]) }),
        EventOutcome::Nothing
    ));
}

#[test]
fn nothing_is_sent_first_without_credentials() {
    let some = |t: &str| Some(t.to_string());
    assert_eq!(reconnect_message(&None, &some("p")), None);
    assert_eq!(reconnect_message(&some("a"), &None), None);
    assert_eq!(reconnect_message(&some(""), &some("p")), None);
    assert_eq!(reconnect_message(&some("a"), &some("")), None);
    assert_eq!(reconnect_message(&some("a"), &some("p\0")), None);
}

#[test]
fn actions_have_results() {
    assert!(matches!(action_result(SendOutcome::Sent, false), ActionResult::Sent));
    assert!(matches!(action_result(SendOutcome::Sent, true), ActionResult::Joined));
    assert!(matches!(
        action_result(SendOutcome::NotConnected, true),
        ActionResult::Failed(ref r) if r == "not connected"
    ));
    assert!(matches!(
        action_result(SendOutcome::Failed("io".to_string()), true),
        ActionResult::Failed(ref r) if r == "io"
    ));
    let mut app = app();
    app.handle_action_result(ActionResult::Failed("io".to_string()));
    app.handle_action_result(ActionResult::Sent);
    assert_eq!(system_texts(&app).last().unwrap(), "Action failed: io");
    app.queue_action(PendingAction::JoinRoom { room: "a b".to_string() });
    assert!(matches!(
        app.run_pending_action(),
        Some(Prepared::Refused { reason: ProtocolError::RoomCharacters })
    ));
    let (message, joined) = action_request(PendingAction::JoinRoom { room: "a".to_string() });
    assert!(joined && message == ClientMessage::JoinRoom { room: "a".to_string() });
}

#[test]
fn the_first_connection_is_noted() {
    let mut app = app();
    assert_eq!(app.status_text(), "Connecting...");
    assert_eq!(app.disconnected_text(), "Reconnecting...");
    app.note_connected();
    assert_eq!(app.status_text(), "Connected");
    assert_eq!(app.disconnected_text(), "The server connection was lost.");
    assert_eq!(system_texts(&app).last().unwrap(), "Connection established.");
    app.note_connected();
    assert_eq!(app.messages.len(), 2);
    deliver(&mut app, ServerMessage::LoginOk { login: "alice".to_string() });
    assert_eq!(app.status_text(), "Connected as alice");
    assert_eq!(app.avatar_letter(), 'A');
    app.sign_out();
    assert_eq!(app.avatar_letter(), 'U');
    assert_eq!(app.input_mode, InputMode::Splash);
    assert_eq!((app.login.as_str(), app.room.as_str()), ("", ""));
    assert_eq!(system_texts(&app), vec!["Connecting to server..."]);
    app.connection_state = ConnectionState::Disconnected;
    assert_eq!(app.status_text(), "Disconnected");
}

#[test]
fn days_are_separated() {
    let mut app = logged_in();
    let page = vec![
        HistoryEntry { id: 1, login: "bob".into(), timestamp: 60, message: "a".into() },
        HistoryEntry { id: 2, login: "alice".into(), timestamp: 120, message: "b".into() },
        HistoryEntry { id: 3, login: "bob".into(), timestamp: 86_400, message: "c".into() },
        HistoryEntry { id: 4, login: "bob".into(), timestamp: i64::MAX, message: "d".into() },
    ];
    deliver(&mut app, ServerMessage::RoomHistory {
        room: "general".to_string(),
        messages: page,
        has_more: false,
    });
    let bubble = |sender: &str, content: &str, time: &str, is_own: bool| Item::Bubble {
        sender: sender.to_string(),
        content: content.to_string(),
        time: time.to_string(),
        is_own,
    };
    assert_eq!(
        app.visible_items(86_500),
        vec![
            Item::Separator("Yesterday".to_string()),
            bubble("bob", "a", "00:01", false),
            bubble("", "b", "00:02", true),
            Item::Separator("Today".to_string()),
            bubble("bob", "c", "00:00", false),
            Item::Separator("Today".to_string()),
            bubble("bob", "d", "??:??", false),
            Item::System("Joined room 'general'".to_string()),
        ]
    );
}

#[test]
fn the_reader_decides() {
    assert!(matches!(
        read_step(ReadResult::Frame(Frame::Text("t".to_string()))),
        ReadStep::Report(AppEvent::ReceivedMsg { data: Frame::Text(ref t) }) if t == "t"
    ));
    assert!(matches!(read_step(ReadResult::Frame(Frame::Pong(vec![]))), ReadStep::Pong));
    assert!(matches!(read_step(ReadResult::Frame(Frame::Ping(vec![]))), ReadStep::Continue));
    let info = CloseInfo { code: 1000, reason: "ok".to_string() };
    assert!(matches!(
        read_step(ReadResult::Frame(Frame::Close(Some(info)))),
        ReadStep::Stop(AppEvent::Disconnected { close_code: Some(1000), close_reason: Some(ref r) })
            if r == "ok"
    ));
    assert!(matches!(
        read_step(ReadResult::Frame(Frame::Close(None))),
        ReadStep::Stop(AppEvent::Disconnected { close_code: None, close_reason: None })
    ));
    assert!(matches!(
        read_step(ReadResult::Failed("io".to_string())),
        ReadStep::Stop(AppEvent::ConnectionError { ref reason }) if reason == "io"
    ));
    assert!(matches!(
        read_step(ReadResult::Ended),
        ReadStep::Stop(AppEvent::Disconnected { close_code: None, close_reason: None })
    ));
}

#[test]
fn the_heartbeat_decides() {
    assert!(matches!(heartbeat_step(Heartbeat::Answered), (true, None)));
    assert!(matches!(heartbeat_step(Heartbeat::NoConnection), (false, None)));
    assert!(matches!(
        heartbeat_step(Heartbeat::PingFailed("io".to_string())),
        (false, Some(AppEvent::ConnectionError { ref reason })) if reason == "heartbeat ping failed: io"
    ));
    assert!(matches!(
        heartbeat_step(Heartbeat::TimedOut),
        (false, Some(AppEvent::ConnectionError { ref reason })) if reason == "heartbeat pong timed out"
    ));
    assert!(matches!(
        connect_failed(None),
        AppEvent::ConnectionError { ref reason } if reason == "connection timed out"
    ));
    assert!(matches!(
        connect_failed(Some("no".to_string())),
        AppEvent::ConnectionError { ref reason } if reason == "no"
    ));
}

#[test]
fn waits_to_connect_again_double() {
    let mut waits = ReconnectWaits::new();
    let secs: Vec<u64> = (0..8).map(|_| waits.next_wait()).collect();
    assert_eq!(secs, vec![1, 2, 4, 8, 16, 30, 30, 30]);
}
