use chatter::protocol::message::{HistoryEntry, MAX_PASSWORD_LEN};
use chatter::server::account::{
    account_inserted, begin_insert_account, check_password, cursor_bound, hash_outcome,
    history_page, may_verify, new_password_hash, page_query_limit, room_list,
    validate_password_len, verify_outcome, AccountError, InsertOutcome, DUMMY_BCRYPT_HASH,
    HASH_COST,
};
use rusqlite::Connection;

/// A database in memory under the rules of the library.
struct Account {
    conn: Connection,
}

fn test_account() -> Account {
    let conn = Connection::open_in_memory().unwrap();
    conn.execute(
        "CREATE TABLE account (name TEXT NOT NULL PRIMARY KEY, passwd TEXT NOT NULL)",
        [],
    )
    .unwrap();
    conn.execute(
        "CREATE TABLE messages (id INTEGER PRIMARY KEY AUTOINCREMENT, room TEXT NOT NULL,
         sender TEXT NOT NULL, content TEXT NOT NULL,
         timestamp INTEGER NOT NULL DEFAULT (unixepoch()))",
        [],
    )
    .unwrap();
    Account { conn }
}

impl Account {
    fn insert_account(&self, name: String, mut passwd: String) -> Result<bool, AccountError> {
        begin_insert_account(&name, &mut passwd)?;
        let taken: bool = self
            .conn
            .query_row(
                "SELECT EXISTS(SELECT 1 FROM account WHERE name = ?1)",
                [&name],
                |row| row.get(0),
            )
            .unwrap();
        let mut hash = match new_password_hash(taken, &mut passwd)? {
            Some(hash) => hash,
            None => return Ok(false),
        };
        assert!(passwd.is_empty());
        let rows = self
            .conn
            .execute("INSERT INTO account (name, passwd) VALUES (?1, ?2)", [&name, &hash])
            .unwrap();
        account_inserted(InsertOutcome::Rows { rows }, &mut hash)
    }

    fn stored_hash(&self, name: &str) -> Option<String> {
        self.conn
            .query_row("SELECT passwd FROM account WHERE name = ?1", [name], |row| row.get(0))
            .ok()
    }

    fn verify_credentials(&self, name: String, mut passwd: String) -> bool {
        if !may_verify(&mut passwd) {
            return false;
        }
        check_password(self.stored_hash(&name), &mut passwd)
    }

    fn count(&self, query: &str) -> i64 {
        self.conn.query_row(query, [], |row| row.get(0)).unwrap()
    }

    fn insert_message(&self, room: &str, sender: &str, content: &str) -> u64 {
        self.conn
            .execute(
                "INSERT INTO messages (room, sender, content) VALUES (?1, ?2, ?3)",
                [room, sender, content],
            )
            .unwrap();
        self.conn.last_insert_rowid() as u64
    }

    fn get_room_history(
        &self,
        room: &str,
        cursor: Option<u64>,
        limit: usize,
    ) -> (Vec<HistoryEntry>, bool) {
        let mut stmt = self
            .conn
            .prepare(
                "SELECT id, sender, content, timestamp FROM messages
                 WHERE room = ?1 AND (?2 IS NULL OR id < ?2) ORDER BY id DESC LIMIT ?3",
            )
            .unwrap();
        let rows: Vec<HistoryEntry> = stmt
            .query_map((room, cursor_bound(cursor), page_query_limit(limit)), |row| {
                let id: i64 = row.get(0)?;
                Ok(HistoryEntry {
                    id: id as u64,
                    login: row.get(1)?,
                    message: row.get(2)?,
                    timestamp: row.get(3)?,
                })
            })
            .unwrap()
            .map(|row| row.unwrap())
            .collect();
        history_page(rows, limit)
    }

    fn get_rooms(&self) -> Vec<String> {
        let mut stmt = self
            .conn
            .prepare("SELECT DISTINCT room FROM messages ORDER BY room")
            .unwrap();
        let stored: Vec<String> = stmt
            .query_map([], |row| row.get(0))
            .unwrap()
            .map(|row| row.unwrap())
            .collect();
        room_list(&stored)
    }
}

#[test]
fn test_insert_account_success() {
    let account = test_account();
    let result = account.insert_account("alice".to_string(), "password123".to_string());
    assert!(result.unwrap());
}

#[test]
fn test_insert_account_stores_hashed_password() {
    let account = test_account();
    account.insert_account("bob".to_string(), "secret".to_string()).unwrap();

    let stored_hash = account.stored_hash("bob").unwrap();
    assert!(stored_hash.starts_with("$2a$") || stored_hash.starts_with("$2b$"));
    assert_ne!(stored_hash, "secret");
    assert_eq!(stored_hash.len(), 60);
}

#[test]
fn test_insert_account_rejects_duplicate() {
    let account = test_account();
    let created = account.insert_account("alice".to_string(), "pass1".to_string()).unwrap();
    assert!(created);

    let result = account.insert_account("alice".to_string(), "pass2".to_string());
    assert!(!result.unwrap());
    assert_eq!(account.count("SELECT COUNT(*) FROM account WHERE name = 'alice'"), 1);
}

#[test]
fn test_insert_account_rejects_reserved_anonymous() {
    let account = test_account();
    let result = account.insert_account("anonymous".to_string(), "password123".to_string());
    assert!(result.is_err());
    assert_eq!(account.count("SELECT COUNT(*) FROM account WHERE name = 'anonymous'"), 0);
}

#[test]
fn test_insert_account_rejects_overlong_password() {
    let account = test_account();
    let password = "x".repeat(MAX_PASSWORD_LEN + 1);
    let result = account.insert_account("alice".to_string(), password);

    assert!(result.is_err());
}

#[test]
fn test_insert_multiple_accounts() {
    let account = test_account();
    account.insert_account("alice".to_string(), "pass1".to_string()).unwrap();
    account.insert_account("bob".to_string(), "pass2".to_string()).unwrap();
    account.insert_account("charlie".to_string(), "pass3".to_string()).unwrap();

    assert_eq!(account.count("SELECT COUNT(*) FROM account"), 3);
}

#[test]
fn test_verify_credentials_correct() {
    let account = test_account();
    account.insert_account("alice".to_string(), "password123".to_string()).unwrap();
    assert!(account.verify_credentials("alice".to_string(), "password123".to_string()));
}

#[test]
fn test_verify_credentials_wrong_password() {
    let account = test_account();
    account.insert_account("alice".to_string(), "password123".to_string()).unwrap();
    assert!(!account.verify_credentials("alice".to_string(), "wrongpassword".to_string()));
}

#[test]
fn test_verify_credentials_nonexistent_user() {
    let account = test_account();
    assert!(!account.verify_credentials("nobody".to_string(), "password".to_string()));
}

#[test]
fn test_verify_credentials_empty_password() {
    let account = test_account();
    account.insert_account("alice".to_string(), "realpass".to_string()).unwrap();
    assert!(!account.verify_credentials("alice".to_string(), "".to_string()));
}

#[test]
fn test_verify_credentials_rejects_overlong_password() {
    let account = test_account();
    account.insert_account("alice".to_string(), "realpass".to_string()).unwrap();

    let password = "x".repeat(MAX_PASSWORD_LEN + 1);
    assert!(!account.verify_credentials("alice".to_string(), password));
}

#[test]
fn test_verify_credentials_case_sensitive() {
    let account = test_account();
    account.insert_account("alice".to_string(), "Password".to_string()).unwrap();
    assert!(!account.verify_credentials("alice".to_string(), "password".to_string()));
    assert!(account.verify_credentials("alice".to_string(), "Password".to_string()));
}

#[test]
fn test_get_room_history_empty_room() {
    let account = test_account();
    let (history, has_more) = account.get_room_history("general", None, 50);
    assert!(history.is_empty());
    assert!(!has_more);
}

#[test]
fn test_get_room_history_returns_messages() {
    let account = test_account();
    account.insert_message("general", "alice", "First");
    account.insert_message("general", "bob", "Second");

    let (history, _) = account.get_room_history("general", None, 50);
    assert_eq!(history.len(), 2);
    assert_eq!(history[0].message, "First");
    assert_eq!(history[1].message, "Second");
}

#[test]
fn test_get_room_history_returns_structured_entries() {
    let account = test_account();
    account.insert_message("general", "alice", "Hello");

    let (history, _) = account.get_room_history("general", None, 50);
    let msg = &history[0];
    assert_eq!(msg.login, "alice");
    assert_eq!(msg.message, "Hello");
    assert!(msg.timestamp > 0);
}

#[test]
fn test_get_room_history_limit() {
    let account = test_account();
    for i in 0..10 {
        account.insert_message("general", "user", &format!("msg{}", i));
    }

    let (history, has_more) = account.get_room_history("general", None, 3);
    assert_eq!(history.len(), 3);
    assert_eq!(history[0].message, "msg7");
    assert_eq!(history[1].message, "msg8");
    assert_eq!(history[2].message, "msg9");
    assert!(has_more);
}

#[test]
fn test_get_room_history_chronological_order() {
    let account = test_account();
    account.insert_message("general", "alice", "A");
    account.insert_message("general", "bob", "B");
    account.insert_message("general", "charlie", "C");

    let (history, _) = account.get_room_history("general", None, 50);
    assert_eq!(history.len(), 3);
    assert_eq!(history[0].message, "A");
    assert_eq!(history[1].message, "B");
    assert_eq!(history[2].message, "C");
}

#[test]
fn test_get_room_history_different_rooms() {
    let account = test_account();
    account.insert_message("general", "alice", "General msg");
    account.insert_message("random", "bob", "Random msg");

    let (general_history, _) = account.get_room_history("general", None, 50);
    let (random_history, _) = account.get_room_history("random", None, 50);

    assert_eq!(general_history.len(), 1);
    assert_eq!(general_history[0].message, "General msg");
    assert_eq!(random_history.len(), 1);
    assert_eq!(random_history[0].message, "Random msg");
}

#[test]
fn test_get_rooms_default() {
    let account = test_account();
    let rooms = account.get_rooms();
    assert!(rooms.contains(&"general".to_string()));
    assert!(rooms.contains(&"random".to_string()));
    assert!(rooms.contains(&"france".to_string()));
    assert!(rooms.len() >= 3);
}

#[test]
fn test_get_rooms_includes_message_rooms() {
    let account = test_account();
    account.insert_message("custom-room", "alice", "Hello");

    let rooms = account.get_rooms();
    assert!(rooms.contains(&"custom-room".to_string()));
    assert!(rooms.contains(&"general".to_string()));
}

#[test]
fn test_get_rooms_no_duplicates() {
    let account = test_account();
    account.insert_message("general", "alice", "Hello");

    let rooms = account.get_rooms();
    let general_count = rooms.iter().filter(|r| *r == "general").count();
    assert_eq!(general_count, 1);
}

#[test]
fn test_full_auth_flow() {
    let account = test_account();
    account.insert_account("alice".to_string(), "password123".to_string()).unwrap();
    assert!(account.verify_credentials("alice".to_string(), "password123".to_string()));
    assert!(!account.verify_credentials("alice".to_string(), "wrong".to_string()));
    assert!(!account.verify_credentials("nobody".to_string(), "password".to_string()));
}

#[test]
fn test_full_chat_flow() {
    let account = test_account();
    account.insert_message("general", "alice", "Hello everyone!");
    account.insert_message("general", "bob", "Hi Alice!");

    let (history, _) = account.get_room_history("general", None, 50);
    assert_eq!(history.len(), 2);
    assert_eq!(history[0].login, "alice");
    assert_eq!(history[1].login, "bob");

    let rooms = account.get_rooms();
    assert!(rooms.contains(&"general".to_string()));
}

#[test]
fn pages_join_up() {
    let account = test_account();
    let ids: Vec<u64> =
        (0..7).map(|i| account.insert_message("general", "u", &format!("{}", i))).collect();
    let mut cursor: Option<u64> = None;
    let mut seen: Vec<u64> = Vec::new();
    let mut pages = 0;
    loop {
        let (page, has_more) = account.get_room_history("general", cursor, 3);
        pages += 1;
        let mut now: Vec<u64> = page.iter().map(|e| e.id).collect();
        cursor = Some(now[0]);
        now.extend(seen);
        seen = now;
        if !has_more {
            break;
        }
    }
    assert_eq!(pages, 3);
    assert_eq!(seen, ids);
}

#[test]
fn errors_of_accounts() {
    let mut passwd = "password".to_string();
    assert_eq!(
        begin_insert_account("anonymous", &mut passwd),
        Err(AccountError::ReservedName)
    );
    assert_eq!(passwd, "");
    let mut long = "x".repeat(73);
    assert_eq!(
        begin_insert_account("bob", &mut long),
        Err(AccountError::PasswordTooLong)
    );
    assert_eq!(long, "");
    let mut fine = "x".repeat(72);
    assert_eq!(begin_insert_account("bob", &mut fine), Ok(()));
    assert_eq!(fine.len(), 72);
    let mut new = "password123".to_string();
    let hash = new_password_hash(false, &mut new).unwrap().unwrap();
    assert_eq!(new, "");
    assert_eq!(hash.len(), 60);
    assert!(hash.starts_with("$2b$12$"));
    assert_eq!(new_password_hash(true, &mut fine), Ok(None));
    assert_eq!(fine, "");
    assert_eq!(validate_password_len(&"x".repeat(73)), Err(AccountError::PasswordTooLong));

    let mut hash = "h".to_string();
    assert_eq!(account_inserted(InsertOutcome::Rows { rows: 1 }, &mut hash), Ok(true));
    assert_eq!(hash, "");
    assert_eq!(
        account_inserted(InsertOutcome::Rows { rows: 2 }, &mut hash),
        Err(AccountError::RowCount { rows: 2 })
    );
    assert_eq!(account_inserted(InsertOutcome::NameTaken, &mut hash), Ok(false));
    assert_eq!(
        account_inserted(InsertOutcome::Failed, &mut hash),
        Err(AccountError::Database)
    );
    assert_eq!(hash_outcome(Ok("h".to_string())), Ok("h".to_string()));
    assert_eq!(
        hash_outcome(bcrypt::hash("p", 3)),
        Err(AccountError::Hash)
    );

    assert_eq!(
        AccountError::ReservedName.to_string(),
        "Username 'anonymous' is reserved"
    );
    assert_eq!(AccountError::PasswordTooLong.to_string(), "Password exceeds 72 bytes");
    assert_eq!(AccountError::Hash.to_string(), "Failed to hash password");
    assert_eq!(
        AccountError::RowCount { rows: 2 }.to_string(),
        "Unexpected account insert row count: 2"
    );
    assert_eq!(AccountError::Database.to_string(), "Database error");
}

#[test]
fn unreadable_hashes_let_nobody_in() {
    let mut passwd = "password".to_string();
    assert!(!check_password(Some("no hash".to_string()), &mut passwd));
    assert_eq!(passwd, "");
    assert!(!verify_outcome(bcrypt::verify("p", "no hash")));
    assert!(verify_outcome(Ok(true)));
    assert!(!verify_outcome(Ok(false)));

    let known = bcrypt::hash("password", 4).unwrap();
    let mut right = "password".to_string();
    assert!(check_password(Some(known), &mut right));
    assert_eq!(HASH_COST, bcrypt::DEFAULT_COST);
    assert!(bcrypt::verify("password", DUMMY_BCRYPT_HASH).is_ok());
}

#[test]
fn limits_and_cursors_fit_the_database() {
    assert_eq!(page_query_limit(100), 101);
    assert_eq!(page_query_limit(usize::MAX), i64::MAX);
    assert_eq!(cursor_bound(None), None);
    assert_eq!(cursor_bound(Some(5)), Some(5));
    assert_eq!(cursor_bound(Some(u64::MAX)), None);
    assert_eq!(room_list(&vec!["x".to_string(), "general".to_string()]), vec![
        "general", "random", "france", "x"
    ]);
}
