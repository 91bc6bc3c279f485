//! The rules for accounts and stored messages, around the database.
//!
//! A caller that holds the database runs `begin_insert_account`, looks the name
//! up, runs `new_password_hash`, inserts the row and runs `account_inserted`;
//! for a login it runs `may_verify`, looks the hash up and runs
//! `check_password`.

use vstd::prelude::*;
use vstd::string::*;

use super::peers::RESERVED_ANONYMOUS_LOGIN;
use crate::list::{add_missing, push_missing};
use crate::protocol::message::{
    entries, texts, HistoryEntry, HistoryEntryView, MAX_PASSWORD_LEN,
};
use crate::text::{byte_len, decimal, digit, has_prefix, same_text, text_len, u64_text};

verus! {

broadcast use vstd::string::group_string_axioms;

/// The work factor of new password hashes.
pub const HASH_COST: u32 = 12;

/// A hash that no password is known for. A login under an unknown name is held
/// against it, so that it takes as long as one under a known name.
pub const DUMMY_BCRYPT_HASH: &'static str =
    "$2b$12$C6UzMDM.H6dfI/f/IKcEe.7kcMRTwcbP4fjUu6zIlrC7L3Od1h7dW";

// ── Outside ─────────────────────────────────────────────────────────────

/// The error of the bcrypt functions, of which nothing is known here.
#[verifier::external_type_specification]
#[verifier::external_body]
pub struct ExBcryptError(bcrypt::BcryptError);

/// Whether a password fits a bcrypt hash; `None` where the hash cannot be read.
pub uninterp spec fn bcrypt_verdict(passwd: Seq<char>, hash: Seq<char>) -> Option<bool>;

/// How the hashes of a cost begin: with the mark of their version and the cost.
pub open spec fn hash_start(cost: u32) -> Seq<char> {
    "$2b$"@ + seq![digit((cost / 10) as nat), digit((cost % 10) as nat)] + "$"@
}

/// Hash a password with a random salt.
///
/// Calls `bcrypt::hash`. A hash is only made for a cost from 4 to 31; it is 60
/// characters long, begins with the mark of its version and the cost in two
/// digits, and the password that it was made of fits it. Nothing is claimed of
/// when hashing fails for lack of randomness.
#[verifier::external_body]
fn bcrypt_hash(passwd: &str, cost: u32) -> (r: Result<String, bcrypt::BcryptError>)
    ensures
        r matches Ok(hash) ==> 4 <= cost <= 31 && hash@.len() == 60 && has_prefix(
            hash@,
            hash_start(cost),
        ) && bcrypt_verdict(passwd@, hash@) == Some(true),
{
    bcrypt::hash(passwd, cost)
}

/// Hold a password against a hash.
///
/// Calls `bcrypt::verify`, whose result depends on the password and the hash alone.
#[verifier::external_body]
fn bcrypt_verify(passwd: &str, hash: &str) -> (r: Result<bool, bcrypt::BcryptError>)
    ensures
        match r {
            Ok(fits) => bcrypt_verdict(passwd@, hash@) == Some(fits),
            Err(_) => bcrypt_verdict(passwd@, hash@) is None,
        },
{
    bcrypt::verify(passwd, hash)
}

/// Overwrite a secret in memory.
///
/// Calls `zeroize::Zeroize::zeroize` on a `String`, which overwrites its bytes
/// and leaves it empty.
#[verifier::external_body]
fn wipe(secret: &mut String)
    ensures
        final(secret)@ == Seq::<char>::empty(),
{
    zeroize::Zeroize::zeroize(secret)
}

// ── New accounts ────────────────────────────────────────────────────────

/// Why an account could not be created.
#[derive(Debug, Clone, Copy, PartialEq, Eq)]
pub enum AccountError {
    /// The name is the server's sentinel.
    ReservedName,
    /// The password is longer than bcrypt can use.
    PasswordTooLong,
    /// The password could not be hashed.
    Hash,
    /// The database inserted an unexpected number of rows.
    RowCount { rows: usize },
    /// The database failed.
    Database,
}

impl AccountError {
    /// The error as a sentence.
    pub open spec fn text(self) -> Seq<char> {
        match self {
            AccountError::ReservedName => "Username 'anonymous' is reserved"@,
            AccountError::PasswordTooLong => "Password exceeds "@ + decimal(
                MAX_PASSWORD_LEN as nat,
            ) + " bytes"@,
            AccountError::Hash => "Failed to hash password"@,
            AccountError::RowCount { rows } => "Unexpected account insert row count: "@ + decimal(
                rows as nat,
            ),
            AccountError::Database => "Database error"@,
        }
    }

    /// The error as a sentence.
    pub fn to_string(&self) -> (t: String)
        ensures
            t@ == self.text(),
    {
        match self {
            AccountError::ReservedName => "Username 'anonymous' is reserved".to_owned(),
            AccountError::PasswordTooLong => {
                let mut t = "Password exceeds ".to_owned();
                t.append(u64_text(MAX_PASSWORD_LEN as u64).as_str());
                t.append(" bytes");
                t
            },
            AccountError::Hash => "Failed to hash password".to_owned(),
            AccountError::RowCount { rows } => {
                let mut t = "Unexpected account insert row count: ".to_owned();
                t.append(u64_text(*rows as u64).as_str());
                t
            },
            AccountError::Database => "Database error".to_owned(),
        }
    }
}

/// The rule for the password of an account.
pub open spec fn password_len_verdict(passwd: Seq<char>) -> Result<(), AccountError> {
    if byte_len(passwd) > MAX_PASSWORD_LEN {
        Err(AccountError::PasswordTooLong)
    } else {
        Ok(())
    }
}

pub fn validate_password_len(passwd: &str) -> (r: Result<(), AccountError>)
    ensures
        r == password_len_verdict(passwd@),
{
    if text_len(passwd) > MAX_PASSWORD_LEN {
        return Err(AccountError::PasswordTooLong);
    }
    Ok(())
}

/// The rules for a new account. The sentinel is not available: an account of
/// that name would be locked out of every authenticated action.
pub open spec fn account_verdict(name: Seq<char>, passwd: Seq<char>) -> Result<(), AccountError> {
    if name == "anonymous"@ {
        Err(AccountError::ReservedName)
    } else {
        password_len_verdict(passwd)
    }
}

/// Decide whether an account may be created. The password is wiped where it
/// may not.
pub fn begin_insert_account(name: &str, passwd: &mut String) -> (r: Result<(), AccountError>)
    ensures
        r == account_verdict(name@, old(passwd)@),
        final(passwd)@ == (if r is Ok {
            old(passwd)@
        } else {
            Seq::empty()
        }),
{
    if same_text(name, RESERVED_ANONYMOUS_LOGIN) {
        wipe(passwd);
        return Err(AccountError::ReservedName);
    }
    match validate_password_len(passwd.as_str()) {
        Ok(_) => Ok(()),
        Err(e) => {
            wipe(passwd);
            Err(e)
        },
    }
}

/// The error of hashing as an error of accounts.
pub fn hash_outcome(hashed: Result<String, bcrypt::BcryptError>) -> (r: Result<
    String,
    AccountError,
>)
    ensures
        match hashed {
            Ok(hash) => r == Ok::<String, AccountError>(hash),
            Err(_) => r == Err::<String, AccountError>(AccountError::Hash),
        },
{
    match hashed {
        Ok(hash) => Ok(hash),
        Err(_) => Err(AccountError::Hash),
    }
}

/// The hash to store for a new account, or `None` where the name is taken. The
/// password is wiped in any case.
pub fn new_password_hash(name_taken: bool, passwd: &mut String) -> (r: Result<
    Option<String>,
    AccountError,
>)
    ensures
        final(passwd)@ == Seq::<char>::empty(),
        r matches Ok(None) <==> name_taken,
        match r {
            Ok(Some(hash)) => lets_in(Some(hash@), old(passwd)@) && hash@.len() == 60
                && has_prefix(hash@, "$2b$12$"@),
            Ok(None) => true,
            Err(e) => e == AccountError::Hash,
        },
{
    if name_taken {
        wipe(passwd);
        return Ok(None);
    }
    let hashed = bcrypt_hash(passwd.as_str(), HASH_COST);
    proof {
        reveal_strlit("$2b$");
        reveal_strlit("$");
        reveal_strlit("$2b$12$");
        assert(hash_start(HASH_COST) =~= "$2b$12$"@);
    }
    wipe(passwd);
    match hash_outcome(hashed) {
        Ok(hash) => Ok(Some(hash)),
        Err(e) => Err(e),
    }
}

/// What the database made of the row of a new account.
#[derive(Debug, Clone, Copy, PartialEq, Eq)]
pub enum InsertOutcome {
    Rows { rows: usize },
    /// The name was taken in the meantime.
    NameTaken,
    Failed,
}

/// Whether a new account is there: `Ok(false)` where its name was taken. The
/// hash is wiped.
pub fn account_inserted(outcome: InsertOutcome, hash: &mut String) -> (r: Result<
    bool,
    AccountError,
>)
    ensures
        final(hash)@ == Seq::<char>::empty(),
        r == (match outcome {
            InsertOutcome::Rows { rows } => if rows == 1 {
                Ok(true)
            } else {
                Err(AccountError::RowCount { rows })
            },
            InsertOutcome::NameTaken => Ok(false),
            InsertOutcome::Failed => Err(AccountError::Database),
        }),
{
    wipe(hash);
    match outcome {
        InsertOutcome::Rows { rows } => {
            if rows == 1 {
                Ok(true)
            } else {
                Err(AccountError::RowCount { rows })
            }
        },
        InsertOutcome::NameTaken => Ok(false),
        InsertOutcome::Failed => Err(AccountError::Database),
    }
}

// ── Credentials ─────────────────────────────────────────────────────────

/// Whether a password can be that of any account. It is wiped where it cannot.
pub fn may_verify(passwd: &mut String) -> (b: bool)
    ensures
        b == (password_len_verdict(old(passwd)@) is Ok),
        final(passwd)@ == (if b {
            old(passwd)@
        } else {
            Seq::empty()
        }),
{
    match validate_password_len(passwd.as_str()) {
        Ok(_) => true,
        Err(_) => {
            wipe(passwd);
            false
        },
    }
}

/// Whether a stored hash, if there is one, lets a password in.
pub open spec fn lets_in(stored: Option<Seq<char>>, passwd: Seq<char>) -> bool {
    match stored {
        Some(hash) => bcrypt_verdict(passwd, hash) == Some(true),
        None => false,
    }
}

/// Whether a login succeeds: its password can be that of an account, and the
/// hash stored for the name lets it in.
pub open spec fn is_let_in(stored: Option<Seq<char>>, passwd: Seq<char>) -> bool {
    password_len_verdict(passwd) is Ok && lets_in(stored, passwd)
}

/// What the comparison with a hash means for a login: a hash that cannot be
/// read lets nobody in.
pub fn verify_outcome(verified: Result<bool, bcrypt::BcryptError>) -> (b: bool)
    ensures
        b == (verified matches Ok(fits) && fits),
{
    match verified {
        Ok(fits) => fits,
        Err(_) => false,
    }
}

/// Hold a password against the hash stored for a name. The password is wiped.
pub fn check_password(stored: Option<String>, passwd: &mut String) -> (b: bool)
    ensures
        b == lets_in(
            match stored {
                Some(hash) => Some(hash@),
                None => None,
            },
            old(passwd)@,
        ),
        final(passwd)@ == Seq::<char>::empty(),
{
    let verified = match stored {
        Some(hash) => verify_outcome(bcrypt_verify(passwd.as_str(), hash.as_str())),
        None => {
            let _ = bcrypt_verify(passwd.as_str(), DUMMY_BCRYPT_HASH);
            false
        },
    };
    wipe(passwd);
    verified
}

// ── Rooms and history ───────────────────────────────────────────────────

/// The rooms that are always there.
pub open spec fn standing_rooms() -> Seq<Seq<char>> {
    seq!["general"@, "random"@, "france"@]
}

/// Whether a room is always there.
pub fn is_standing_room(room: &str) -> (b: bool)
    ensures
        b == standing_rooms().contains(room@),
{
    let found = same_text(room, "general") || same_text(room, "random") || same_text(room, "france");
    proof {
        assert(standing_rooms()[0] == "general"@);
        assert(standing_rooms()[1] == "random"@);
        assert(standing_rooms()[2] == "france"@);
    }
    found
}

/// The rooms to offer: those that are always there, then the others that hold
/// messages.
pub fn room_list(stored: &Vec<String>) -> (rooms: Vec<String>)
    ensures
        texts(rooms@) == add_missing(standing_rooms(), texts(stored@)),
{
    let mut rooms: Vec<String> = Vec::new();
    rooms.push("general".to_owned());
    rooms.push("random".to_owned());
    rooms.push("france".to_owned());
    proof {
        assert(texts(rooms@) =~= standing_rooms());
    }
    push_missing(&mut rooms, stored);
    rooms
}

/// How many rows to ask the database for: one more than a page holds, so that
/// it shows whether there are more.
pub fn page_query_limit(limit: usize) -> (n: i64)
    ensures
        n == (if limit < i64::MAX {
            limit + 1
        } else {
            i64::MAX as int
        }),
{
    if (limit as u128) < i64::MAX as u128 {
        limit as i64 + 1
    } else {
        i64::MAX
    }
}

/// Whether the message with an id stands before a cursor.
pub open spec fn is_before(id: int, cursor: Option<u64>) -> bool {
    match cursor {
        Some(c) => id < c,
        None => true,
    }
}

/// The cursor as the database can compare it with its ids, which are signed. A
/// cursor above all ids leaves none out.
pub fn cursor_bound(cursor: Option<u64>) -> (bound: Option<i64>)
    ensures
        forall|id: i64|
            #[trigger] is_before(id as int, cursor) <==> (bound is None || id < bound->0),
        bound is Some ==> cursor == Some(bound->0 as u64) && bound->0 >= 0,
{
    match cursor {
        Some(c) => {
            if c <= i64::MAX as u64 {
                Some(c as i64)
            } else {
                None
            }
        },
        None => None,
    }
}

/// A page of a room's history, oldest message first, of the rows that the
/// database returned, newest first; and whether there are older messages.
pub open spec fn page_of(rows: Seq<HistoryEntryView>, limit: nat) -> (Seq<HistoryEntryView>, bool) {
    if rows.len() > limit {
        (rows.take(limit as int).reverse(), true)
    } else {
        (rows.reverse(), false)
    }
}

/// Make a page of the rows that the database returned.
pub fn history_page(rows: Vec<HistoryEntry>, limit: usize) -> (page: (Vec<HistoryEntry>, bool))
    ensures
        (entries(page.0@), page.1) == page_of(entries(rows@), limit as nat),
{
    let ghost all = entries(rows@);
    let has_more = rows.len() > limit;
    let mut rows = rows;
    if has_more {
        rows.truncate(limit);
    }
    let ghost kept = entries(rows@);
    proof {
        if has_more {
            assert(kept =~= all.take(limit as int));
        }
    }
    let mut page: Vec<HistoryEntry> = Vec::new();
    proof {
        assert(kept.skip(kept.len() as int) =~= Seq::empty());
        assert(entries(page@) =~= Seq::empty());
    }
    while rows.len() > 0
        invariant
            rows@.len() <= kept.len(),
            entries(rows@) == kept.take(rows@.len() as int),
            entries(page@) == kept.skip(rows@.len() as int).reverse(),
        decreases rows.len(),
    {
        let ghost n = rows@.len() as int;
        proof {
            assert(entries(rows@)[n - 1] == rows@[n - 1]@);
        }
        match rows.pop() {
            Some(entry) => {
                proof {
                    assert(entries(rows@) =~= kept.take(n - 1));
                    assert(entry@ == kept[n - 1]);
                }
                page.push(entry);
                proof {
                    assert(kept.skip(n - 1).reverse() =~= kept.skip(n).reverse().push(
                        kept[n - 1],
                    ));
                    assert(entries(page@) =~= kept.skip(n - 1).reverse());
                }
            },
            None => {},
        }
    }
    proof {
        assert(kept.skip(0) =~= kept);
    }
    (page, has_more)
}

} // verus!
