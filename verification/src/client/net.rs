//! What the client makes of its connection: what it reads, its heartbeat, and
//! how it connects again.

use vstd::arithmetic::power2::{lemma2_to64, lemma_pow2_strictly_increases, lemma_pow2_unfold, pow2};
use vstd::prelude::*;
use vstd::string::*;

use crate::protocol::frame::Frame;
use crate::protocol::json::{client_json, serialize_client_message};
use crate::protocol::message::{ClientMessage, ClientMessageView};
use crate::protocol::validate::client_verdict;

verus! {

/// The most events that wait to be handled.
pub const EVENT_BUFFER_SIZE: usize = 256;

/// How long an attempt to connect may take.
pub const CONNECT_TIMEOUT_SECS: u64 = 10;

/// The time between two pings.
pub const HEARTBEAT_INTERVAL_SECS: u64 = 30;

/// How long the answer to a ping may take.
pub const HEARTBEAT_TIMEOUT_SECS: u64 = 10;

/// The wait before the first attempt to connect again.
pub const RECONNECT_BASE_SECS: u64 = 1;

/// The longest wait before an attempt to connect again.
pub const RECONNECT_MAX_SECS: u64 = 30;

/// Something that happened to the connection.
#[derive(Clone, Debug)]
pub enum AppEvent {
    ReceivedMsg { data: Frame },
    Disconnected { close_code: Option<u16>, close_reason: Option<String> },
    ConnectionError { reason: String },
    Reconnected,
}

/// The content of a text that may be missing.
pub open spec fn text_of(t: Option<String>) -> Option<Seq<char>> {
    match t {
        Some(t) => Some(t@),
        None => None,
    }
}

/// What the reader has to do next.
pub enum ReadStep {
    /// Report an event and read on.
    Report(AppEvent),
    /// The server has answered a ping. Read on.
    Pong,
    /// Read on.
    Continue,
    /// Report an event and stop reading.
    Stop(AppEvent),
}

/// What came from the connection.
pub enum ReadResult {
    Frame(Frame),
    /// Reading failed for the given reason.
    Failed(String),
    /// The connection is at its end.
    Ended,
}

/// Whether an event reports a lost connection with the given details.
pub open spec fn is_disconnect(e: AppEvent, code: Option<u16>, reason: Option<Seq<char>>) -> bool {
    e matches AppEvent::Disconnected { close_code, close_reason } && close_code == code && text_of(
        close_reason,
    ) == reason
}

/// Whether an event reports an error of the connection.
pub open spec fn is_error(e: AppEvent, reason: Seq<char>) -> bool {
    e matches AppEvent::ConnectionError { reason: r } && r@ == reason
}

/// Decide what to do with what came from the connection.
pub fn read_step(result: ReadResult) -> (step: ReadStep)
    ensures
        match result {
            ReadResult::Frame(Frame::Text(text)) => step == ReadStep::Report(
                AppEvent::ReceivedMsg { data: Frame::Text(text) },
            ),
            ReadResult::Frame(Frame::Pong(_)) => step is Pong,
            ReadResult::Frame(Frame::Close(Some(info))) => step matches ReadStep::Stop(e)
                && is_disconnect(e, Some(info.code), Some(info.reason@)),
            ReadResult::Frame(Frame::Close(None)) => step matches ReadStep::Stop(e)
                && is_disconnect(e, None, None),
            ReadResult::Frame(_) => step is Continue,
            ReadResult::Failed(reason) => step matches ReadStep::Stop(e) && is_error(e, reason@),
            ReadResult::Ended => step matches ReadStep::Stop(e) && is_disconnect(e, None, None),
        },
{
    match result {
        ReadResult::Frame(frame) => match frame {
            Frame::Text(text) => ReadStep::Report(
                AppEvent::ReceivedMsg { data: Frame::Text(text) },
            ),
            Frame::Pong(_) => ReadStep::Pong,
            Frame::Close(Some(info)) => ReadStep::Stop(
                AppEvent::Disconnected {
                    close_code: Some(info.code),
                    close_reason: Some(info.reason),
                },
            ),
            Frame::Close(None) => ReadStep::Stop(
                AppEvent::Disconnected { close_code: None, close_reason: None },
            ),
            _ => ReadStep::Continue,
        },
        ReadResult::Failed(reason) => ReadStep::Stop(AppEvent::ConnectionError { reason }),
        ReadResult::Ended => ReadStep::Stop(
            AppEvent::Disconnected { close_code: None, close_reason: None },
        ),
    }
}

/// What came of a heartbeat.
pub enum Heartbeat {
    Answered,
    /// There is no connection to ping over.
    NoConnection,
    /// The ping could not be sent for the given reason.
    PingFailed(String),
    /// No answer came in time.
    TimedOut,
}

/// Whether the heartbeat goes on, and the event to report where it does not.
pub fn heartbeat_step(beat: Heartbeat) -> (r: (bool, Option<AppEvent>))
    ensures
        r.0 == (beat is Answered),
        match beat {
            Heartbeat::Answered => r.1 is None,
            Heartbeat::NoConnection => r.1 is None,
            Heartbeat::PingFailed(error) => r.1 is Some && is_error(
                r.1->0,
                "heartbeat ping failed: "@ + error@,
            ),
            Heartbeat::TimedOut => r.1 is Some && is_error(r.1->0, "heartbeat pong timed out"@),
        },
{
    match beat {
        Heartbeat::Answered => (true, None),
        Heartbeat::NoConnection => (false, None),
        Heartbeat::PingFailed(error) => {
            let reason = "heartbeat ping failed: ".to_owned().concat(error.as_str());
            (false, Some(AppEvent::ConnectionError { reason }))
        },
        Heartbeat::TimedOut => {
            let reason = "heartbeat pong timed out".to_owned();
            (false, Some(AppEvent::ConnectionError { reason }))
        },
    }
}

/// The event to report where the first connection fails: for a reason, or
/// because it took too long.
pub fn connect_failed(error: Option<String>) -> (e: AppEvent)
    ensures
        is_error(
            e,
            match error {
                Some(reason) => reason@,
                None => "connection timed out"@,
            },
        ),
{
    match error {
        Some(reason) => AppEvent::ConnectionError { reason },
        None => AppEvent::ConnectionError { reason: "connection timed out".to_owned() },
    }
}

/// The seconds to wait before an attempt to connect again that follows as many
/// others: doubled each time, up to the longest wait.
pub open spec fn reconnect_wait(attempts: nat) -> nat {
    let wait = RECONNECT_BASE_SECS as nat * pow2(attempts);
    if wait < RECONNECT_MAX_SECS {
        wait
    } else {
        RECONNECT_MAX_SECS as nat
    }
}

/// The waits between the attempts to connect again.
pub struct ReconnectWaits {
    delay: u64,
    attempts: Ghost<nat>,
}

impl ReconnectWaits {
    /// The attempts that the waits were for so far.
    pub closed spec fn attempts(&self) -> nat {
        self.attempts@
    }

    /// The next wait is that for the attempts so far.
    pub closed spec fn wf(&self) -> bool {
        self.delay == reconnect_wait(self.attempts@)
    }

    pub fn new() -> (w: Self)
        ensures
            w.wf(),
            w.attempts() == 0,
    {
        proof {
            lemma2_to64();
        }
        ReconnectWaits { delay: RECONNECT_BASE_SECS, attempts: Ghost(0) }
    }

    /// The seconds to wait before the next attempt.
    pub fn next_wait(&mut self) -> (secs: u64)
        requires
            old(self).wf(),
        ensures
            final(self).wf(),
            final(self).attempts() == old(self).attempts() + 1,
            secs == reconnect_wait(old(self).attempts()),
    {
        let secs: u64 = self.delay;
        proof {
            let n = self.attempts@;
            lemma_pow2_unfold(n + 1);
            lemma2_to64();
            lemma_reconnect_wait_is_bounded(n);
        }
        let doubled: u64 = secs * 2;
        self.delay = if doubled < RECONNECT_MAX_SECS {
            doubled
        } else {
            RECONNECT_MAX_SECS
        };
        self.attempts = Ghost((self.attempts@ + 1) as nat);
        secs
    }
}

/// The waits lie between the first and the longest.
proof fn lemma_reconnect_wait_is_bounded(attempts: nat)
    ensures
        RECONNECT_BASE_SECS <= reconnect_wait(attempts) <= RECONNECT_MAX_SECS,
{
    lemma2_to64();
    if attempts > 0 {
        lemma_pow2_strictly_increases(0, attempts);
    }
}

/// The wait to connect again starts at a second, never shrinks and never
/// exceeds half a minute.
pub proof fn law_reconnect_waits_grow(fewer: nat, more: nat)
    requires
        fewer <= more,
    ensures
        reconnect_wait(0) == RECONNECT_BASE_SECS,
        RECONNECT_BASE_SECS <= reconnect_wait(fewer) <= reconnect_wait(more) <= RECONNECT_MAX_SECS,
{
    lemma2_to64();
    lemma_reconnect_wait_is_bounded(fewer);
    lemma_reconnect_wait_is_bounded(more);
    if fewer < more {
        lemma_pow2_strictly_increases(fewer, more);
    }
}

/// What the client sends first over a new connection: its login, if it knows
/// one with its password and the protocol allows them.
pub open spec fn first_message(login: Option<Seq<char>>, password: Option<Seq<char>>) -> Option<
    Seq<char>,
> {
    match (login, password) {
        (Some(login), Some(passwd)) => {
            let m = ClientMessageView::Login { login, passwd };
            if login.len() > 0 && passwd.len() > 0 && client_verdict(m) is Ok {
                Some(client_json(m))
            } else {
                None
            }
        },
        _ => None,
    }
}

/// What the client sends first over a new connection.
pub fn reconnect_message(login: &Option<String>, password: &Option<String>) -> (t: Option<String>)
    ensures
        text_of(t) == first_message(text_of(*login), text_of(*password)),
{
    match login {
        Some(l) => match password {
            Some(p) => {
                if l.as_str().is_empty() || p.as_str().is_empty() {
                    return None;
                }
                let message = ClientMessage::Login { login: l.clone(), passwd: p.clone() };
                match serialize_client_message(&message) {
                    Ok(text) => Some(text),
                    Err(_) => None,
                }
            },
            None => None,
        },
        None => None,
    }
}

} // verus!
