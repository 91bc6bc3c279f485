//! The wait between account attempts after failures, kept for each IP address
//! and for each connection.

use vstd::arithmetic::power2::{lemma2_to64, lemma_pow2_strictly_increases, pow2};
use vstd::bits::lemma_u64_shl_is_mul;
use vstd::prelude::*;

use super::addr::{IpKey, PeerAddr};
use super::peers::{no_session, session_not_found_error, PeerMap, PeerView};
use super::table::Table;
use crate::protocol::message::{ServerMessage, ServerMessageView};

verus! {

/// The wait after the first failure.
pub const ACCOUNT_BACKOFF_BASE_MS: u64 = 10;

/// The longest wait.
pub const ACCOUNT_BACKOFF_MAX_MS: u64 = 8_000;

/// Persistent backoff state keyed by IP address: the number of failures, and
/// the earliest time of the next attempt in nanoseconds. It survives
/// connection drops.
pub type IpBackoffMap = Table<IpKey, (u32, Option<i64>)>;

/// Whether the longest wait from a time on ends at a time that can be written down.
pub open spec fn is_clock_time(now: i64) -> bool {
    now + ACCOUNT_BACKOFF_MAX_MS * 1_000_000 <= i64::MAX
}

/// The wait in milliseconds: the base, doubled with each further failure, up
/// to the longest.
pub open spec fn backoff_ms(failures: nat) -> nat {
    let doublings = if failures == 0 {
        0
    } else {
        (failures - 1) as nat
    };
    let wait = ACCOUNT_BACKOFF_BASE_MS as nat * pow2(doublings);
    if wait < ACCOUNT_BACKOFF_MAX_MS {
        wait
    } else {
        ACCOUNT_BACKOFF_MAX_MS as nat
    }
}

/// The time at which the wait after a number of failures ends.
pub open spec fn wait_until(failures: u32, now: i64) -> i64 {
    (now + backoff_ms(failures as nat) * 1_000_000) as i64
}

/// One failure more, up to what can be counted.
pub open spec fn one_more(failures: u32) -> u32 {
    if failures == u32::MAX {
        failures
    } else {
        (failures + 1) as u32
    }
}

/// The nanoseconds left until a time. None are left once it has passed.
pub open spec fn left_until(next: Option<i64>, now: i64) -> Option<int> {
    match next {
        Some(t) => if t >= now {
            Some(t - now)
        } else {
            None
        },
        None => None,
    }
}

/// The wait in milliseconds after a number of failures.
pub fn account_backoff_duration(failures: u32) -> (ms: u64)
    ensures
        ms == backoff_ms(failures as nat),
        ACCOUNT_BACKOFF_BASE_MS <= ms <= ACCOUNT_BACKOFF_MAX_MS,
{
    let doublings: u32 = if failures == 0 {
        0
    } else {
        failures - 1
    };
    proof {
        lemma2_to64();
    }
    if doublings >= 10 {
        proof {
            if doublings > 10 {
                lemma_pow2_strictly_increases(10, doublings as nat);
            }
        }
        return ACCOUNT_BACKOFF_MAX_MS;
    }
    proof {
        lemma_pow2_strictly_increases(doublings as nat, 10);
        lemma_u64_shl_is_mul(1, doublings as u64);
        if doublings > 0 {
            lemma_pow2_strictly_increases(0, doublings as nat);
        }
    }
    let multiplier: u64 = 1u64 << (doublings as u64);
    let wait: u64 = ACCOUNT_BACKOFF_BASE_MS * multiplier;
    if wait < ACCOUNT_BACKOFF_MAX_MS {
        wait
    } else {
        ACCOUNT_BACKOFF_MAX_MS
    }
}

/// The nanoseconds until an address may make its next account attempt: by its
/// IP address or, where that has none left, by its connection.
pub open spec fn backoff_left(
    peers: Map<PeerAddr, PeerView>,
    backoff: Map<IpKey, (u32, Option<i64>)>,
    addr: PeerAddr,
    now: i64,
) -> Result<Option<int>, ServerMessageView> {
    let by_ip = if backoff.contains_key(addr.ip) {
        left_until(backoff[addr.ip].1, now)
    } else {
        None
    };
    if by_ip is Some {
        Ok(by_ip)
    } else if !peers.contains_key(addr) {
        Err(no_session())
    } else {
        Ok(left_until(peers[addr].next_account_attempt, now))
    }
}

/// The backoff of IP addresses after a failure.
pub open spec fn with_ip_failure(
    backoff: Map<IpKey, (u32, Option<i64>)>,
    ip: IpKey,
    now: i64,
) -> Map<IpKey, (u32, Option<i64>)> {
    let failures = one_more(
        if backoff.contains_key(ip) {
            backoff[ip].0
        } else {
            0
        },
    );
    backoff.insert(ip, (failures, Some(wait_until(failures, now))))
}

/// The peers after a failure of one of them.
pub open spec fn with_peer_failure(
    peers: Map<PeerAddr, PeerView>,
    addr: PeerAddr,
    now: i64,
) -> Map<PeerAddr, PeerView> {
    if peers.contains_key(addr) {
        let failures = one_more(peers[addr].login_failures);
        peers.insert(
            addr,
            PeerView {
                login_failures: failures,
                next_account_attempt: Some(wait_until(failures, now)),
                ..peers[addr]
            },
        )
    } else {
        peers
    }
}

/// The peers after one of them has had success.
pub open spec fn without_peer_failures(
    peers: Map<PeerAddr, PeerView>,
    addr: PeerAddr,
) -> Map<PeerAddr, PeerView> {
    if peers.contains_key(addr) {
        peers.insert(
            addr,
            PeerView { login_failures: 0, next_account_attempt: None, ..peers[addr] },
        )
    } else {
        peers
    }
}

/// The nanoseconds left until a time.
fn time_left(next: Option<i64>, now: i64) -> (left: Option<u64>)
    ensures
        match left {
            Some(d) => left_until(next, now) == Some(d as int),
            None => left_until(next, now) is None,
        },
{
    match next {
        Some(t) => {
            if t >= now {
                Some((t as i128 - now as i128) as u64)
            } else {
                None
            }
        },
        None => None,
    }
}

/// Check if there is remaining backoff for the given address, using IP-based
/// persistent state (survives connection drops).
pub fn account_backoff_remaining(
    peers: &PeerMap,
    ip_backoff: &IpBackoffMap,
    addr: PeerAddr,
    now: i64,
) -> (r: Result<Option<u64>, ServerMessage>)
    requires
        peers.wf(),
        ip_backoff.wf(),
    ensures
        match r {
            Ok(Some(d)) => backoff_left(peers@, ip_backoff.map(), addr, now) == Ok::<
                Option<int>,
                ServerMessageView,
            >(Some(d as int)),
            Ok(None) => backoff_left(peers@, ip_backoff.map(), addr, now) == Ok::<
                Option<int>,
                ServerMessageView,
            >(None),
            Err(e) => backoff_left(peers@, ip_backoff.map(), addr, now) == Err::<
                Option<int>,
                ServerMessageView,
            >(e@),
        },
{
    match ip_backoff.get(addr.ip) {
        Some(entry) => {
            let left = time_left(entry.1, now);
            if left.is_some() {
                return Ok(left);
            }
        },
        None => {},
    }
    match peers.get(addr) {
        None => Err(session_not_found_error()),
        Some(peer) => Ok(time_left(peer.next_account_attempt, now)),
    }
}

/// Record a login/account creation failure, updating both IP-based and peer-level state.
pub fn record_account_failure(
    peers: &mut PeerMap,
    ip_backoff: &mut IpBackoffMap,
    addr: PeerAddr,
    now: i64,
)
    requires
        old(peers).wf(),
        old(ip_backoff).wf(),
        is_clock_time(now),
    ensures
        final(peers).wf(),
        final(ip_backoff).wf(),
        final(peers)@ == with_peer_failure(old(peers)@, addr, now),
        final(ip_backoff).map() == with_ip_failure(old(ip_backoff).map(), addr.ip, now),
{
    let before: u32 = match ip_backoff.get(addr.ip) {
        Some(entry) => entry.0,
        None => 0,
    };
    let failures: u32 = before.saturating_add(1);
    let wait: u64 = account_backoff_duration(failures);
    let until: i64 = now + (wait * 1_000_000) as i64;
    ip_backoff.insert(addr.ip, (failures, Some(until)));
    match peers.remove(addr) {
        Some(mut peer) => {
            peer.login_failures = peer.login_failures.saturating_add(1);
            let wait: u64 = account_backoff_duration(peer.login_failures);
            let until: i64 = now + (wait * 1_000_000) as i64;
            peer.next_account_attempt = Some(until);
            peers.insert(addr, peer);
            proof {
                assert(peers@ =~= with_peer_failure(old(peers)@, addr, now));
            }
        },
        None => {
            proof {
                assert(peers@ =~= old(peers)@);
            }
        },
    }
}

/// Clear login/account creation failures for the given address.
pub fn clear_account_failures(
    peers: &mut PeerMap,
    ip_backoff: &mut IpBackoffMap,
    addr: PeerAddr,
)
    requires
        old(peers).wf(),
        old(ip_backoff).wf(),
    ensures
        final(peers).wf(),
        final(ip_backoff).wf(),
        final(peers)@ == without_peer_failures(old(peers)@, addr),
        final(ip_backoff).map() == old(ip_backoff).map().remove(addr.ip),
{
    let _ = ip_backoff.remove(addr.ip);
    match peers.remove(addr) {
        Some(mut peer) => {
            peer.login_failures = 0;
            peer.next_account_attempt = None;
            peers.insert(addr, peer);
            proof {
                assert(peers@ =~= without_peer_failures(old(peers)@, addr));
            }
        },
        None => {
            proof {
                assert(peers@ =~= old(peers)@);
            }
        },
    }
}

} // verus!
