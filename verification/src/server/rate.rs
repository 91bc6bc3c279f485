//! A limit on how many messages a peer may send in a span of time.

use vstd::prelude::*;

use super::addr::PeerAddr;
use super::table::Table;

verus! {

/// The most messages of a peer in a window.
pub const RATE_LIMIT: usize = 20;

/// The length of the window.
pub const RATE_WINDOW_SECS: u64 = 1;

/// The times, in nanoseconds, of the messages that each peer was allowed.
pub struct RateLog {
    table: Table<PeerAddr, Vec<i64>>,
}

impl View for RateLog {
    type V = Map<PeerAddr, Seq<i64>>;

    closed spec fn view(&self) -> Map<PeerAddr, Seq<i64>> {
        self.table.map().map_values(|times: Vec<i64>| times@)
    }
}

impl RateLog {
    /// Each peer stands in the log once.
    pub closed spec fn wf(&self) -> bool {
        self.table.wf()
    }

    pub fn new() -> (log: Self)
        ensures
            log.wf(),
            log@ == Map::<PeerAddr, Seq<i64>>::empty(),
    {
        let log = RateLog { table: Table::new() };
        proof {
            assert(log@ =~= Map::<PeerAddr, Seq<i64>>::empty());
        }
        log
    }

    /// Take the times of a peer out of the log.
    fn take(&mut self, addr: PeerAddr) -> (times: Vec<i64>)
        requires
            old(self).wf(),
        ensures
            final(self).wf(),
            final(self)@ == old(self)@.remove(addr),
            times@ == logged(old(self)@, addr),
    {
        let taken = self.table.remove(addr);
        proof {
            assert(self@ =~= old(self)@.remove(addr));
        }
        match taken {
            Some(times) => times,
            None => Vec::new(),
        }
    }

    /// Set the times of a peer.
    fn put(&mut self, addr: PeerAddr, times: Vec<i64>)
        requires
            old(self).wf(),
        ensures
            final(self).wf(),
            final(self)@ == old(self)@.insert(addr, times@),
    {
        self.table.insert(addr, times);
        proof {
            assert(self@ =~= old(self)@.insert(addr, times@));
        }
    }
}

/// The times that a log holds for a peer.
pub open spec fn logged(log: Map<PeerAddr, Seq<i64>>, addr: PeerAddr) -> Seq<i64> {
    if log.contains_key(addr) {
        log[addr]
    } else {
        Seq::empty()
    }
}

/// Sliding-window rate limiter: at most `limit` messages per `window_secs` seconds.
#[derive(Debug, Clone)]
pub struct RateLimiter {
    pub limit: usize,
    pub window_secs: u64,
}

/// The length of a window in nanoseconds.
pub open spec fn window_nanos(window_secs: u64) -> int {
    window_secs * 1_000_000_000
}

/// The time up to which messages no longer count: one window ago or, where
/// that lies before all times that can be written down, now.
pub open spec fn cutoff(window_secs: u64, now: i64) -> int {
    if now - window_nanos(window_secs) >= i64::MIN {
        now - window_nanos(window_secs)
    } else {
        now as int
    }
}

/// The times that still count.
pub open spec fn still_counting(times: Seq<i64>, cut: int) -> Seq<i64> {
    times.filter(|t: i64| t > cut)
}

/// Whether a message is allowed that follows others at the given times.
pub open spec fn is_allowed(limit: nat, window_secs: u64, times: Seq<i64>, now: i64) -> bool {
    still_counting(times, cutoff(window_secs, now)).len() < limit
}

/// The times that are kept after a message.
pub open spec fn times_after(
    limit: nat,
    window_secs: u64,
    times: Seq<i64>,
    now: i64,
) -> Seq<i64> {
    let kept = still_counting(times, cutoff(window_secs, now));
    if kept.len() < limit {
        kept.push(now)
    } else {
        kept
    }
}

impl RateLimiter {
    pub fn new(limit: usize, window_secs: u64) -> (r: Self)
        ensures
            r.limit == limit,
            r.window_secs == window_secs,
    {
        RateLimiter { limit, window_secs }
    }

    /// Check and record a message for `addr`. Returns true if the message is allowed.
    pub fn check(&self, log: &mut RateLog, addr: PeerAddr, now: i64) -> (allowed: bool)
        requires
            old(log).wf(),
        ensures
            final(log).wf(),
            allowed == is_allowed(
                self.limit as nat,
                self.window_secs,
                logged(old(log)@, addr),
                now,
            ),
            final(log)@ == old(log)@.insert(
                addr,
                times_after(self.limit as nat, self.window_secs, logged(old(log)@, addr), now),
            ),
    {
        let window: i128 = self.window_secs as i128 * 1_000_000_000;
        let reach: i128 = now as i128 - window;
        let cut: i64 = if reach >= i64::MIN as i128 {
            reach as i64
        } else {
            now
        };
        let times = log.take(addr);
        let mut kept: Vec<i64> = Vec::new();
        let ghost counts = |t: i64| t > cut as int;
        let mut i: usize = 0;
        proof {
            reveal(Seq::filter);
            assert(times@.take(0).filter(counts) =~= Seq::empty());
        }
        while i < times.len()
            invariant
                i <= times.len(),
                counts == (|t: i64| t > cut as int),
                kept@ == times@.take(i as int).filter(counts),
            decreases times.len() - i,
        {
            proof {
                assert(times@.take(i + 1).drop_last() =~= times@.take(i as int));
                reveal(Seq::filter);
            }
            if times[i] > cut {
                kept.push(times[i]);
            }
            i = i + 1;
        }
        proof {
            assert(times@.take(i as int) =~= times@);
            assert(kept@ == still_counting(times@, cutoff(self.window_secs, now)));
        }
        let allowed = kept.len() < self.limit;
        if allowed {
            kept.push(now);
        }
        log.put(addr, kept);
        proof {
            assert(log@ =~= old(log)@.insert(addr, kept@));
        }
        allowed
    }
}

} // verus!
