//! Transfer statistics: transmitted / received / error counters.
//!
//! One `TransferStats` value is created per run and handed to the engine;
//! every request increments `transmitted` once, and exactly one of
//! `received` (on success) or `error` (on protocol error or timeout).
//! The counters only ever grow and are read once at shutdown for a
//! loss-rate summary.

use vstd::prelude::*;

verus! {

/// Counters for one polling run: frames transmitted, responses received,
/// and failed requests (protocol errors and timeouts together).
pub struct TransferStats {
    pub transmitted: u64,
    pub received: u64,
    pub error: u64,
}

impl TransferStats {
    /// A fresh statistics object with all counters at zero.
    pub fn new() -> (s: TransferStats)
        ensures
            s.transmitted == 0,
            s.received == 0,
            s.error == 0,
    {
        TransferStats { transmitted: 0, received: 0, error: 0 }
    }

    /// Record that one request was sent.
    pub fn increment_transmitted(&mut self)
        requires
            old(self).transmitted < u64::MAX,
        ensures
            final(self).transmitted == old(self).transmitted + 1,
            final(self).received == old(self).received,
            final(self).error == old(self).error,
    {
        self.transmitted = self.transmitted + 1;
    }

    /// Record that one response arrived successfully.
    pub fn increment_received(&mut self)
        requires
            old(self).received < u64::MAX,
        ensures
            final(self).received == old(self).received + 1,
            final(self).transmitted == old(self).transmitted,
            final(self).error == old(self).error,
    {
        self.received = self.received + 1;
    }

    /// Record that one request failed (protocol error or timeout).
    pub fn increment_error(&mut self)
        requires
            old(self).error < u64::MAX,
        ensures
            final(self).error == old(self).error + 1,
            final(self).transmitted == old(self).transmitted,
            final(self).received == old(self).received,
    {
        self.error = self.error + 1;
    }

    /// A point-in-time copy of the three counters, in the order
    /// (transmitted, received, error).
    pub fn snapshot(&self) -> (r: (u64, u64, u64))
        ensures
            r.0 == self.transmitted,
            r.1 == self.received,
            r.2 == self.error,
    {
        (self.transmitted, self.received, self.error)
    }
}

} // verus!
