//! The retry policy of a search for a peer's addresses in the DHT: how many
//! attempts a search makes, when it has found the peer, and what it says
//! when it gives up.
use vstd::prelude::*;

use crate::types::{append_decimal, decimal_text};

verus! {

/// Milliseconds between two attempts.
pub const RETRY_INTERVAL_MS: u64 = 100;

/// Attempts made when no timeout is given.
pub const DEFAULT_MAX_ATTEMPTS: usize = 100;

/// How many attempts fit in the timeout (whole attempts of
/// `RETRY_INTERVAL_MS`), or the default without one.
pub open spec fn max_attempts_for(timeout_secs: Option<u64>) -> nat {
    match timeout_secs {
        Some(secs) => ((secs * 1000) / (RETRY_INTERVAL_MS as int)) as nat,
        None => DEFAULT_MAX_ATTEMPTS as nat,
    }
}

/// The text of a search that used up its attempts.
pub open spec fn exhausted_text(max_attempts: nat) -> Seq<char> {
    "Failed to find peer addresses via Kademlia after "@ + decimal_text(max_attempts) + " attempts"@
}

/// The text of a search that ran out of time.
pub open spec fn timed_out_text(secs: u64) -> Seq<char> {
    "Peer search timed out after "@ + decimal_text(secs as nat) + " seconds"@
}

/// A search in progress: how many attempts it may make and has made.
pub struct PeerSearch {
    max_attempts: usize,
    made: usize,
}

impl PeerSearch {
    /// The attempts the search may make.
    pub closed spec fn limit(&self) -> nat {
        self.max_attempts as nat
    }

    /// The attempts made so far.
    pub closed spec fn attempts(&self) -> nat {
        self.made as nat
    }

    /// A search that has made no attempt, with as many attempts as fit in
    /// `timeout_secs` seconds (`DEFAULT_MAX_ATTEMPTS` without a timeout).
    pub fn new(timeout_secs: Option<u64>) -> (r: Self)
        requires
            timeout_secs matches Some(secs) ==> secs * 1000 <= u64::MAX,
            max_attempts_for(timeout_secs) <= usize::MAX,
        ensures
            r.limit() == max_attempts_for(timeout_secs),
            r.attempts() == 0,
    {
        let max_attempts: usize = match timeout_secs {
            Some(secs) => {
                let attempts: u64 = secs * 1000 / RETRY_INTERVAL_MS;
                attempts as usize
            },
            None => DEFAULT_MAX_ATTEMPTS,
        };
        PeerSearch { max_attempts, made: 0 }
    }

    /// Whether another attempt is due.
    pub fn attempts_left(&self) -> (r: bool)
        ensures
            r == (self.attempts() < self.limit()),
    {
        self.made < self.max_attempts
    }

    /// Records an attempt that looked up `addrs`: the search is over with
    /// them when there are any; otherwise it goes on (searching again and
    /// waiting `RETRY_INTERVAL_MS` before the next attempt, if one is left).
    pub fn record_attempt(&mut self, addrs: Vec<Vec<u8>>) -> (r: Option<Vec<Vec<u8>>>)
        requires
            old(self).attempts() < old(self).limit(),
        ensures
            final(self).attempts() == old(self).attempts() + 1,
            final(self).limit() == old(self).limit(),
            addrs@.len() > 0 ==> r == Some(addrs),
            addrs@.len() == 0 ==> r is None,
    {
        self.made = self.made + 1;
        if addrs.len() > 0 {
            Some(addrs)
        } else {
            None
        }
    }

    /// What the search says when its attempts are used up.
    pub fn exhausted_message(&self) -> (r: String)
        ensures
            r@ == exhausted_text(self.limit()),
    {
        let mut s = "Failed to find peer addresses via Kademlia after ".to_string();
        append_decimal(&mut s, self.max_attempts as u128);
        s.append(" attempts");
        s
    }
}

/// What a search says when its timeout of `secs` seconds ran out.
pub fn timed_out_message(secs: u64) -> (r: String)
    ensures
        r@ == timed_out_text(secs),
{
    let mut s = "Peer search timed out after ".to_string();
    append_decimal(&mut s, secs as u128);
    s.append(" seconds");
    s
}

} // verus!
