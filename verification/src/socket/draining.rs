//! Connection identifiers that may not be reused yet.
//!
//! The pool plays the part of TCP's TIME_WAIT: an identifier stays in it for a
//! fixed time after its connection is gone, so that late packets of the old
//! connection are not taken for packets of a new one.

use std::collections::HashMap;
use vstd::prelude::*;

use crate::collections::map_keys;

verus! {

broadcast use vstd::std_specs::hash::group_hash_axioms;

/// The time from `start` to `now`, zero where `now` lies before `start`.
pub open spec fn elapsed(start: u64, now: u64) -> int {
    if now >= start {
        now - start
    } else {
        0
    }
}

/// The part of `cids` whose `timeout` is not over at the instant `now`.
pub open spec fn still_draining(cids: Map<u32, u64>, timeout: u64, now: u64) -> Map<u32, u64> {
    cids.restrict(
        Set::new(|cid: u32| cids.contains_key(cid) && elapsed(cids[cid], now) < timeout),
    )
}

/// Identifiers together with the instant at which each began to drain.
#[derive(Debug)]
pub struct DrainingPool {
    cids: HashMap<u32, u64>,
    timeout: u64,
}

impl View for DrainingPool {
    type V = Map<u32, u64>;

    closed spec fn view(&self) -> Map<u32, u64> {
        self.cids@
    }
}

impl DrainingPool {
    /// How long an identifier stays in the pool.
    pub closed spec fn spec_timeout(&self) -> u64 {
        self.timeout
    }

    /// An empty pool whose identifiers drain for `timeout` nanoseconds.
    pub fn new(timeout: u64) -> (pool: Self)
        ensures
            pool@ == Map::<u32, u64>::empty(),
            pool.spec_timeout() == timeout,
    {
        DrainingPool { cids: HashMap::new(), timeout }
    }

    /// Puts `cid` into the pool at the instant `now`; an identifier that is
    /// already draining starts again.
    pub fn insert(&mut self, cid: u32, now: u64)
        ensures
            final(self)@ == old(self)@.insert(cid, now),
            final(self).spec_timeout() == old(self).spec_timeout(),
    {
        self.cids.insert(cid, now);
    }

    /// Whether `cid` is draining.
    pub fn contains(&self, cid: &u32) -> (found: bool)
        ensures
            found == self@.contains_key(*cid),
    {
        self.cids.contains_key(cid)
    }

    /// The number of draining identifiers.
    pub fn len(&self) -> (n: usize)
        ensures
            n == self@.dom().len(),
    {
        self.cids.len()
    }

    /// Drops every identifier whose time is up at the instant `now`.
    pub fn cleanup(&mut self, now: u64)
        ensures
            final(self)@ == still_draining(old(self)@, old(self).spec_timeout(), now),
            final(self).spec_timeout() == old(self).spec_timeout(),
    {
        let keys = map_keys(&self.cids);
        let ghost before = self@;
        let ghost kept = still_draining(before, self.timeout, now);
        let ghost mut seen = Set::<u32>::empty();
        let mut i: usize = 0;
        while i < keys.len()
            invariant
                i <= keys@.len(),
                keys@.no_duplicates(),
                keys@.to_set() == before.dom(),
                self.timeout == old(self).timeout,
                kept == still_draining(before, self.timeout, now),
                seen == keys@.take(i as int).to_set(),
                self@ == before.restrict(
                    Set::new(|cid: u32| before.contains_key(cid) && (kept.contains_key(cid) || !seen.contains(cid))),
                ),
            decreases keys.len() - i,
        {
            let cid: u32 = keys[i];
            assert(keys@.take(i + 1) == keys@.take(i as int).push(cid));
            assert(!seen.contains(cid));
            assert(keys@.to_set().contains(cid));
            let expired = match self.cids.get(&cid) {
                Some(start) => now.saturating_sub(*start) >= self.timeout,
                None => false,
            };
            if expired {
                self.cids.remove(&cid);
            }
            proof {
                seen = seen.insert(cid);
                crate::collections::lemma_take_to_set(keys@, i as int);
            }
            i = i + 1;
        }
        assert(keys@.take(keys@.len() as int) == keys@);
    }
}

} // verus!
