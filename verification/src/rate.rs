//! Sliding-window rate limiter: bounds accepted captures to a configured
//! count per trailing 60 seconds, evaluated at consume time.
use vstd::prelude::*;

verus! {

/// Eviction of expired timestamps from the front of the window, stopping at
/// the first entry at or after the cutoff (entries arrive in non-decreasing
/// order, so eviction never needs to look past it).
pub open spec fn evict_spec(s: Seq<i64>, cutoff: int) -> Seq<i64>
    decreases s.len(),
{
    if s.len() == 0 {
        s
    } else if s[0] < cutoff {
        evict_spec(s.drop_first(), cutoff)
    } else {
        s
    }
}

/// In-memory sliding window of accepted capture timestamps (milliseconds).
pub struct RateLimiter {
    limit: u32,
    stamps: Vec<i64>,
}

impl RateLimiter {
    /// The configured per-minute ceiling; zero disables limiting.
    pub closed spec fn spec_limit(&self) -> u32 {
        self.limit
    }

    /// The timestamps currently held in the window.
    pub closed spec fn timestamps(&self) -> Seq<i64> {
        self.stamps@
    }

    pub fn new(limit: u32) -> (r: Self)
        ensures
            r.spec_limit() == limit,
            r.timestamps() == Seq::<i64>::empty(),
    {
        RateLimiter { limit, stamps: Vec::new() }
    }

    pub fn limit(&self) -> (r: u32)
        ensures
            r == self.spec_limit(),
    {
        self.limit
    }

    /// Evict entries older than `now - 60s`, then accept and record `now`
    /// when fewer than `limit` entries remain; refuse otherwise. A zero
    /// limit always accepts without recording.
    pub fn try_consume(&mut self, now: i64) -> (r: bool)
        requires
            0 <= now,
        ensures
            final(self).spec_limit() == old(self).spec_limit(),
            old(self).spec_limit() == 0 ==> r && final(self).timestamps() == old(
                self,
            ).timestamps(),
            old(self).spec_limit() != 0 ==> ({
                let kept = evict_spec(old(self).timestamps(), now - 60000);
                &&& r == (kept.len() < old(self).spec_limit())
                &&& (r ==> final(self).timestamps() == kept.push(now))
                &&& (!r ==> final(self).timestamps() == kept)
            }),
    {
        if self.limit == 0 {
            return true;
        }
        let cutoff: i64 = now - 60000;
        let ghost orig: Seq<i64> = self.stamps@;
        while self.stamps.len() > 0 && self.stamps[0] < cutoff
            invariant
                self.limit == old(self).limit,
                evict_spec(self.stamps@, cutoff as int) == evict_spec(orig, cutoff as int),
            decreases self.stamps@.len(),
        {
            proof {
                assert(self.stamps@.remove(0) =~= self.stamps@.drop_first());
            }
            self.stamps.remove(0);
        }
        proof {
            assert(evict_spec(self.stamps@, cutoff as int) == self.stamps@);
        }
        if self.stamps.len() >= self.limit as usize {
            return false;
        }
        self.stamps.push(now);
        true
    }
}

} // verus!
