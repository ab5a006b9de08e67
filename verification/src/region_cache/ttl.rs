//! How long a region stays in the cache.

use rand::Rng;
use vstd::prelude::*;

verus! {

/// The sum, or the nearest number that is left.
pub open spec fn saturating_sum(a: i64, b: i64) -> i64 {
    if a + b > i64::MAX {
        i64::MAX
    } else if a + b < i64::MIN {
        i64::MIN
    } else {
        (a + b) as i64
    }
}

fn saturating_add(a: i64, b: i64) -> (r: i64)
    ensures
        r == saturating_sum(a, b),
{
    match a.checked_add(b) {
        Some(sum) => sum,
        None => if b > 0 {
            i64::MAX
        } else {
            i64::MIN
        },
    }
}

/// A number of seconds as a signed one, or the largest of those.
pub open spec fn clamp_secs(secs: u64) -> i64 {
    if secs > i64::MAX {
        i64::MAX
    } else {
        secs as i64
    }
}

fn to_secs(secs: u64) -> (r: i64)
    ensures
        r == clamp_secs(secs),
{
    if secs > i64::MAX as u64 {
        i64::MAX
    } else {
        secs as i64
    }
}

/// The seconds since the epoch as a signed number; a number that is too large counts as 0.
pub fn epoch_sec(secs: u64) -> (r: i64)
    ensures
        r == (if secs <= i64::MAX {
            secs as int
        } else {
            0
        }),
{
    if secs <= i64::MAX as u64 {
        secs as i64
    } else {
        0
    }
}

/// `rand::Rng::gen_range` draws a number from the given range with the generator of the thread.
/// The contract says that the number lies in the range; which one it is, is left to chance. The
/// range must not be empty.
#[verifier::external_body]
fn random_below(bound: i64) -> (r: i64)
    requires
        bound > 0,
    ensures
        0 <= r < bound,
{
    rand::thread_rng().gen_range(0..bound)
}

/// How long a region may stay in the cache unused: at least `base_sec`, and up to `jitter_sec`
/// longer, by chance. With a base of zero regions stay for ever.
#[derive(Clone, Copy, Debug, PartialEq, Eq, Structural)]
pub struct RegionCacheTtl {
    pub base_sec: i64,
    pub jitter_sec: i64,
}

impl RegionCacheTtl {
    /// Regions do not stay for ever.
    pub open spec fn enabled(self) -> bool {
        self.base_sec > 0
    }

    /// The moment until which a region used now stays, where chance adds `jitter`.
    pub open spec fn ttl_with(self, now_epoch_sec: i64, jitter: i64) -> i64 {
        if self.enabled() {
            saturating_sum(saturating_sum(now_epoch_sec, self.base_sec), jitter)
        } else {
            i64::MAX
        }
    }

    /// What chance can add.
    pub open spec fn may_add(self, jitter: i64) -> bool {
        if self.jitter_sec > 0 {
            0 <= jitter < self.jitter_sec
        } else {
            jitter == 0
        }
    }

    /// A moment until which a region used now may stay.
    pub open spec fn may_last_until(self, now_epoch_sec: i64, ttl_epoch_sec: i64) -> bool {
        exists|jitter: i64|
            self.may_add(jitter) && ttl_epoch_sec == #[trigger] self.ttl_with(
                now_epoch_sec,
                jitter,
            )
    }

    /// A region that stays until the given moment has not expired.
    pub open spec fn is_live(self, ttl_epoch_sec: i64, now_epoch_sec: i64) -> bool {
        self.enabled() ==> now_epoch_sec <= ttl_epoch_sec
    }

    /// A use of the region renews its time: the region is live, and no more than the base is left.
    pub open spec fn renews(self, ttl_epoch_sec: i64, now_epoch_sec: i64) -> bool {
        &&& self.enabled()
        &&& now_epoch_sec <= ttl_epoch_sec
        &&& ttl_epoch_sec <= saturating_sum(now_epoch_sec, self.base_sec)
    }

    /// `after` is what a use of the region makes of its time.
    pub open spec fn refreshes_to(self, before: i64, now_epoch_sec: i64, after: i64) -> bool {
        if self.renews(before, now_epoch_sec) {
            self.may_last_until(now_epoch_sec, after)
        } else {
            after == before
        }
    }

    /// The time to live from a base and a jitter in seconds.
    pub fn new(base_secs: u64, jitter_secs: u64) -> (r: RegionCacheTtl)
        ensures
            r.base_sec == clamp_secs(base_secs),
            r.jitter_sec == clamp_secs(jitter_secs),
    {
        RegionCacheTtl { base_sec: to_secs(base_secs), jitter_sec: to_secs(jitter_secs) }
    }

    /// Whether regions expire at all.
    pub fn is_enabled(&self) -> (r: bool)
        ensures
            r == self.enabled(),
    {
        self.base_sec > 0
    }

    /// The moment until which a region used now stays, where chance adds `jitter`.
    pub fn next_ttl_with(self, now_epoch_sec: i64, jitter: i64) -> (r: i64)
        ensures
            r == self.ttl_with(now_epoch_sec, jitter),
    {
        if !self.is_enabled() {
            return i64::MAX;
        }
        saturating_add(saturating_add(now_epoch_sec, self.base_sec), jitter)
    }

    /// The moment until which a region used now stays.
    pub fn next_ttl(self, now_epoch_sec: i64) -> (r: i64)
        ensures
            self.may_last_until(now_epoch_sec, r),
    {
        let jitter: i64 = if self.is_enabled() && self.jitter_sec > 0 {
            random_below(self.jitter_sec)
        } else {
            0
        };
        let r: i64 = self.next_ttl_with(now_epoch_sec, jitter);
        proof {
            if !self.enabled() {
                assert(self.may_add(0));
                assert(r == self.ttl_with(now_epoch_sec, 0));
            } else {
                assert(self.may_add(jitter));
            }
        }
        r
    }

    /// Returns `true` if the TTL is still valid (and may refresh it); otherwise `false`.
    ///
    /// The TTL is only refreshed when the remaining time is within the base TTL.
    pub fn check_and_refresh(self, ttl_epoch_sec: &mut i64, now_epoch_sec: i64) -> (r: bool)
        ensures
            r == self.is_live(*old(ttl_epoch_sec), now_epoch_sec),
            self.refreshes_to(*old(ttl_epoch_sec), now_epoch_sec, *final(ttl_epoch_sec)),
    {
        if !self.is_enabled() {
            return true;
        }
        let ttl: i64 = *ttl_epoch_sec;
        if now_epoch_sec > ttl {
            return false;
        }
        if ttl > saturating_add(now_epoch_sec, self.base_sec) {
            return true;
        }
        *ttl_epoch_sec = self.next_ttl(now_epoch_sec);
        true
    }
}

/// A use of a live region never shortens the time that it has left, and afterwards it lives at
/// least for the base, or to the end of time.
pub proof fn law_use_keeps_a_region_alive(ttl: RegionCacheTtl, before: i64, now: i64, after: i64)
    requires
        ttl.is_live(before, now),
        ttl.refreshes_to(before, now, after),
    ensures
        before <= after,
        ttl.enabled() ==> saturating_sum(now, ttl.base_sec) <= after,
        ttl.is_live(after, now),
{
}

/// Without a base no region expires.
pub proof fn law_without_a_base_nothing_expires(ttl: RegionCacheTtl, ttl_epoch_sec: i64, now: i64)
    requires
        !ttl.enabled(),
    ensures
        ttl.is_live(ttl_epoch_sec, now),
        ttl.may_last_until(now, ttl_epoch_sec) ==> ttl_epoch_sec == i64::MAX,
{
}

} // verus!
