//! How long, and how often, to wait before the next attempt.

use vstd::arithmetic::power2::pow2;
use vstd::prelude::*;

verus! {

/// Delays that double from one attempt to the next, up to a largest one, for a number of
/// attempts.
#[derive(Clone, Copy, Debug, PartialEq, Eq, Structural)]
pub struct Backoff {
    pub enabled: bool,
    pub current_attempts: u32,
    pub max_attempts: u32,
    pub current_delay_ms: u64,
    pub max_delay_ms: u64,
}

/// Ten delays from 2 milliseconds on, up to half a second.
pub open spec fn usual_delays() -> Backoff {
    Backoff {
        enabled: true,
        current_attempts: 0,
        max_attempts: 10,
        current_delay_ms: 2,
        max_delay_ms: 500,
    }
}

/// Twice the delay, or the largest number.
pub open spec fn doubled(delay_ms: u64) -> u64 {
    if delay_ms + delay_ms > u64::MAX {
        u64::MAX
    } else {
        (delay_ms + delay_ms) as u64
    }
}

impl Backoff {
    /// The number of attempts that are left.
    pub open spec fn attempts_left(self) -> nat {
        if self.enabled && self.current_attempts < self.max_attempts {
            (self.max_attempts - self.current_attempts) as nat
        } else {
            0
        }
    }

    /// The delay before the next attempt, if there is one.
    pub open spec fn next_delay(self) -> Option<u64> {
        if self.attempts_left() == 0 {
            None
        } else if self.current_delay_ms < self.max_delay_ms {
            Some(self.current_delay_ms)
        } else {
            Some(self.max_delay_ms)
        }
    }

    /// What is left after the next attempt.
    pub open spec fn after_next(self) -> Backoff {
        if self.attempts_left() == 0 {
            self
        } else {
            Backoff {
                current_attempts: (self.current_attempts + 1) as u32,
                current_delay_ms: doubled(self.current_delay_ms),
                ..self
            }
        }
    }

    /// Delays from `base_delay_ms` on, up to `max_delay_ms`, for `max_attempts` attempts.
    pub fn no_jitter_backoff(base_delay_ms: u64, max_delay_ms: u64, max_attempts: u32) -> (r:
        Backoff)
        ensures
            r == (Backoff {
                enabled: true,
                current_attempts: 0,
                max_attempts,
                current_delay_ms: base_delay_ms,
                max_delay_ms,
            }),
    {
        Backoff {
            enabled: true,
            current_attempts: 0,
            max_attempts,
            current_delay_ms: base_delay_ms,
            max_delay_ms,
        }
    }

    /// No further attempts at all.
    pub fn no_backoff() -> (r: Backoff)
        ensures
            r == (Backoff {
                enabled: false,
                current_attempts: 0,
                max_attempts: 0,
                current_delay_ms: 0,
                max_delay_ms: 0,
            }),
    {
        Backoff {
            enabled: false,
            current_attempts: 0,
            max_attempts: 0,
            current_delay_ms: 0,
            max_delay_ms: 0,
        }
    }

    /// The delays after an error of a region.
    pub fn default_region() -> (r: Backoff)
        ensures
            r == usual_delays(),
    {
        Backoff::no_jitter_backoff(2, 500, 10)
    }

    /// The delays after an optimistic transaction met a lock.
    pub fn optimistic() -> (r: Backoff)
        ensures
            r == usual_delays(),
    {
        Backoff::no_jitter_backoff(2, 500, 10)
    }

    /// The delays after a pessimistic transaction met a lock.
    pub fn pessimistic() -> (r: Backoff)
        ensures
            r == usual_delays(),
    {
        Backoff::no_jitter_backoff(2, 500, 10)
    }

    /// Whether there are no further attempts by design.
    pub fn is_none(&self) -> (r: bool)
        ensures
            r == !self.enabled,
    {
        !self.enabled
    }

    /// The delay before the next attempt in milliseconds, if there is one.
    pub fn next_delay_ms(&mut self) -> (r: Option<u64>)
        ensures
            r == old(self).next_delay(),
            *final(self) == old(self).after_next(),
    {
        if !self.enabled || self.current_attempts >= self.max_attempts {
            return None;
        }
        let delay: u64 = if self.current_delay_ms < self.max_delay_ms {
            self.current_delay_ms
        } else {
            self.max_delay_ms
        };
        self.current_attempts = self.current_attempts + 1;
        self.current_delay_ms = self.current_delay_ms.saturating_add(self.current_delay_ms);
        Some(delay)
    }
}

/// There is a delay left.
pub open spec fn has_delay(backoff: Backoff) -> bool {
    backoff.enabled && backoff.current_attempts < backoff.max_attempts
}

/// The delay is the next one, and is used up: the one after it is twice as long, up to the largest.
pub open spec fn uses_delay(before: Backoff, delay_ms: u64, after: Backoff) -> bool {
    &&& has_delay(before)
    &&& delay_ms <= before.current_delay_ms && delay_ms <= before.max_delay_ms
    &&& delay_ms == before.current_delay_ms || delay_ms == before.max_delay_ms
    &&& after.current_attempts == before.current_attempts + 1
    &&& after.current_delay_ms == before.current_delay_ms * 2 || (after.current_delay_ms == u64::MAX
        && before.current_delay_ms * 2 > u64::MAX)
    &&& after.enabled && after.max_attempts == before.max_attempts && after.max_delay_ms
        == before.max_delay_ms
}

/// Each delay uses one attempt up, none is longer than the largest one, and the next one is no
/// shorter.
pub proof fn law_delays_use_attempts_up(backoff: Backoff)
    ensures
        backoff.next_delay() is Some ==> backoff.after_next().attempts_left()
            == backoff.attempts_left() - 1,
        backoff.next_delay() is Some ==> backoff.next_delay()->0 <= backoff.max_delay_ms,
        backoff.next_delay() is Some && backoff.after_next().next_delay() is Some
            ==> backoff.next_delay()->0 <= backoff.after_next().next_delay()->0,
        backoff.next_delay() is None <==> backoff.attempts_left() == 0,
{
}

/// A delay is given, and used up, just while one is left.
pub proof fn law_a_delay_is_given_while_one_is_left(backoff: Backoff)
    ensures
        backoff.next_delay() is Some <==> has_delay(backoff),
        backoff.next_delay() is Some ==> uses_delay(
            backoff,
            backoff.next_delay()->0,
            backoff.after_next(),
        ),
        backoff.next_delay() is None ==> backoff.after_next() == backoff,
        backoff.attempts_left() > 0 <==> has_delay(backoff),
{
}

/// What is left after a number of delays.
pub open spec fn after_delays(backoff: Backoff, n: nat) -> Backoff
    decreases n,
{
    if n == 0 {
        backoff
    } else {
        after_delays(backoff, (n - 1) as nat).after_next()
    }
}

/// There are just as many delays as there are attempts. Each is twice as long as the one before,
/// up to the largest.
pub proof fn law_delays_double(backoff: Backoff, n: nat)
    requires
        backoff.enabled,
        backoff.current_attempts == 0,
    ensures
        n < backoff.max_attempts ==> {
            let delay = backoff.current_delay_ms * pow2(n);
            after_delays(backoff, n).next_delay() == Some(
                if delay < backoff.max_delay_ms {
                    delay as u64
                } else {
                    backoff.max_delay_ms
                },
            )
        },
        n >= backoff.max_attempts ==> after_delays(backoff, n).next_delay() is None,
{
    lemma_after_delays(backoff, n);
}

proof fn lemma_after_delays(backoff: Backoff, n: nat)
    requires
        backoff.enabled,
        backoff.current_attempts == 0,
    ensures
        ({
            let after = after_delays(backoff, n);
            &&& after.enabled
            &&& after.max_attempts == backoff.max_attempts
            &&& after.max_delay_ms == backoff.max_delay_ms
            &&& after.current_attempts == if n < backoff.max_attempts {
                n as int
            } else {
                backoff.max_attempts as int
            }
            &&& n <= backoff.max_attempts ==> {
                let delay = backoff.current_delay_ms * pow2(n);
                after.current_delay_ms == if delay <= u64::MAX {
                    delay
                } else {
                    u64::MAX as int
                }
            }
        }),
    decreases n,
{
    if n == 0 {
        vstd::arithmetic::power2::lemma2_to64();
    } else {
        let m = (n - 1) as nat;
        lemma_after_delays(backoff, m);
        vstd::arithmetic::power2::lemma_pow2_unfold(n);
        let base = backoff.current_delay_ms as int;
        let power = pow2(m) as int;
        assert(base * (2 * power) == 2 * (base * power)) by (nonlinear_arith);
    }
}

/// Asking for a delay gives the next one and uses it up while there is one, and else changes nothing.
/// Without delays by design there never is one.
pub proof fn law_asking_for_a_delay_uses_it_up()
    ensures
        forall|backoff: &mut Backoff, r: Option<u64>| #[trigger]
            call_ensures(Backoff::next_delay_ms, (backoff,), r) ==> {
                &&& r is Some <==> has_delay(*backoff)
                &&& r is Some ==> uses_delay(*backoff, r->0, *final(backoff))
                &&& r is None ==> *final(backoff) == *backoff
            },
        forall|backoff: &Backoff, r: bool| #[trigger]
            call_ensures(Backoff::is_none, (backoff,), r) ==> (r <==> !backoff.enabled),
{
}

} // verus!
