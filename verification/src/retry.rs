//! Trying a request again after it failed, with a growing pause between tries.
use vstd::prelude::*;

verus! {

/// How often a request is tried, and the longest pause between two tries.
#[derive(Debug, Clone, Copy)]
pub struct RetryPolicy {
    total: u32,
    max_backoff: u128,
}

/// A request that failed at every try.
#[derive(Debug)]
pub struct RetryError<E> {
    /// How often the request was tried.
    pub attempts: u32,
    /// The failure of the last try.
    pub source: E,
}

/// What follows a failed try.
#[derive(Debug, Clone, Copy, PartialEq, Eq, Structural)]
pub enum RetryStep {
    /// Pause for so many nanoseconds, then try again.
    Backoff(u128),
    /// The tries are used up.
    GiveUp,
}

/// Two to the power of `exponent`.
pub open spec fn power_of_two(exponent: nat) -> nat
    decreases exponent,
{
    if exponent == 0 {
        1
    } else {
        2 * power_of_two((exponent - 1) as nat)
    }
}

pub open spec fn nanos_per_second() -> nat {
    1_000_000_000
}

/// The pause after the failed try with the given index, counted from
/// zero: one second doubled so many times, and never more than `max_backoff`.
pub open spec fn backoff_nanos(max_backoff: nat, retry_count: nat) -> nat {
    if power_of_two(retry_count) * nanos_per_second() > max_backoff {
        max_backoff
    } else {
        power_of_two(retry_count) * nanos_per_second()
    }
}

proof fn lemma_power_of_two_grows(a: nat, b: nat)
    requires
        a <= b,
    ensures
        power_of_two(a) <= power_of_two(b),
        power_of_two(a) >= 1,
    decreases b,
{
    if a < b {
        lemma_power_of_two_grows(a, (b - 1) as nat);
    } else if a > 0 {
        lemma_power_of_two_grows((a - 1) as nat, (a - 1) as nat);
    }
}

impl RetryPolicy {
    /// A policy always allows a first try.
    #[verifier::type_invariant]
    closed spec fn allows_a_try(self) -> bool {
        self.total >= 1
    }

    /// How often a request is tried.
    pub closed spec fn attempts(self) -> nat {
        self.total as nat
    }

    /// The longest pause between two tries, in nanoseconds.
    pub closed spec fn longest_pause(self) -> nat {
        self.max_backoff as nat
    }

    /// A policy of `total` tries with pauses of at most `max_backoff`
    /// nanoseconds.
    pub fn new(total: u32, max_backoff: u128) -> (r: Self)
        requires
            total >= 1,
        ensures
            r.attempts() == total,
            r.longest_pause() == max_backoff,
    {
        Self { total, max_backoff }
    }

    /// The pause after the failed try with index `retry_count`, in nanoseconds.
    pub fn get_backoff_time(&self, retry_count: u32) -> (r: u128)
        ensures
            r == backoff_nanos(self.longest_pause(), retry_count as nat),
            r <= self.longest_pause(),
    {
        if self.max_backoff < 1_000_000_000 {
            proof {
                lemma_power_of_two_grows(0, retry_count as nat);
                let reached = power_of_two(retry_count as nat);
                assert(reached * 1_000_000_000 > self.max_backoff) by (nonlinear_arith)
                    requires
                        reached >= 1,
                        self.max_backoff < 1_000_000_000,
                ;
            }
            return self.max_backoff;
        }
        let mut seconds: u128 = 1;
        let mut doubled: u32 = 0;
        while doubled < retry_count
            invariant
                doubled <= retry_count,
                seconds == power_of_two(doubled as nat),
                seconds * 1_000_000_000 <= self.max_backoff,
            decreases retry_count - doubled,
        {
            if seconds > self.max_backoff / 2_000_000_000 {
                proof {
                    lemma_power_of_two_grows((doubled + 1) as nat, retry_count as nat);
                    let reached = power_of_two(retry_count as nat);
                    assert(reached * 1_000_000_000 > self.max_backoff) by (nonlinear_arith)
                        requires
                            reached >= 2 * seconds,
                            seconds > self.max_backoff / 2_000_000_000,
                    ;
                }
                return self.max_backoff;
            }
            assert(seconds * 2 * 1_000_000_000 <= self.max_backoff) by (nonlinear_arith)
                requires
                    seconds <= self.max_backoff / 2_000_000_000,
            ;
            seconds = seconds * 2;
            doubled += 1;
        }
        seconds * 1_000_000_000
    }

    pub open spec fn spec_after_failure(self, retry_count: nat) -> RetryStep {
        if retry_count + 1 < self.attempts() {
            RetryStep::Backoff(backoff_nanos(self.longest_pause(), retry_count) as u128)
        } else {
            RetryStep::GiveUp
        }
    }

    /// What follows the failure of the try with index `retry_count`: a
    /// pause and another try while tries remain, else the end.
    pub fn after_failure(&self, retry_count: u32) -> (r: RetryStep)
        ensures
            r == self.spec_after_failure(retry_count as nat),
    {
        proof {
            use_type_invariant(self);
        }
        if retry_count < self.total - 1 {
            RetryStep::Backoff(self.get_backoff_time(retry_count))
        } else {
            RetryStep::GiveUp
        }
    }

    /// Tries the request until it succeeds or the tries are used up, and
    /// pauses between two tries by calling `sleep` with the nanoseconds to
    /// wait. The first success is returned at once. After the last failure
    /// the error holds the number of tries and that failure.
    pub fn retry<T, E, F: Fn() -> Result<T, E>, S: Fn(u128)>(&self, request: F, sleep: S) -> (r:
        Result<T, RetryError<E>>)
        requires
            call_requires(request, ()),
            forall|nanos: u128| nanos <= self.longest_pause() ==> call_requires(sleep, (nanos,)),
        ensures
            match r {
                Ok(response) => call_ensures(request, (), Ok::<T, E>(response)),
                Err(error) => error.attempts == self.attempts() && call_ensures(
                    request,
                    (),
                    Err::<T, E>(error.source),
                ),
            },
    {
        proof {
            use_type_invariant(self);
        }
        let mut retry_count: u32 = 0;
        loop
            invariant
                retry_count < self.total,
                call_requires(request, ()),
                forall|nanos: u128| nanos <= self.longest_pause() ==> call_requires(sleep, (nanos,)),
            decreases self.total - retry_count,
        {
            match request() {
                Ok(response) => {
                    return Ok(response);
                },
                Err(error) => match self.after_failure(retry_count) {
                    RetryStep::Backoff(nanos) => {
                        sleep(nanos);
                        retry_count += 1;
                    },
                    RetryStep::GiveUp => {
                        return Err(RetryError { attempts: self.total, source: error });
                    },
                },
            }
        }
    }
}

impl RetryPolicy {
    /// How a request fares that fails `failures` times before it would
    /// succeed, from the try with index `retry_count` on, where every failure
    /// is followed by what [`RetryPolicy::spec_after_failure`] says: the
    /// number of tries made in all, and whether the last one succeeded.
    pub open spec fn outcome_after(self, failures: nat, retry_count: nat) -> (nat, bool)
        decreases failures,
    {
        if failures == 0 {
            (retry_count + 1, true)
        } else {
            match self.spec_after_failure(retry_count) {
                RetryStep::Backoff(_) => self.outcome_after((failures - 1) as nat, retry_count + 1),
                RetryStep::GiveUp => (retry_count + 1, false),
            }
        }
    }

    /// A request that would succeed after fewer failures than the policy has
    /// tries succeeds, with one try more than it failed. Any other request
    /// fails, after exactly as many tries as the policy has.
    pub proof fn lemma_outcome(self, failures: nat, retry_count: nat)
        requires
            retry_count < self.attempts(),
        ensures
            self.outcome_after(failures, retry_count) == if retry_count + failures
                < self.attempts() {
                (retry_count + failures + 1, true)
            } else {
                (self.attempts(), false)
            },
        decreases failures,
    {
        if failures > 0 && retry_count + 1 < self.attempts() {
            self.lemma_outcome((failures - 1) as nat, retry_count + 1);
        }
    }
}

impl Default for RetryPolicy {
    /// Ten tries, with pauses of at most two minutes.
    fn default() -> (r: Self)
        ensures
            r.attempts() == 10,
            r.longest_pause() == 120 * nanos_per_second(),
    {
        Self::new(10, 120_000_000_000)
    }
}

} // verus!
