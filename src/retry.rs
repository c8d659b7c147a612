//! Retry policy: maps the number of attempts a job has made to a decision
//! between trying again after a delay and giving up.
use vstd::arithmetic::power2::{lemma_pow2_pos, lemma_pow2_strictly_increases, lemma_pow2_unfold, pow2};
use vstd::prelude::*;

verus! {

/// How long a failed job waits before it may be leased again.
#[derive(Clone, Copy, Debug, PartialEq, Eq, Structural)]
pub enum Backoff {
    /// The same delay (in seconds) after every failure.
    Fixed { delay: u64 },
    /// `base * 2^(attempts - 1)` seconds, never more than `cap`.
    Exponential { base: u64, cap: u64 },
}

/// What happens to a job whose attempt failed.
#[derive(Clone, Copy, Debug, PartialEq, Eq, Structural)]
pub enum Decision {
    /// Put the job back, leasable again after `delay` seconds.
    Retry { delay: u64 },
    /// The job has used up its attempts and becomes terminally failed.
    GiveUp,
}

/// A bounded retry policy.
#[derive(Clone, Copy, Debug, PartialEq, Eq, Structural)]
pub struct RetryPolicy {
    /// Total number of attempts a job may make, the first one included.
    pub max_attempts: u64,
    pub backoff: Backoff,
}

/// The exponent of the exponential backoff after `attempts` attempts.
pub open spec fn backoff_exponent(attempts: u64) -> nat {
    if attempts == 0 {
        0
    } else {
        (attempts - 1) as nat
    }
}

/// `min(base * 2^(attempts - 1), cap)`.
pub open spec fn exponential_delay(base: u64, cap: u64, attempts: u64) -> nat {
    let raw = base * pow2(backoff_exponent(attempts));
    if raw < cap {
        raw as nat
    } else {
        cap as nat
    }
}

/// The delay that `backoff` prescribes after `attempts` attempts.
pub open spec fn backoff_delay(backoff: Backoff, attempts: u64) -> nat {
    match backoff {
        Backoff::Fixed { delay } => delay as nat,
        Backoff::Exponential { base, cap } => exponential_delay(base, cap, attempts),
    }
}

/// The decision of `policy` for a job that has made `attempts` attempts.
pub open spec fn decision_for(policy: RetryPolicy, attempts: u64) -> Decision {
    if attempts >= policy.max_attempts {
        Decision::GiveUp
    } else {
        Decision::Retry { delay: backoff_delay(policy.backoff, attempts) as u64 }
    }
}

proof fn lemma_exponential_saturates(base: u64, cap: u64, i: u64, n: u64)
    requires
        1 <= i <= n,
        base * pow2(backoff_exponent(i)) >= cap,
    ensures
        exponential_delay(base, cap, n) == cap,
{
    if i < n {
        lemma_pow2_strictly_increases(backoff_exponent(i), backoff_exponent(n));
        let a = pow2(backoff_exponent(i));
        let b = pow2(backoff_exponent(n));
        assert(base * a <= base * b) by (nonlinear_arith)
            requires
                a < b,
        ;
    }
}

/// `min(base * 2^(attempts - 1), cap)`, computed without overflow.
pub fn exponential_backoff(base: u64, cap: u64, attempts: u64) -> (r: u64)
    ensures
        r == exponential_delay(base, cap, attempts),
{
    let n: u64 = if attempts == 0 { 1 } else { attempts };
    assert(backoff_exponent(n) == backoff_exponent(attempts));
    let mut i: u64 = 1;
    let mut d: u64 = if base < cap { base } else { cap };
    proof {
        assert(pow2(0) == 1) by {
            vstd::arithmetic::power2::lemma2_to64();
        }
        assert(backoff_exponent(1) == 0);
    }
    while i < n && d < cap
        invariant
            1 <= i <= n,
            d as nat == exponential_delay(base, cap, i),
            backoff_exponent(n) == backoff_exponent(attempts),
        decreases n - i,
    {
        let next: u64 = if d > cap - d { cap } else { d + d };
        proof {
            lemma_pow2_unfold(backoff_exponent((i + 1) as u64));
            assert(backoff_exponent((i + 1) as u64) == backoff_exponent(i) + 1);
            let p = pow2(backoff_exponent(i));
            assert(base * (2 * p) == 2 * (base * p)) by (nonlinear_arith);
        }
        i = i + 1;
        d = next;
    }
    if i < n {
        proof {
            lemma_pow2_pos(backoff_exponent(i));
            lemma_exponential_saturates(base, cap, i, n);
        }
    }
    d
}

impl RetryPolicy {
    /// The delay the backoff prescribes after `attempts` attempts.
    pub fn delay_after(&self, attempts: u64) -> (r: u64)
        ensures
            r == backoff_delay(self.backoff, attempts),
    {
        match self.backoff {
            Backoff::Fixed { delay } => delay,
            Backoff::Exponential { base, cap } => exponential_backoff(base, cap, attempts),
        }
    }

    /// Gives up once `attempts >= max_attempts`; otherwise retries after the
    /// backoff's delay.
    pub fn decide(&self, attempts: u64) -> (r: Decision)
        ensures
            r == decision_for(*self, attempts),
    {
        if attempts >= self.max_attempts {
            Decision::GiveUp
        } else {
            Decision::Retry { delay: self.delay_after(attempts) }
        }
    }
}

} // verus!
