use vstd::prelude::*;
use vstd::arithmetic::power::lemma_pow0;
use crate::job::{bumped, Outcome, Reported};
use vstd::arithmetic::power2::{pow2, lemma_pow2_unfold, lemma_pow2_strictly_increases};

verus! {

/// The delay before retry number `attempts`: `base` doubled once per earlier
/// attempt, never more than `cap`.
pub open spec fn backoff(attempts: nat, base: nat, cap: nat) -> nat {
    if base * pow2(attempts) < cap {
        base * pow2(attempts)
    } else {
        cap
    }
}

proof fn lemma_backoff_grows(i: nat, n: nat, base: nat, cap: nat)
    requires
        i <= n,
        base * pow2(i) >= cap,
    ensures
        backoff(n, base, cap) == cap,
{
    if i < n {
        lemma_pow2_strictly_increases(i, n);
    }
    assert(base * pow2(n) >= base * pow2(i)) by (nonlinear_arith)
        requires pow2(n) >= pow2(i);
}

/// The delay, in the caller's unit, before the retry that follows `attempts`
/// failures: exponential from `base`, held at `cap`.
pub fn backoff_delay(attempts: u32, base: u64, cap: u64) -> (r: u64)
    ensures
        r == backoff(attempts as nat, base as nat, cap as nat),
{
    let mut d: u64 = if base < cap { base } else { cap };
    let mut i: u32 = 0;
    proof {
        lemma_pow0(2);
        assert(pow2(0) == 1);
        assert(base * pow2(0) == base);
    }
    while i < attempts
        invariant
            0 <= i <= attempts,
            d == backoff(i as nat, base as nat, cap as nat),
        decreases attempts - i,
    {
        if d == cap {
            proof {
                assert(base * pow2(i as nat) >= cap);
                lemma_backoff_grows(i as nat, attempts as nat, base as nat, cap as nat);
            }
            return d;
        }
        proof {
            lemma_pow2_unfold((i + 1) as nat);
            assert(base * pow2((i + 1) as nat) == 2 * (base * pow2(i as nat))) by (nonlinear_arith)
                requires pow2((i + 1) as nat) == 2 * pow2(i as nat);
        }
        if d >= cap - d {
            d = cap;
        } else {
            d = 2 * d;
        }
        i = i + 1;
    }
    d
}

/// How long a worker waits between calls: retries after a failure back off
/// from `retry_base`, polls of a running job from `poll_base`, both held at
/// `cap`.
#[derive(Clone, Copy, Debug)]
pub struct Pacing {
    pub retry_base: u64,
    pub poll_base: u64,
    pub cap: u64,
}

/// The wait before the next call after outcome `o`, and the count of pending
/// answers in a row after it; `attempts` failures and `pending` pending
/// answers in a row came before `o`. A failure waits by the attempt count, a
/// pending answer by the pending count, and anything else goes on at once.
pub open spec fn pause(p: Pacing, o: Reported, attempts: u32, pending: u32) -> (u64, u32) {
    match o {
        Reported::Transient | Reported::DeliverError => (
            backoff(attempts as nat, p.retry_base as nat, p.cap as nat) as u64,
            0u32,
        ),
        Reported::PollPending => (backoff(pending as nat, p.poll_base as nat, p.cap as nat) as u64, bumped(pending)),
        _ => (0u64, 0u32),
    }
}

/// The wait before the next call after outcome `o`, and the new count of
/// pending answers in a row.
pub fn pause_after(p: &Pacing, o: &Outcome, attempts: u32, pending: u32) -> (r: (u64, u32))
    ensures
        r == pause(*p, o@, attempts, pending),
{
    match o {
        Outcome::Transient | Outcome::DeliverError => (backoff_delay(attempts, p.retry_base, p.cap), 0),
        Outcome::PollPending => {
            let next = if pending < u32::MAX {
                pending + 1
            } else {
                pending
            };
            (backoff_delay(pending, p.poll_base, p.cap), next)
        },
        _ => (0, 0),
    }
}

} // verus!
