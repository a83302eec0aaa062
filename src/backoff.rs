use vstd::prelude::*;

verus! {

/// Two to the power `k`.
pub open spec fn exp2(k: nat) -> nat
    decreases k,
{
    if k == 0 {
        1
    } else {
        2 * exp2((k - 1) as nat)
    }
}

/// The upper bound of the delay before the retry that follows `k` earlier
/// consecutive failures: the base doubled `k` times, but never above the cap.
pub open spec fn backoff_ceiling(base_ms: nat, cap_ms: nat, k: nat) -> nat {
    if base_ms * exp2(k) <= cap_ms {
        base_ms * exp2(k)
    } else {
        cap_ms
    }
}

/// How long a session waits before it reconnects: exponential growth from
/// `base_ms`, bounded by `cap_ms`, with full jitter applied to each delay.
#[derive(Clone, Copy, Debug, PartialEq, Eq, Structural)]
pub struct BackoffPolicy {
    pub base_ms: u64,
    pub cap_ms: u64,
}

impl BackoffPolicy {
    /// The base is positive and no larger than the cap.
    pub open spec fn wf(&self) -> bool {
        0 < self.base_ms && self.base_ms <= self.cap_ms
    }

    /// A policy with the given base and cap; `None` where the base is zero
    /// or above the cap.
    pub fn new(base_ms: u64, cap_ms: u64) -> (r: Option<BackoffPolicy>)
        ensures
            r is Some <==> (0 < base_ms && base_ms <= cap_ms),
            r is Some ==> r->Some_0 == (BackoffPolicy { base_ms, cap_ms }),
    {
        if base_ms == 0 || base_ms > cap_ms {
            None
        } else {
            Some(BackoffPolicy { base_ms, cap_ms })
        }
    }

    /// One second of base delay, thirty seconds of cap.
    pub fn standard() -> (r: BackoffPolicy)
        ensures
            r.wf(),
            r.base_ms == 1000,
            r.cap_ms == 30000,
    {
        BackoffPolicy { base_ms: 1000, cap_ms: 30000 }
    }
}

/// Each ceiling is the previous one doubled, bounded by the cap.
pub proof fn lemma_ceiling_doubles(base_ms: nat, cap_ms: nat, k: nat)
    requires
        0 < base_ms <= cap_ms,
    ensures
        backoff_ceiling(base_ms, cap_ms, 0) == base_ms,
        backoff_ceiling(base_ms, cap_ms, k + 1) == if 2 * backoff_ceiling(base_ms, cap_ms, k) <= cap_ms {
            2 * backoff_ceiling(base_ms, cap_ms, k)
        } else {
            cap_ms
        },
{
    assert(exp2(0) == 1);
    assert(exp2(k + 1) == 2 * exp2(k));
    assert(base_ms * exp2(k + 1) == 2 * (base_ms * exp2(k))) by (nonlinear_arith)
        requires
            exp2(k + 1) == 2 * exp2(k),
    ;
}

/// The ceilings never decrease from one retry to the next, and never
/// exceed the cap.
pub proof fn lemma_ceiling_monotone(base_ms: nat, cap_ms: nat, i: nat, j: nat)
    requires
        0 < base_ms <= cap_ms,
        i <= j,
    ensures
        backoff_ceiling(base_ms, cap_ms, i) <= backoff_ceiling(base_ms, cap_ms, j),
        backoff_ceiling(base_ms, cap_ms, j) <= cap_ms,
    decreases j - i,
{
    if i < j {
        lemma_ceiling_monotone(base_ms, cap_ms, i, (j - 1) as nat);
        lemma_ceiling_doubles(base_ms, cap_ms, (j - 1) as nat);
    }
}

/// The next ceiling from the current one: doubled, bounded by the cap.
pub fn next_ceiling(ceiling_ms: u64, cap_ms: u64) -> (r: u64)
    requires
        ceiling_ms <= cap_ms,
    ensures
        r == if 2 * ceiling_ms <= cap_ms { 2 * ceiling_ms } else { cap_ms as int },
{
    if ceiling_ms > cap_ms - ceiling_ms {
        cap_ms
    } else {
        ceiling_ms + ceiling_ms
    }
}

/// Full jitter: the delay actually waited, taken from a uniform draw, lies
/// between zero and the ceiling inclusive.
pub fn full_jitter(ceiling_ms: u64, draw: u64) -> (r: u64)
    ensures
        r <= ceiling_ms,
        r == draw as int % (ceiling_ms as int + 1),
{
    if ceiling_ms == u64::MAX {
        draw
    } else {
        draw % (ceiling_ms + 1)
    }
}

} // verus!
