use vstd::prelude::*;

verus! {

/// Exponential backoff parameters: at most `max_retries` retries; the first
/// wait is `initial_ms` milliseconds, and each later wait is the previous one
/// scaled by the rational `multiplier_num / multiplier_den`.
#[derive(Clone, Copy, Debug)]
pub struct Policy {
    pub max_retries: u16,
    pub initial_ms: u64,
    pub multiplier_num: u64,
    pub multiplier_den: u64,
}

impl Policy {
    /// A policy is meaningful when the initial wait is positive and the
    /// multiplier is a positive rational.
    pub open spec fn wf(self) -> bool {
        &&& self.initial_ms > 0
        &&& self.multiplier_num > 0
        &&& self.multiplier_den > 0
    }
}

/// The wait that follows a wait of `last_ms`, scaled by `num / den` and
/// saturating at `u64::MAX` milliseconds.
pub open spec fn scaled_wait(last_ms: u64, num: u64, den: u64) -> u64
    recommends
        den > 0,
{
    let p = (last_ms * num) / (den as int);
    if p > u64::MAX { u64::MAX } else { p as u64 }
}

/// Backoff state for one attempt cycle: how many retries have been granted so
/// far and the wait the latest one chose.
#[derive(Clone, Copy)]
pub struct Retrier {
    pub policy: Policy,
    pub last: Option<u64>,
    pub attempts: u16,
}

impl Retrier {
    pub open spec fn wf(self) -> bool {
        self.policy.wf()
    }

    /// No retries are left once `max_retries` have been granted.
    pub open spec fn exhausted(self) -> bool {
        self.attempts >= self.policy.max_retries
    }

    /// The wait the next granted retry will choose: `initial_ms` for the
    /// first, the scaled previous wait for every later one.
    pub open spec fn next_wait(self) -> u64 {
        match self.last {
            None => self.policy.initial_ms,
            Some(w) => scaled_wait(w, self.policy.multiplier_num, self.policy.multiplier_den),
        }
    }

    /// The state after one granted retry.
    pub open spec fn stepped(self) -> Retrier {
        Retrier {
            policy: self.policy,
            last: Some(self.next_wait()),
            attempts: (self.attempts + 1) as u16,
        }
    }

    /// What `retry` returns in this state: `None` when exhausted, otherwise
    /// the number of the retry being granted.
    pub open spec fn retry_result(self) -> Option<u16> {
        if self.exhausted() {
            None
        } else {
            Some((self.attempts + 1) as u16)
        }
    }

    pub fn new(policy: Policy) -> (r: Retrier)
        ensures
            r == (Retrier { policy, last: None::<u64>, attempts: 0u16 }),
    {
        Retrier { policy, last: None, attempts: 0 }
    }

    /// Asks for one more retry. Returns `None` without changing anything when
    /// the retries are exhausted; otherwise records the wait to perform (the
    /// caller suspends for `last_wait()` milliseconds) and returns the number
    /// of this retry.
    pub fn retry(&mut self) -> (r: Option<u16>)
        requires
            old(self).wf(),
        ensures
            r == old(self).retry_result(),
            old(self).exhausted() ==> *final(self) == *old(self),
            !old(self).exhausted() ==> *final(self) == old(self).stepped(),
    {
        if self.attempts >= self.policy.max_retries {
            return None;
        }

        let dur: u64 = match self.last {
            None => self.policy.initial_ms,
            Some(last_dur) => mul_div_sat(
                last_dur,
                self.policy.multiplier_num,
                self.policy.multiplier_den,
            ),
        };

        self.last = Some(dur);
        self.attempts = self.attempts + 1;

        Some(self.attempts)
    }

    /// The wait chosen by the most recent granted retry, in milliseconds.
    pub fn last_wait(&self) -> (r: Option<u64>)
        ensures
            r == self.last,
    {
        self.last
    }
}

/// For every policy without retries, the first `retry` call (and every later
/// one) answers `None`: the retrier is exhausted from the start.
pub proof fn lemma_zero_max_retries_never_retries(r: Retrier)
    requires
        r.policy.max_retries == 0,
    ensures
        r.retry_result() is None,
{
}

/// Computes `min(last * num / den, u64::MAX)` without overflow.
fn mul_div_sat(last: u64, num: u64, den: u64) -> (r: u64)
    requires
        den > 0,
    ensures
        r == scaled_wait(last, num, den),
{
    proof {
        assert((last as int) * (num as int) <= (u64::MAX as int) * (u64::MAX as int))
            by (nonlinear_arith)
            requires
                last <= u64::MAX,
                num <= u64::MAX,
        ;
    }
    let p: u128 = (last as u128) * (num as u128);
    let q: u128 = p / (den as u128);
    if q > u64::MAX as u128 {
        u64::MAX
    } else {
        q as u64
    }
}

} // verus!
