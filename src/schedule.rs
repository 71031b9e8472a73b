//! The bounded, fixed-interval retry schedule.
use vstd::prelude::*;

verus! {

/// Attempts made for one key before its upload is given up.
pub const DEFAULT_MAX_ATTEMPTS: usize = 5;

/// Milliseconds waited between two attempts.
pub const DEFAULT_RETRY_WAIT_MS: u64 = 3000;

/// How often one key's upload is attempted, and how long to wait in between.
#[derive(Clone, Copy, Debug, PartialEq, Eq, Structural)]
pub struct RetryPolicy {
    pub max_attempts: usize,
    pub interval_ms: u64,
}

/// `count` waits of `interval` milliseconds each.
pub open spec fn fixed_schedule(interval: u64, count: nat) -> Seq<u64> {
    Seq::new(count, |_i: int| interval)
}

impl RetryPolicy {
    /// At least one attempt is made.
    pub open spec fn wf(self) -> bool {
        self.max_attempts >= 1
    }

    /// The policy with the given bound and interval, if it allows an attempt.
    pub fn new(max_attempts: usize, interval_ms: u64) -> (r: Option<RetryPolicy>)
        ensures
            max_attempts >= 1 ==> r == Some(RetryPolicy { max_attempts, interval_ms }),
            max_attempts == 0 ==> r is None,
    {
        if max_attempts >= 1 {
            Some(RetryPolicy { max_attempts, interval_ms })
        } else {
            None
        }
    }

    pub fn default_policy() -> (r: RetryPolicy)
        ensures
            r == (RetryPolicy { max_attempts: DEFAULT_MAX_ATTEMPTS, interval_ms: DEFAULT_RETRY_WAIT_MS }),
            r.wf(),
    {
        RetryPolicy { max_attempts: DEFAULT_MAX_ATTEMPTS, interval_ms: DEFAULT_RETRY_WAIT_MS }
    }

    /// The waits one key's upload may use: one fewer than the attempts, since
    /// the first attempt is made at once.
    pub open spec fn delays(self) -> Seq<u64> {
        fixed_schedule(self.interval_ms, (self.max_attempts - 1) as nat)
    }

    /// A fresh schedule for one key's upload.
    pub fn schedule(&self) -> (r: RetrySchedule)
        requires
            self.wf(),
        ensures
            r@ == self.delays(),
    {
        RetrySchedule::fixed(self.interval_ms, self.max_attempts - 1)
    }
}

/// A finite sequence of waits, consumed from the front; it cannot be
/// restarted.
#[derive(Debug)]
pub struct RetrySchedule {
    /// The waits still to come, the next one last.
    rest: Vec<u64>,
}

impl View for RetrySchedule {
    type V = Seq<u64>;

    closed spec fn view(&self) -> Seq<u64> {
        Seq::new(self.rest@.len(), |i: int| self.rest@[self.rest@.len() - 1 - i])
    }
}

/// Relies on retry::delay::Fixed: an endless iterator that yields, each time,
/// the duration it was made from.
#[verifier::external_body]
fn fixed_delays(interval_ms: u64, count: usize) -> (r: Vec<u64>)
    ensures
        r@ == fixed_schedule(interval_ms, count as nat),
{
    retry::delay::Fixed::from_millis(interval_ms).take(count).map(|d| d.as_millis() as u64).collect()
}

impl RetrySchedule {
    /// `count` waits of `interval_ms` milliseconds.
    pub fn fixed(interval_ms: u64, count: usize) -> (r: RetrySchedule)
        ensures
            r@ == fixed_schedule(interval_ms, count as nat),
    {
        let rest = fixed_delays(interval_ms, count);
        let r = RetrySchedule { rest };
        assert(r@ =~= fixed_schedule(interval_ms, count as nat));
        r
    }

    pub fn is_exhausted(&self) -> (r: bool)
        ensures
            r == (self@.len() == 0),
    {
        self.rest.len() == 0
    }

    /// Takes the next wait, if any is left.
    pub fn next_delay(&mut self) -> (r: Option<u64>)
        ensures
            old(self)@.len() == 0 ==> r is None && final(self)@ == old(self)@,
            old(self)@.len() > 0 ==> r == Some(old(self)@[0]) && final(self)@ == old(self)@.skip(1),
    {
        let r = self.rest.pop();
        assert(self@ =~= old(self)@.skip(1) || old(self)@.len() == 0);
        r
    }
}

} // verus!
