//! A call guard that counts consecutive failures and blocks execution once
//! a fixed threshold is reached.

use vstd::prelude::*;

verus! {

/// The mathematical state of a counting guard: how many failures were
/// recorded since the last success, and the threshold it was built with.
pub struct GuardState {
    pub failures: nat,
    pub threshold: nat,
}

impl GuardState {
    /// A guard that has seen no failure yet.
    pub open spec fn fresh(threshold: nat) -> GuardState {
        GuardState { failures: 0, threshold }
    }

    /// Execution may proceed while fewer failures than the threshold were recorded.
    pub open spec fn permits(self) -> bool {
        self.failures < self.threshold
    }

    /// The state after one more failure.
    pub open spec fn after_failure(self) -> GuardState {
        GuardState { failures: self.failures + 1, threshold: self.threshold }
    }

    /// The state after a success: the count starts over.
    pub open spec fn after_success(self) -> GuardState {
        GuardState { failures: 0, threshold: self.threshold }
    }

    /// The state after `n` failures in a row.
    pub open spec fn after_failures(self, n: nat) -> GuardState
        decreases n,
    {
        if n == 0 {
            self
        } else {
            self.after_failures((n - 1) as nat).after_failure()
        }
    }
}

/// Number of consecutive failures after which a guard made by
/// [`CircuitBreaker::new`] stops permitting execution.
pub const DEFAULT_THRESHOLD: u32 = 3;

/// Counting call guard.
///
/// The stored counter saturates at `u32::MAX`; the ghost field keeps the
/// number of failures actually recorded, which is what the contracts speak of.
pub struct CircuitBreaker {
    failure_count: u32,
    threshold: u32,
    recorded: Ghost<nat>,
}

impl View for CircuitBreaker {
    type V = GuardState;

    closed spec fn view(&self) -> GuardState {
        GuardState { failures: self.recorded@, threshold: self.threshold as nat }
    }
}

impl CircuitBreaker {
    #[verifier::type_invariant]
    spec fn counter_tracks_recorded(self) -> bool {
        if self.recorded@ <= u32::MAX {
            self.failure_count == self.recorded@
        } else {
            self.failure_count == u32::MAX
        }
    }

    /// A guard with the default threshold and no recorded failure.
    pub fn new() -> (breaker: Self)
        ensures
            breaker@ == GuardState::fresh(DEFAULT_THRESHOLD as nat),
    {
        CircuitBreaker { failure_count: 0, threshold: DEFAULT_THRESHOLD, recorded: Ghost(0) }
    }

    /// A guard that blocks after `threshold` consecutive failures. With a
    /// threshold of zero it never permits execution.
    pub fn with_threshold(threshold: u32) -> (breaker: Self)
        ensures
            breaker@ == GuardState::fresh(threshold as nat),
    {
        CircuitBreaker { failure_count: 0, threshold, recorded: Ghost(0) }
    }

    /// Whether the guarded operation may be attempted now. The answer is a
    /// function of the guard's state alone, and asking does not change it.
    pub fn can_execute(&self) -> (allowed: bool)
        ensures
            allowed == self@.permits(),
    {
        proof {
            use_type_invariant(self);
        }
        self.failure_count < self.threshold
    }

    /// Records that the guarded operation failed.
    pub fn record_failure(&mut self)
        ensures
            final(self)@ == old(self)@.after_failure(),
    {
        proof {
            use_type_invariant(&*self);
        }
        let bumped: u32 = self.failure_count.saturating_add(1);
        *self = CircuitBreaker {
            failure_count: bumped,
            threshold: self.threshold,
            recorded: Ghost(self.recorded@ + 1),
        };
    }

    /// Records that the guarded operation succeeded.
    pub fn record_success(&mut self)
        ensures
            final(self)@ == old(self)@.after_success(),
    {
        *self = CircuitBreaker { failure_count: 0, threshold: self.threshold, recorded: Ghost(0) };
    }
}

/// `n` failures in a row add `n` to the count and leave the threshold alone.
pub proof fn lemma_failures_accumulate(g: GuardState, n: nat)
    ensures
        g.after_failures(n) == (GuardState { failures: g.failures + n, threshold: g.threshold }),
    decreases n,
{
    if n > 0 {
        lemma_failures_accumulate(g, (n - 1) as nat);
    }
}

/// Whatever a guard has seen before, once as many failures as its threshold
/// follow one another with no success in between, it no longer permits
/// execution; further failures keep it blocked.
pub proof fn lemma_blocks_after_threshold_failures(g: GuardState, n: nat)
    requires
        n >= g.threshold,
    ensures
        !g.after_failures(n).permits(),
{
    lemma_failures_accumulate(g, n);
}

/// Counted from a success, a guard permits execution exactly while fewer
/// failures than its threshold have followed.
pub proof fn lemma_permits_below_threshold(g: GuardState, n: nat)
    ensures
        g.after_success().after_failures(n).permits() <==> n < g.threshold,
{
    lemma_failures_accumulate(g.after_success(), n);
}

/// A success reopens a guard whose threshold is positive, however many
/// failures came before.
pub proof fn lemma_success_permits(g: GuardState)
    requires
        g.threshold > 0,
    ensures
        g.after_success().permits(),
{
}

/// Recording outcomes never changes the threshold a guard was built with.
pub proof fn lemma_threshold_is_fixed(g: GuardState, n: nat)
    ensures
        g.after_failure().threshold == g.threshold,
        g.after_success().threshold == g.threshold,
        g.after_failures(n).threshold == g.threshold,
{
    lemma_failures_accumulate(g, n);
}

} // verus!
