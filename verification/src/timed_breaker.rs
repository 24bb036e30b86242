//! A call guard that opens on a failure and lets calls through again once a
//! fixed cooldown has passed since the last failure.

use std::time::{Duration, SystemTime, SystemTimeError, UNIX_EPOCH};
use vstd::prelude::*;

verus! {

/// Seconds that must have passed since the last failure before an open
/// guard permits execution again.
pub const COOLDOWN_SECONDS: u64 = 60;

/// The three positions of a guard.
#[derive(Clone, Copy, Debug, PartialEq, Eq, Structural)]
pub enum BreakerState {
    /// Calls go through.
    Closed,
    /// Calls are held back until the cooldown has passed.
    Open,
    /// Trial calls go through to probe for recovery.
    HalfOpen,
}

/// The mathematical state of a timed guard. Instants are whole seconds on
/// one clock.
pub struct TimedGuardState {
    pub state: BreakerState,
    pub last_failure: nat,
}

impl TimedGuardState {
    /// A closed guard that has never failed.
    pub open spec fn fresh() -> TimedGuardState {
        TimedGuardState { state: BreakerState::Closed, last_failure: 0 }
    }

    /// Whether execution may proceed at instant `now`: always when closed or
    /// half-open; when open, only once more than the cooldown lies between
    /// the last failure and `now`.
    pub open spec fn permits_at(self, now: nat) -> bool {
        match self.state {
            BreakerState::Closed => true,
            BreakerState::Open => now - self.last_failure > COOLDOWN_SECONDS,
            BreakerState::HalfOpen => true,
        }
    }

    /// The state after a failure recorded at instant `at`.
    pub open spec fn after_failure(self, at: nat) -> TimedGuardState {
        TimedGuardState { state: BreakerState::Open, last_failure: at }
    }

    /// The state after a success: closed, with the last failure's instant kept.
    pub open spec fn after_success(self) -> TimedGuardState {
        TimedGuardState { state: BreakerState::Closed, last_failure: self.last_failure }
    }
}

/// `std::time::SystemTime`, a reading of the system clock. It is carried
/// from one clock call to the next and never looked into.
#[verifier::external_type_specification]
#[verifier::external_body]
pub struct ExSystemTime(SystemTime);

/// `std::time::SystemTimeError`, the failure of `SystemTime::duration_since`.
/// Only its presence is looked at.
#[verifier::external_type_specification]
#[verifier::external_body]
pub struct ExSystemTimeError(SystemTimeError);

/// Calls `SystemTime::now`. Nothing is claimed of the reading.
#[verifier::external_body]
fn read_clock() -> (reading: SystemTime) {
    SystemTime::now()
}

/// Calls `SystemTime::duration_since` with `UNIX_EPOCH` as the earlier
/// instant. Nothing is claimed of the outcome: the call fails when the
/// reading lies before the epoch.
#[verifier::external_body]
fn since_epoch(reading: &SystemTime) -> (elapsed: Result<Duration, SystemTimeError>) {
    reading.duration_since(UNIX_EPOCH)
}

/// Calls `Duration::as_secs`. Nothing is claimed of the number.
#[verifier::external_body]
fn whole_seconds(elapsed: &Duration) -> (seconds: u64) {
    elapsed.as_secs()
}

/// The instant that a reading of the clock stands for: its offset from the
/// epoch in whole seconds, or zero where the clock is set before the epoch
/// and has no such offset.
pub fn instant_of(offset: Option<u64>) -> (instant: u64)
    ensures
        instant == match offset {
            Some(seconds) => seconds,
            None => 0,
        },
{
    match offset {
        Some(seconds) => seconds,
        None => 0,
    }
}

/// The clock's reading in whole seconds since the epoch: [`instant_of`] what
/// the clock shows. Nothing can be said of it beforehand.
fn epoch_seconds() -> u64 {
    let reading = read_clock();
    let offset = match since_epoch(&reading) {
        Ok(elapsed) => Some(whole_seconds(&elapsed)),
        Err(_) => None,
    };
    instant_of(offset)
}

/// Timed call guard.
pub struct AICircuitBreaker {
    last_failure: u64,
    state: BreakerState,
}

impl View for AICircuitBreaker {
    type V = TimedGuardState;

    closed spec fn view(&self) -> TimedGuardState {
        TimedGuardState { state: self.state, last_failure: self.last_failure as nat }
    }
}

impl AICircuitBreaker {
    /// A closed guard that has never failed.
    pub fn new() -> (breaker: Self)
        ensures
            breaker@ == TimedGuardState::fresh(),
    {
        AICircuitBreaker { last_failure: 0, state: BreakerState::Closed }
    }

    /// A guard in a given position whose last failure was at `last_failure`.
    pub fn from_parts(state: BreakerState, last_failure: u64) -> (breaker: Self)
        ensures
            breaker@ == (TimedGuardState { state, last_failure: last_failure as nat }),
    {
        AICircuitBreaker { last_failure, state }
    }

    /// The guard's position.
    pub fn state(&self) -> (state: BreakerState)
        ensures
            state == self@.state,
    {
        self.state
    }

    /// The instant of the last recorded failure, zero if there was none.
    pub fn last_failure(&self) -> (at: u64)
        ensures
            at as nat == self@.last_failure,
    {
        self.last_failure
    }

    /// Whether the guarded operation may be attempted at instant `now`.
    /// The answer is a function of the guard's state and `now` alone, and
    /// asking does not change the guard.
    pub fn can_execute_at(&self, now: u64) -> (allowed: bool)
        ensures
            allowed == self@.permits_at(now as nat),
    {
        match self.state {
            BreakerState::Closed => true,
            BreakerState::Open => now > self.last_failure && now - self.last_failure
                > COOLDOWN_SECONDS,
            BreakerState::HalfOpen => true,
        }
    }

    /// Whether the guarded operation may be attempted now, by the system
    /// clock: the answer of [`Self::can_execute_at`] for the clock's reading.
    pub fn can_execute(&self) -> (allowed: bool)
        ensures
            exists|now: nat| allowed == self@.permits_at(now),
            self@.state != BreakerState::Open ==> allowed,
    {
        let now = epoch_seconds();
        let allowed = self.can_execute_at(now);
        assert(allowed == self@.permits_at(now as nat));
        allowed
    }

    /// Records that the guarded operation failed at instant `now`.
    pub fn record_failure_at(&mut self, now: u64)
        ensures
            final(self)@ == old(self)@.after_failure(now as nat),
    {
        self.state = BreakerState::Open;
        self.last_failure = now;
    }

    /// Records that the guarded operation failed now, by the system clock.
    pub fn record_failure(&mut self)
        ensures
            exists|at: nat| final(self)@ == old(self)@.after_failure(at),
    {
        let now = epoch_seconds();
        self.record_failure_at(now);
        assert(self@ == old(self)@.after_failure(now as nat));
    }

    /// Records that the guarded operation succeeded.
    pub fn record_success(&mut self)
        ensures
            final(self)@ == old(self)@.after_success(),
    {
        self.state = BreakerState::Closed;
    }
}

/// Right after a failure the guard blocks, it stays blocked for the whole
/// cooldown, and it permits execution at every instant past the cooldown.
pub proof fn lemma_failure_blocks_for_cooldown(g: TimedGuardState, at: nat, now: nat)
    ensures
        !g.after_failure(at).permits_at(at),
        g.after_failure(at).permits_at(now) <==> now > at + COOLDOWN_SECONDS,
{
}

/// A success closes the guard: it permits execution at every instant.
pub proof fn lemma_success_permits_always(g: TimedGuardState, now: nat)
    ensures
        g.after_success().permits_at(now),
{
}

/// With no outcome recorded in between, a guard that is asked again gives
/// the same answer, unless it is open and its cooldown ends between the two
/// instants: then the answer turns from no to yes. It never turns from yes
/// to no.
pub proof fn lemma_answer_is_stable(g: TimedGuardState, first: nat, second: nat)
    requires
        first <= second,
    ensures
        g.permits_at(first) ==> g.permits_at(second),
        g.state != BreakerState::Open || second <= g.last_failure + COOLDOWN_SECONDS || first
            > g.last_failure + COOLDOWN_SECONDS ==> g.permits_at(first) == g.permits_at(second),
{
}

} // verus!
