//! The state of a run and the decision taken after each attempt.

use vstd::prelude::*;
use crate::backoff::{grow, next_wait, valid_intervals, Multiplier, Ratio};
use crate::outcome::{AttemptOutcome, RunResult};

verus! {

/// What the supervisor does once an attempt has ended.
#[derive(Debug, Clone, Copy, PartialEq, Eq, Structural)]
pub enum Decision {
    /// The run is over, with this result.
    Finish(RunResult),
    /// Sleep for `wait` milliseconds, then start over with the deadline
    /// check.
    Retry { wait: u64 },
}

/// Why a run cannot start from the settings given.
#[derive(Debug, Clone, Copy, PartialEq, Eq, Structural)]
pub enum ConfigError {
    /// The first wait is zero.
    ZeroInterval,
    /// The longest wait allowed is shorter than the first wait.
    MaxIntervalBelowInitial,
}

/// The state of a run as mathematics sees it.
pub struct RetryModel {
    /// The wait that follows the next failed attempt.
    pub wait: nat,
    /// The factor by which the wait grows.
    pub multiplier: Ratio,
    /// The longest wait allowed.
    pub max_wait: nat,
    /// The clock reading after which no attempt is started.
    pub deadline: nat,
    /// How many more failed attempts are retried.
    pub tries_remaining: nat,
}

impl RetryModel {
    /// The wait is not zero and not above the cap, the multiplier is
    /// positive, and the cap is a number of milliseconds that 64 bits hold.
    pub open spec fn valid(self) -> bool {
        valid_intervals(self.wait, self.multiplier, self.max_wait) && self.max_wait <= u64::MAX
    }

    /// At clock reading `now` the time allowed for the run is used up.
    pub open spec fn expired(self, now: nat) -> bool {
        now > self.deadline
    }

    /// What the deadline check says at clock reading `now`: the run is over
    /// where the time is used up, and nothing where the attempt goes ahead.
    pub open spec fn deadline_check(self, now: nat) -> Option<RunResult> {
        if self.expired(now) {
            Some(RunResult::MaxElapsedExceeded)
        } else {
            None
        }
    }

    /// The state after one retry: the wait has grown and one try is spent.
    /// Deadline, multiplier and cap stay as they are.
    pub open spec fn advanced(self) -> RetryModel {
        RetryModel {
            wait: next_wait(self.wait, self.multiplier, self.max_wait),
            tries_remaining: (self.tries_remaining - 1) as nat,
            ..self
        }
    }

    /// An attempt that ended in `outcome` is retried.
    pub open spec fn retries(self, outcome: AttemptOutcome) -> bool {
        outcome is FailureWithCode && self.tries_remaining > 0
    }

    /// What follows an attempt that ended in `outcome`.
    pub open spec fn decide(self, outcome: AttemptOutcome) -> Decision {
        match outcome {
            AttemptOutcome::Success => Decision::Finish(RunResult::Success),
            AttemptOutcome::LaunchFailed(_) => Decision::Finish(RunResult::UnableToLaunch),
            AttemptOutcome::KilledBySignal => Decision::Finish(RunResult::KilledBySignal),
            AttemptOutcome::FailureWithCode(_) => if self.tries_remaining == 0 {
                Decision::Finish(RunResult::MaxRetriesExceeded)
            } else {
                Decision::Retry { wait: self.wait as u64 }
            },
        }
    }

    /// The state after an attempt that ended in `outcome`: advanced where
    /// the attempt is retried, unchanged where the run is over.
    pub open spec fn after(self, outcome: AttemptOutcome) -> RetryModel {
        if self.retries(outcome) {
            self.advanced()
        } else {
            self
        }
    }
}

/// The state of a run: what the supervisor keeps from one attempt to the
/// next.
#[derive(Debug, Clone, Copy, PartialEq, Eq)]
pub struct RetryState {
    wait: u64,
    multiplier: Multiplier,
    max_wait: u64,
    deadline: u64,
    tries_remaining: u32,
}

impl View for RetryState {
    type V = RetryModel;

    closed spec fn view(&self) -> RetryModel {
        RetryModel {
            wait: self.wait as nat,
            multiplier: self.multiplier@,
            max_wait: self.max_wait as nat,
            deadline: self.deadline as nat,
            tries_remaining: self.tries_remaining as nat,
        }
    }
}

/// The fault in the settings, if there is one. A zero first wait is
/// reported before a cap that is too low.
pub open spec fn config_fault(initial_interval: u64, max_interval: u64) -> Option<ConfigError> {
    if initial_interval == 0 {
        Some(ConfigError::ZeroInterval)
    } else if max_interval < initial_interval {
        Some(ConfigError::MaxIntervalBelowInitial)
    } else {
        None
    }
}

impl RetryState {
    /// What holds of every state: its model is valid.
    #[verifier::type_invariant]
    pub open spec fn well_formed(&self) -> bool {
        self@.valid()
    }

    /// The state from which a run starts: the first wait, the multiplier,
    /// the longest wait allowed, the clock reading after which no attempt is
    /// started, and the number of retries. The first wait must not be zero
    /// and must not exceed the longest wait.
    pub fn new(
        initial_interval: u64,
        multiplier: Multiplier,
        max_interval: u64,
        deadline: u64,
        max_tries: u32,
    ) -> (made: Result<RetryState, ConfigError>)
        ensures
            match made {
                Ok(state) => config_fault(initial_interval, max_interval) is None && state@ == (
                RetryModel {
                    wait: initial_interval as nat,
                    multiplier: multiplier@,
                    max_wait: max_interval as nat,
                    deadline: deadline as nat,
                    tries_remaining: max_tries as nat,
                }) && state@.valid(),
                Err(fault) => config_fault(initial_interval, max_interval) == Some(fault),
            },
    {
        if initial_interval == 0 {
            Err(ConfigError::ZeroInterval)
        } else if max_interval < initial_interval {
            Err(ConfigError::MaxIntervalBelowInitial)
        } else {
            proof {
                use_type_invariant(&multiplier);
            }
            Ok(
                RetryState {
                    wait: initial_interval,
                    multiplier,
                    max_wait: max_interval,
                    deadline,
                    tries_remaining: max_tries,
                },
            )
        }
    }

    /// The wait that follows the next failed attempt, in milliseconds. It
    /// is not zero and not above the longest wait allowed.
    pub fn wait(&self) -> (wait: u64)
        ensures
            wait == self@.wait,
            self@.valid(),
    {
        proof {
            use_type_invariant(self);
        }
        self.wait
    }

    /// The factor by which the wait grows.
    pub fn multiplier(&self) -> (multiplier: Multiplier)
        ensures
            multiplier@ == self@.multiplier,
    {
        self.multiplier
    }

    /// The longest wait allowed, in milliseconds.
    pub fn max_wait(&self) -> (max_wait: u64)
        ensures
            max_wait == self@.max_wait,
    {
        self.max_wait
    }

    /// The clock reading after which no attempt is started.
    pub fn deadline(&self) -> (deadline: u64)
        ensures
            deadline == self@.deadline,
    {
        self.deadline
    }

    /// How many more failed attempts are retried.
    pub fn tries_remaining(&self) -> (tries: u32)
        ensures
            tries == self@.tries_remaining,
    {
        self.tries_remaining
    }

    /// The deadline check, which comes before every attempt, the first one
    /// too. Where the clock reading `now` is past the deadline the run is
    /// over, with `MaxElapsedExceeded`, and no attempt is made; otherwise
    /// the attempt goes ahead.
    pub fn check_deadline(&self, now: u64) -> (over: Option<RunResult>)
        ensures
            over == self@.deadline_check(now as nat),
    {
        if now > self.deadline {
            Some(RunResult::MaxElapsedExceeded)
        } else {
            None
        }
    }

    /// Takes in how an attempt ended and says what to do next. A success, a
    /// launch failure and a signal end the run and leave the state as it is.
    /// A nonzero exit ends the run where no tries remain; otherwise the
    /// decision is to sleep for the current wait, and the state moves on:
    /// the wait grows and one try is spent.
    pub fn on_outcome(&mut self, outcome: &AttemptOutcome) -> (decision: Decision)
        ensures
            decision == old(self)@.decide(*outcome),
            final(self)@ == old(self)@.after(*outcome),
            final(self)@.valid(),
    {
        proof {
            use_type_invariant(&*self);
        }
        match outcome {
            AttemptOutcome::Success => Decision::Finish(RunResult::Success),
            AttemptOutcome::LaunchFailed(_) => Decision::Finish(RunResult::UnableToLaunch),
            AttemptOutcome::KilledBySignal => Decision::Finish(RunResult::KilledBySignal),
            AttemptOutcome::FailureWithCode(_) => {
                if self.tries_remaining == 0 {
                    Decision::Finish(RunResult::MaxRetriesExceeded)
                } else {
                    let wait = self.wait;
                    let next = grow(wait, &self.multiplier, self.max_wait);
                    self.wait = next;
                    self.tries_remaining = self.tries_remaining - 1;
                    Decision::Retry { wait }
                }
            },
        }
    }
}

/// What an attempt leaves as it was: after any outcome the state is still
/// valid, deadline, multiplier and cap are unchanged, the wait is at most
/// the cap, and the tries that remain have not grown. They shrink by one
/// exactly where the attempt is retried.
pub proof fn lemma_after_keeps_settings(state: RetryModel, outcome: AttemptOutcome)
    requires
        state.valid(),
    ensures
        state.after(outcome).valid(),
        state.after(outcome).wait <= state.max_wait,
        state.after(outcome).deadline == state.deadline,
        state.after(outcome).multiplier == state.multiplier,
        state.after(outcome).max_wait == state.max_wait,
        state.after(outcome).tries_remaining <= state.tries_remaining,
        state.retries(outcome) <==> state.after(outcome).tries_remaining + 1
            == state.tries_remaining,
        state.retries(outcome) <==> state.decide(outcome) is Retry,
{
}

} // verus!
