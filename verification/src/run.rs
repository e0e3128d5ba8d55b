//! A whole run, played against a script.
//!
//! A script stands for the clock and for the command: turn by turn it gives
//! the clock reading taken before an attempt and the way in which that
//! attempt ends. Playing a script takes the same decisions as a live run,
//! and the laws of a run are stated over it.

use vstd::prelude::*;
use crate::backoff::{lemma_waits_never_exceed_max, next_wait, wait_after};
use crate::outcome::{exit_code_of, AttemptOutcome, RunResult};
use crate::state::{Decision, RetryModel, RetryState};

verus! {

/// One turn of a script: the clock reading at the deadline check, and how
/// the attempt ends if it is made.
#[derive(Debug, Clone, PartialEq, Eq)]
pub struct Turn {
    pub clock: u64,
    pub outcome: AttemptOutcome,
}

/// What a run did, as mathematics sees it.
pub struct RunTrace {
    /// How the run ended; nothing where the script ended first.
    pub result: Option<RunResult>,
    /// How often the command was executed.
    pub executions: nat,
    /// The sleeps between the attempts, in order.
    pub sleeps: Seq<u64>,
}

impl RunTrace {
    /// This trace after `executions` earlier attempts, each followed by one
    /// of `sleeps`.
    pub open spec fn preceded_by(self, executions: nat, sleeps: Seq<u64>) -> RunTrace {
        RunTrace {
            result: self.result,
            executions: executions + self.executions,
            sleeps: sleeps + self.sleeps,
        }
    }

    /// A run that ended in `result` at once: `executions` attempts and no
    /// sleep.
    pub open spec fn ended(result: RunResult, executions: nat) -> RunTrace {
        RunTrace { result: Some(result), executions, sleeps: Seq::empty() }
    }
}

/// What a run did.
#[derive(Debug, Clone, PartialEq, Eq)]
pub struct RunLog {
    /// How the run ended; nothing where the script ended first.
    pub result: Option<RunResult>,
    /// How often the command was executed.
    pub executions: usize,
    /// The sleeps between the attempts, in milliseconds and in order.
    pub sleeps: Vec<u64>,
}

impl View for RunLog {
    type V = RunTrace;

    open spec fn view(&self) -> RunTrace {
        RunTrace {
            result: self.result,
            executions: self.executions as nat,
            sleeps: self.sleeps@,
        }
    }
}

/// The run that starts in `state` and meets `script`. Before each attempt
/// the deadline is checked against the turn's clock reading; an attempt
/// that is retried is followed by a sleep of the wait at that time.
pub open spec fn run_script(state: RetryModel, script: Seq<Turn>) -> RunTrace
    decreases script.len(),
{
    if script.len() == 0 {
        RunTrace { result: None, executions: 0, sleeps: Seq::empty() }
    } else if state.expired(script[0].clock as nat) {
        RunTrace::ended(RunResult::MaxElapsedExceeded, 0)
    } else {
        match state.decide(script[0].outcome) {
            Decision::Finish(result) => RunTrace::ended(result, 1),
            Decision::Retry { wait } => run_script(
                state.after(script[0].outcome),
                script.drop_first(),
            ).preceded_by(1, seq![wait]),
        }
    }
}

/// Plays `script` from the state `start` and reports what the run did.
pub fn replay(start: RetryState, script: &Vec<Turn>) -> (log: RunLog)
    ensures
        log@ == run_script(start@, script@),
{
    let ghost whole = run_script(start@, script@);
    let mut state = start;
    let mut sleeps: Vec<u64> = Vec::new();
    let mut turn: usize = 0;
    proof {
        assert(script@.subrange(0, script@.len() as int) == script@);
        assert(sleeps@ + whole.sleeps == whole.sleeps);
    }
    while turn < script.len()
        invariant
            turn <= script.len(),
            sleeps@.len() == turn,
            whole == run_script(start@, script@),
            whole == run_script(
                state@,
                script@.subrange(turn as int, script@.len() as int),
            ).preceded_by(turn as nat, sleeps@),
        decreases script.len() - turn,
    {
        let ghost rest = script@.subrange(turn as int, script@.len() as int);
        let ghost slept = sleeps@;
        proof {
            assert(rest[0] == script@[turn as int]);
            assert(rest.drop_first() == script@.subrange(turn + 1, script@.len() as int));
            assert(slept + Seq::<u64>::empty() == slept);
        }
        if let Some(result) = state.check_deadline(script[turn].clock) {
            return RunLog { result: Some(result), executions: turn, sleeps };
        }
        match state.on_outcome(&script[turn].outcome) {
            Decision::Finish(result) => {
                return RunLog { result: Some(result), executions: turn + 1, sleeps };
            },
            Decision::Retry { wait } => {
                sleeps.push(wait);
                turn = turn + 1;
                proof {
                    let tail = run_script(state@, rest.drop_first());
                    assert(slept + (seq![wait] + tail.sleeps) == sleeps@ + tail.sleeps);
                }
            },
        }
    }
    proof {
        assert(sleeps@ + Seq::<u64>::empty() == sleeps@);
    }
    RunLog { result: None, executions: turn, sleeps }
}

/// The attempt of `turn` is made before `deadline` and ends in a nonzero
/// exit.
pub open spec fn fails_in_time(deadline: nat, turn: Turn) -> bool {
    turn.clock <= deadline && turn.outcome is FailureWithCode
}

/// Each of the first `count` turns of `script` is an attempt that is made
/// in time and fails.
pub open spec fn fails_through(state: RetryModel, script: Seq<Turn>, count: nat) -> bool {
    count <= script.len() && forall|i: int|
        0 <= i < count ==> fails_in_time(state.deadline, #[trigger] script[i])
}

/// The first `count` sleeps of a run from `state` in which every attempt
/// fails: sleep number `i` is the wait after `i` growths.
pub open spec fn early_waits(state: RetryModel, count: nat) -> Seq<u64> {
    Seq::new(
        count,
        |i: int| wait_after(i as nat, state.wait, state.multiplier, state.max_wait) as u64,
    )
}

/// The state after `count` retries.
pub open spec fn advanced_by(state: RetryModel, count: nat) -> RetryModel {
    RetryModel {
        wait: wait_after(count, state.wait, state.multiplier, state.max_wait),
        tries_remaining: (state.tries_remaining - count) as nat,
        ..state
    }
}

/// Growing first and then `n` times is growing `n + 1` times.
proof fn lemma_wait_after_shift(n: nat, state: RetryModel)
    ensures
        wait_after(
            n,
            next_wait(state.wait, state.multiplier, state.max_wait),
            state.multiplier,
            state.max_wait,
        ) == wait_after(n + 1, state.wait, state.multiplier, state.max_wait),
    decreases n,
{
    reveal_with_fuel(wait_after, 2);
    if n > 0 {
        lemma_wait_after_shift((n - 1) as nat, state);
    }
}

/// The sleeps of `early_waits` are the waits themselves: from a valid state
/// each of them fits in 64 bits, is positive and is at most the cap.
pub proof fn lemma_early_waits_exact(state: RetryModel, count: nat, i: int)
    requires
        state.valid(),
        0 <= i < count,
    ensures
        early_waits(state, count)[i] == wait_after(
            i as nat,
            state.wait,
            state.multiplier,
            state.max_wait,
        ),
        0 < early_waits(state, count)[i] <= state.max_wait,
{
    lemma_waits_never_exceed_max(i as nat, state.wait, state.multiplier, state.max_wait);
}

/// While attempts fail in time and tries remain, the run goes on: where the
/// first `count` turns fail in time and `count` tries remain, the run makes
/// those `count` attempts, sleeps after each for the wait of that time, and
/// goes on from the state after `count` retries with the rest of the script.
pub proof fn lemma_failures_are_retried(state: RetryModel, script: Seq<Turn>, count: nat)
    requires
        state.valid(),
        count <= state.tries_remaining,
        fails_through(state, script, count),
    ensures
        advanced_by(state, count).valid(),
        run_script(state, script) == run_script(
            advanced_by(state, count),
            script.skip(count as int),
        ).preceded_by(count, early_waits(state, count)),
    decreases count,
{
    let whole = run_script(state, script);
    lemma_waits_never_exceed_max(count, state.wait, state.multiplier, state.max_wait);
    if count == 0 {
        assert(script.skip(0) == script);
        assert(advanced_by(state, 0) == state);
        assert(early_waits(state, 0) + whole.sleeps == whole.sleeps);
    } else {
        let next = state.advanced();
        let rest = script.drop_first();
        let fewer = (count - 1) as nat;
        assert(fails_in_time(state.deadline, script[0]));
        assert(state.after(script[0].outcome) == next);
        assert(fails_through(next, rest, fewer)) by {
            assert forall|i: int| 0 <= i < fewer implies fails_in_time(
                next.deadline,
                #[trigger] rest[i],
            ) by {
                assert(rest[i] == script[i + 1]);
            }
        }
        lemma_failures_are_retried(next, rest, fewer);
        lemma_wait_after_shift(fewer, state);
        assert(advanced_by(next, fewer) == advanced_by(state, count));
        assert(rest.skip(fewer as int) == script.skip(count as int));
        let tail = run_script(advanced_by(state, count), script.skip(count as int));
        assert(seq![state.wait as u64] + early_waits(next, fewer) == early_waits(state, count))
            by {
            assert forall|i: int| 0 <= i < fewer implies #[trigger] early_waits(next, fewer)[i]
                == early_waits(state, count)[i + 1] by {
                lemma_wait_after_shift(i as nat, state);
            }
        }
        assert(seq![state.wait as u64] + (early_waits(next, fewer) + tail.sleeps)
            == early_waits(state, count) + tail.sleeps);
    }
}

/// A command that succeeds at the first attempt is executed once and never
/// slept for: the run ends in `Success`, with exit code zero.
pub proof fn lemma_first_success_ends_run(state: RetryModel, script: Seq<Turn>)
    requires
        script.len() > 0,
        !state.expired(script[0].clock as nat),
        script[0].outcome is Success,
    ensures
        run_script(state, script) == RunTrace::ended(RunResult::Success, 1),
        exit_code_of(RunResult::Success) == 0,
{
}

/// A command that fails at every attempt uses up the retries: where the
/// script holds one more failure in time than tries remain, the run ends in
/// `MaxRetriesExceeded`, with exit code one, after one attempt more than
/// there were tries and a sleep after each attempt but the last.
pub proof fn lemma_failures_exhaust_retries(state: RetryModel, script: Seq<Turn>)
    requires
        state.valid(),
        fails_through(state, script, state.tries_remaining + 1),
    ensures
        run_script(state, script) == (RunTrace {
            result: Some(RunResult::MaxRetriesExceeded),
            executions: state.tries_remaining + 1,
            sleeps: early_waits(state, state.tries_remaining),
        }),
        exit_code_of(RunResult::MaxRetriesExceeded) == 1,
{
    let tries = state.tries_remaining;
    lemma_failures_are_retried(state, script, tries);
    let last = script.skip(tries as int);
    assert(last[0] == script[tries as int]);
    assert(fails_in_time(state.deadline, script[tries as int]));
    assert(early_waits(state, tries) + Seq::<u64>::empty() == early_waits(state, tries));
}

/// A deadline that passes while tries remain ends the run early: where the
/// first `count` turns fail in time, at least `count` tries remain and the
/// clock of the next turn is past the deadline, the run ends in
/// `MaxElapsedExceeded`, with exit code four, after `count` attempts, which
/// is fewer than the tries would have allowed.
pub proof fn lemma_deadline_ends_run_early(state: RetryModel, script: Seq<Turn>, count: nat)
    requires
        state.valid(),
        count <= state.tries_remaining,
        count < script.len(),
        fails_through(state, script, count),
        state.expired(script[count as int].clock as nat),
    ensures
        run_script(state, script) == (RunTrace {
            result: Some(RunResult::MaxElapsedExceeded),
            executions: count,
            sleeps: early_waits(state, count),
        }),
        count < state.tries_remaining + 1,
        exit_code_of(RunResult::MaxElapsedExceeded) == 4,
{
    lemma_failures_are_retried(state, script, count);
    let last = script.skip(count as int);
    assert(last[0] == script[count as int]);
    assert(early_waits(state, count) + Seq::<u64>::empty() == early_waits(state, count));
}

/// A command that cannot be started ends the run at the first attempt: the
/// result is `UnableToLaunch`, with exit code three, and nothing is retried.
pub proof fn lemma_launch_failure_ends_run(state: RetryModel, script: Seq<Turn>)
    requires
        script.len() > 0,
        !state.expired(script[0].clock as nat),
        script[0].outcome is LaunchFailed,
    ensures
        run_script(state, script) == RunTrace::ended(RunResult::UnableToLaunch, 1),
        exit_code_of(RunResult::UnableToLaunch) == 3,
{
}

/// A command ended by a signal is not retried, however many tries remain:
/// the result is `KilledBySignal`, with exit code two.
pub proof fn lemma_signal_ends_run(state: RetryModel, script: Seq<Turn>)
    requires
        script.len() > 0,
        !state.expired(script[0].clock as nat),
        script[0].outcome is KilledBySignal,
    ensures
        run_script(state, script) == RunTrace::ended(RunResult::KilledBySignal, 1),
        exit_code_of(RunResult::KilledBySignal) == 2,
{
}

/// The deadline is checked before every attempt, the first one too: where
/// the clock is past the deadline at the first turn, the run ends in
/// `MaxElapsedExceeded` and the command is never executed, whatever the
/// script holds.
pub proof fn lemma_passed_deadline_prevents_attempts(state: RetryModel, script: Seq<Turn>)
    requires
        script.len() > 0,
        state.expired(script[0].clock as nat),
    ensures
        run_script(state, script) == RunTrace::ended(RunResult::MaxElapsedExceeded, 0),
{
}

} // verus!
