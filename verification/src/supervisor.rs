//! Process supervision: the starting race, attempt outcomes, and the retry
//! loop.
//!
//! One supervised attempt spawns the child, waits — racing the rules, the
//! child's own exit, and an optional starting timeout — and ends in a
//! terminal outcome.  The retry loop counts failed attempts, resets the
//! count after a ready child exits normally, and stops once a configured
//! ceiling of failures is reached; without a ceiling it relaunches forever.

use vstd::prelude::*;

verus! {

/// Terminal result of one supervised attempt.
#[derive(Debug, Clone, Copy, PartialEq, Eq, Structural)]
pub enum SupervisedOutcome {
    /// The child process could not be created; the spawn error itself stays
    /// with the caller.
    FailedToSpawn,
    /// The child exited before any rule became ready.
    ExitedWhileStarting,
    /// The starting timeout elapsed before readiness or exit.
    TimedOutWhileStarting,
    /// The child became ready and later exited normally.
    ExitedWhileReady,
}

/// How the supervisor leaves the starting state.
#[derive(Debug, Clone, Copy, PartialEq, Eq, Structural)]
pub enum StartingStep {
    /// The rules won the race: the attempt enters its ready state and waits
    /// for the child to exit, with no further timeout.
    BecomeReady,
    /// The attempt ends with the carried outcome, killing the child first
    /// where the flag says so; the log stream is drained either way.
    Finish { outcome: SupervisedOutcome, kill_child: bool },
}

/// Resolves the starting race.  When several branches are ready at once the
/// priority is fixed: the rules beat the child's exit, which beats the
/// timeout; with no branch ready the race goes on.
pub fn resolve_starting(rules_ready: bool, child_exited: bool, timed_out: bool) -> (r: Option<
    StartingStep,
>)
    ensures
        r == if rules_ready {
            Some(StartingStep::BecomeReady)
        } else if child_exited {
            Some(
                StartingStep::Finish {
                    outcome: SupervisedOutcome::ExitedWhileStarting,
                    kill_child: false,
                },
            )
        } else if timed_out {
            Some(
                StartingStep::Finish {
                    outcome: SupervisedOutcome::TimedOutWhileStarting,
                    kill_child: true,
                },
            )
        } else {
            None::<StartingStep>
        },
{
    if rules_ready {
        Some(StartingStep::BecomeReady)
    } else if child_exited {
        Some(
            StartingStep::Finish {
                outcome: SupervisedOutcome::ExitedWhileStarting,
                kill_child: false,
            },
        )
    } else if timed_out {
        Some(
            StartingStep::Finish {
                outcome: SupervisedOutcome::TimedOutWhileStarting,
                kill_child: true,
            },
        )
    } else {
        None
    }
}

/// The attempt counter after one outcome: a normal exit of a ready child
/// clears it, every other outcome is one more failure.
pub open spec fn spec_next_attempts(attempts: int, outcome: SupervisedOutcome) -> int {
    if outcome == SupervisedOutcome::ExitedWhileReady {
        0
    } else {
        attempts + 1
    }
}

/// Whether the loop stops: only a configured ceiling that the counter has
/// reached stops it; without one it relaunches forever.
pub open spec fn spec_should_stop(retries: Option<u64>, attempts: int) -> bool {
    retries matches Some(n) && attempts >= n
}

/// Updates the attempt counter for one outcome.
pub fn next_attempts(attempts: u64, outcome: SupervisedOutcome) -> (r: u64)
    requires
        outcome != SupervisedOutcome::ExitedWhileReady ==> attempts < u64::MAX,
    ensures
        r == spec_next_attempts(attempts as int, outcome),
{
    match outcome {
        SupervisedOutcome::ExitedWhileReady => 0,
        _ => attempts + 1,
    }
}

/// Whether the retry loop stops at this counter value.
pub fn should_stop(retries: Option<u64>, attempts: u64) -> (r: bool)
    ensures
        r == spec_should_stop(retries, attempts as int),
{
    match retries {
        Some(n) => attempts >= n,
        None => false,
    }
}

/// One turn of the retry loop: the new counter, and whether the program
/// terminates instead of relaunching.
pub fn retry_step(attempts: u64, outcome: SupervisedOutcome, retries: Option<u64>) -> (r: (
    u64,
    bool,
))
    requires
        outcome != SupervisedOutcome::ExitedWhileReady ==> attempts < u64::MAX,
    ensures
        r.0 == spec_next_attempts(attempts as int, outcome),
        r.1 == spec_should_stop(retries, r.0 as int),
{
    let next = next_attempts(attempts, outcome);
    (next, should_stop(retries, next))
}

/// How many attempts the loop performs, starting from counter `a` and
/// seeing the given outcomes in order, before it stops — or all of them,
/// if it never stops.
pub open spec fn spec_run_count(
    a: int,
    outcomes: Seq<SupervisedOutcome>,
    retries: Option<u64>,
) -> int
    decreases outcomes.len(),
{
    if outcomes.len() == 0 {
        0
    } else {
        let a1 = spec_next_attempts(a, outcomes[0]);
        1 + if spec_should_stop(retries, a1) {
            0
        } else {
            spec_run_count(a1, outcomes.drop_first(), retries)
        }
    }
}

/// With a retry ceiling configured and every attempt failing, the program
/// terminates after exactly `ceiling` further failures: the counter is
/// incremented that often and no later attempt is launched.
pub proof fn lemma_retry_ceiling(a0: int, outcomes: Seq<SupervisedOutcome>, ceiling: u64)
    requires
        0 <= a0 < ceiling,
        a0 + outcomes.len() >= ceiling,
        forall|i: int| 0 <= i < outcomes.len() ==> outcomes[i] != SupervisedOutcome::ExitedWhileReady,
    ensures
        spec_run_count(a0, outcomes, Some(ceiling)) == ceiling - a0,
    decreases outcomes.len(),
{
    let a1 = spec_next_attempts(a0, outcomes[0]);
    if !spec_should_stop(Some(ceiling), a1) {
        lemma_retry_ceiling(a1, outcomes.drop_first(), ceiling);
    }
}

/// Without a ceiling the loop never stops: every outcome is followed by a
/// relaunch.
pub proof fn lemma_no_ceiling_never_stops(a0: int, outcomes: Seq<SupervisedOutcome>)
    ensures
        spec_run_count(a0, outcomes, None) == outcomes.len(),
    decreases outcomes.len(),
{
    if outcomes.len() > 0 {
        lemma_no_ceiling_never_stops(spec_next_attempts(a0, outcomes[0]), outcomes.drop_first());
    }
}

} // verus!
