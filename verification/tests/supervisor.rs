use readygate::supervisor::{
    next_attempts, resolve_starting, retry_step, should_stop, StartingStep, SupervisedOutcome,
};

#[test]
fn rules_beat_exit_and_timeout() {
    assert_eq!(
        resolve_starting(true, true, true),
        Some(StartingStep::BecomeReady)
    );
    assert_eq!(
        resolve_starting(true, false, false),
        Some(StartingStep::BecomeReady)
    );
}

#[test]
fn exit_beats_timeout() {
    assert_eq!(
        resolve_starting(false, true, true),
        Some(StartingStep::Finish {
            outcome: SupervisedOutcome::ExitedWhileStarting,
            kill_child: false,
        })
    );
}

#[test]
fn timeout_kills_the_child() {
    assert_eq!(
        resolve_starting(false, false, true),
        Some(StartingStep::Finish {
            outcome: SupervisedOutcome::TimedOutWhileStarting,
            kill_child: true,
        })
    );
}

#[test]
fn no_event_keeps_racing() {
    assert_eq!(resolve_starting(false, false, false), None);
}

#[test]
fn early_exit_increments_the_counter() {
    assert_eq!(next_attempts(0, SupervisedOutcome::ExitedWhileStarting), 1);
    assert_eq!(next_attempts(4, SupervisedOutcome::ExitedWhileStarting), 5);
}

#[test]
fn every_failure_outcome_increments() {
    assert_eq!(next_attempts(2, SupervisedOutcome::FailedToSpawn), 3);
    assert_eq!(next_attempts(2, SupervisedOutcome::TimedOutWhileStarting), 3);
}

#[test]
fn ready_exit_resets_the_counter() {
    assert_eq!(next_attempts(7, SupervisedOutcome::ExitedWhileReady), 0);
}

#[test]
fn stop_only_at_a_configured_ceiling() {
    assert!(!should_stop(None, 1_000_000));
    assert!(!should_stop(Some(3), 2));
    assert!(should_stop(Some(3), 3));
    assert!(should_stop(Some(3), 4));
    assert!(should_stop(Some(0), 0));
}

#[test]
fn retry_ceiling_is_exact() {
    // Every attempt fails to start; with a ceiling of 3 the loop stops
    // after exactly 3 increments and never launches a 4th attempt.
    let ceiling = Some(3);
    let mut attempts: u64 = 0;
    let mut launches = 0;
    loop {
        launches += 1;
        let (next, stop) = retry_step(attempts, SupervisedOutcome::FailedToSpawn, ceiling);
        attempts = next;
        if stop {
            break;
        }
        assert!(launches < 100, "the loop must stop at the ceiling");
    }
    assert_eq!(launches, 3);
    assert_eq!(attempts, 3);
}

#[test]
fn success_then_failures_counts_afresh() {
    let (a, stop) = retry_step(2, SupervisedOutcome::ExitedWhileReady, Some(3));
    assert_eq!(a, 0);
    assert!(!stop);
    let (a, stop) = retry_step(a, SupervisedOutcome::ExitedWhileStarting, Some(3));
    assert_eq!(a, 1);
    assert!(!stop);
}
