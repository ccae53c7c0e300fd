use eam::retry::{AttemptOutcome, CascadeState, CascadeStep, RetryPolicy};

fn drive(policy: RetryPolicy, outcomes: &[AttemptOutcome]) -> (usize, Vec<u64>, CascadeStep) {
    let mut state = CascadeState::start(policy);
    let mut calls = 0usize;
    let mut sleeps = Vec::new();
    let mut last = CascadeStep::GiveUp;
    for outcome in outcomes {
        calls += 1;
        last = state.on_outcome(outcome);
        match last {
            CascadeStep::RetryAfter { delay_ms } => sleeps.push(delay_ms),
            _ => break,
        }
    }
    (calls, sleeps, last)
}

#[test]
fn success_on_first_attempt_sleeps_never() {
    let policy = RetryPolicy::new(3, 1000).unwrap();
    let (calls, sleeps, last) = drive(
        policy,
        &[AttemptOutcome::Response { status: 200 }],
    );
    assert_eq!(calls, 1);
    assert!(sleeps.is_empty());
    assert_eq!(last, CascadeStep::Accept);
}

#[test]
fn not_found_is_returned_not_retried() {
    let policy = RetryPolicy::new(3, 1000).unwrap();
    let (calls, sleeps, last) = drive(
        policy,
        &[AttemptOutcome::Response { status: 404 }],
    );
    assert_eq!(calls, 1);
    assert!(sleeps.is_empty());
    assert_eq!(last, CascadeStep::Accept);
}

#[test]
fn backoff_doubles_and_attempts_are_bounded() {
    let policy = RetryPolicy::new(4, 500).unwrap();
    let outcomes = [
        AttemptOutcome::Response { status: 429 },
        AttemptOutcome::TransportFailure,
        AttemptOutcome::Response { status: 403 },
        AttemptOutcome::Response { status: 429 },
        AttemptOutcome::Response { status: 429 },
    ];
    let (calls, sleeps, last) = drive(policy, &outcomes);
    // At most max_attempts calls; the j-th sleep is 500 * 2^(j-1).
    assert_eq!(calls, 4);
    assert_eq!(sleeps, vec![500, 1000, 2000]);
    assert_eq!(last, CascadeStep::GiveUp);
}

#[test]
fn success_after_retries_is_accepted() {
    let policy = RetryPolicy::new(3, 250).unwrap();
    let outcomes = [
        AttemptOutcome::TransportFailure,
        AttemptOutcome::Response { status: 500 },
    ];
    let (calls, sleeps, last) = drive(policy, &outcomes);
    assert_eq!(calls, 2);
    assert_eq!(sleeps, vec![250]);
    // A 500 is handed to the caller unchanged: only 429 and 403 are retried.
    assert_eq!(last, CascadeStep::Accept);
}

#[test]
fn single_attempt_policy_never_sleeps() {
    let policy = RetryPolicy::new(1, 1000).unwrap();
    let (calls, sleeps, last) = drive(policy, &[AttemptOutcome::TransportFailure]);
    assert_eq!(calls, 1);
    assert!(sleeps.is_empty());
    assert_eq!(last, CascadeStep::GiveUp);
}

#[test]
fn overflowing_backoff_schedules_are_rejected() {
    assert!(RetryPolicy::new(0, 1000).is_none());
    assert!(RetryPolicy::new(100, u64::MAX).is_none());
    // A zero initial delay never overflows, whatever the attempt count.
    assert!(RetryPolicy::new(u64::MAX, 0).is_some());
    assert!(RetryPolicy::new(64, 1).is_some());
    assert!(RetryPolicy::new(66, 1).is_none());
}
