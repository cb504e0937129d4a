use work_recorder::encode::{RetryState, RetryStep, MAX_RETRIES, RETRY_DELAY_MS};

fn attempt_all(outcomes: &[bool]) -> (Vec<RetryStep>, RetryState) {
    let mut state = RetryState::new();
    let mut steps = Vec::new();
    for ok in outcomes {
        if !state.is_open() {
            break;
        }
        steps.push(state.after_attempt(*ok));
    }
    (steps, state)
}

#[test]
fn retry_limits_are_three_attempts_a_tenth_of_a_second_apart() {
    assert_eq!(MAX_RETRIES, 3);
    assert_eq!(RETRY_DELAY_MS, 100);
}

#[test]
fn write_that_succeeds_on_third_attempt_reports_success() {
    let (steps, state) = attempt_all(&[false, false, true]);
    assert_eq!(steps, vec![RetryStep::Wait, RetryStep::Wait, RetryStep::Done]);
    assert_eq!(state.attempts, 3);
    assert!(!state.is_open());
}

#[test]
fn write_that_fails_three_times_is_fatal_without_fourth_attempt() {
    let (steps, state) = attempt_all(&[false, false, false, true, true]);
    assert_eq!(steps, vec![RetryStep::Wait, RetryStep::Wait, RetryStep::Fatal]);
    assert_eq!(state.attempts, 3);
    assert!(!state.is_open());
}

#[test]
fn write_that_succeeds_at_once_is_attempted_once() {
    let (steps, state) = attempt_all(&[true, false, false]);
    assert_eq!(steps, vec![RetryStep::Done]);
    assert_eq!(state.attempts, 1);
    assert!(!state.is_open());
}

#[test]
fn write_that_succeeds_on_second_attempt_is_attempted_twice() {
    let (steps, state) = attempt_all(&[false, true]);
    assert_eq!(steps, vec![RetryStep::Wait, RetryStep::Done]);
    assert_eq!(state.attempts, 2);
}

#[test]
fn fresh_state_is_open() {
    let state = RetryState::new();
    assert_eq!(state.attempts, 0);
    assert!(state.is_open());
}

#[test]
fn no_run_of_outcomes_gets_more_than_three_attempts() {
    for bits in 0u32..64 {
        let outcomes: Vec<bool> = (0..6).map(|i| bits & (1 << i) != 0).collect();
        let (steps, state) = attempt_all(&outcomes);
        assert!(state.attempts <= 3);
        assert_eq!(steps.len(), state.attempts as usize);
        let first_success = outcomes.iter().take(3).position(|ok| *ok);
        match first_success {
            Some(i) => {
                assert_eq!(state.attempts as usize, i + 1);
                assert_eq!(*steps.last().unwrap(), RetryStep::Done);
            },
            None => {
                assert_eq!(state.attempts, 3);
                assert_eq!(*steps.last().unwrap(), RetryStep::Fatal);
            },
        }
    }
}
