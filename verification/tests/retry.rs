use omniinfer::manager::retry::{
    wsl_rocm_cold_start_retry_timeout, AttemptOutcome, ColdStartRetry, RetryEvent, RetryPhase,
};

const SECOND: u128 = 1_000_000_000;
const MILLISECOND: u128 = 1_000_000;

fn safe_total_budget() {
    assert_eq!(
        wsl_rocm_cold_start_retry_timeout("vllm-wsl2-rocm", 420 * SECOND),
        Some(120 * SECOND)
    );
    assert_eq!(wsl_rocm_cold_start_retry_timeout("vllm-wsl2-rocm", 359 * SECOND), None);
    assert_eq!(wsl_rocm_cold_start_retry_timeout("vllm-wsl2-cuda", 420 * SECOND), None);
}

fn retries_once() {
    let total_timeout = 300 * SECOND;
    let mut attempts = Vec::new();
    let mut retry = ColdStartRetry::new(total_timeout, 120 * SECOND, 0);
    loop {
        match retry.phase {
            RetryPhase::FirstAttempt => {
                attempts.push(retry.attempt_timeout);
                retry.step(RetryEvent::Attempted {
                    outcome: AttemptOutcome::ReadyTimeout,
                    elapsed: MILLISECOND,
                });
            }
            RetryPhase::Cooldown => {
                retry.step(RetryEvent::Cooling { over: true, cancelled: false });
            }
            RetryPhase::CheckTime => retry.step(RetryEvent::Elapsed(2 * MILLISECOND)),
            RetryPhase::SecondAttempt => {
                attempts.push(retry.attempt_timeout);
                retry.step(RetryEvent::Attempted {
                    outcome: AttemptOutcome::Ready,
                    elapsed: 3 * MILLISECOND,
                });
            }
            _ => break,
        }
    }
    assert_eq!(retry.phase, RetryPhase::Ready);
    assert_eq!(attempts.len(), 2);
    assert_eq!(attempts[0], 120 * SECOND);
    assert!(attempts[1] <= total_timeout);
    assert!(attempts[1] >= 299 * SECOND);
}

fn early_exit_is_not_masked() {
    let mut attempts = 0;
    let mut retry = ColdStartRetry::new(300 * SECOND, 120 * SECOND, 0);
    while matches!(retry.phase, RetryPhase::FirstAttempt | RetryPhase::SecondAttempt) {
        attempts += 1;
        retry.step(RetryEvent::Attempted {
            outcome: AttemptOutcome::OtherFailure,
            elapsed: MILLISECOND,
        });
    }
    assert_eq!(retry.phase, RetryPhase::OtherFailure);
    assert_eq!(attempts, 1);
}

fn no_budget_after_the_cooldown() {
    let mut attempts = 0;
    let mut retry = ColdStartRetry::new(MILLISECOND, 0, MILLISECOND);
    while matches!(retry.phase, RetryPhase::FirstAttempt | RetryPhase::SecondAttempt) {
        attempts += 1;
        retry.step(RetryEvent::Attempted {
            outcome: AttemptOutcome::ReadyTimeout,
            elapsed: 10,
        });
    }
    assert_eq!(retry.phase, RetryPhase::ReadyTimeout);
    assert_eq!(attempts, 1);
}

#[test]
fn runtime_manager_wsl_rocm_cold_start_retry_requires_a_safe_total_budget() {
    safe_total_budget();
}

#[test]
fn tests_wsl_rocm_cold_start_retry_requires_a_safe_total_budget() {
    safe_total_budget();
}

#[test]
fn runtime_manager_ready_timeout_retries_once_with_the_remaining_budget() {
    retries_once();
}

#[test]
fn tests_ready_timeout_retries_once_with_the_remaining_budget() {
    retries_once();
}

#[test]
fn runtime_manager_cold_start_retry_does_not_mask_early_exit() {
    early_exit_is_not_masked();
}

#[test]
fn tests_cold_start_retry_does_not_mask_early_exit() {
    early_exit_is_not_masked();
}

#[test]
fn runtime_manager_ready_timeout_does_not_retry_without_post_cooldown_budget() {
    no_budget_after_the_cooldown();
}

#[test]
fn tests_ready_timeout_does_not_retry_without_post_cooldown_budget() {
    no_budget_after_the_cooldown();
}

#[test]
fn a_cancelled_cooldown_is_an_interruption() {
    let mut retry = ColdStartRetry::new(420 * SECOND, 120 * SECOND, 90 * SECOND);
    retry.step(RetryEvent::Attempted {
        outcome: AttemptOutcome::ReadyTimeout,
        elapsed: 120 * SECOND,
    });
    assert_eq!(retry.phase, RetryPhase::Cooldown);
    retry.step(RetryEvent::Cooling { over: false, cancelled: false });
    assert_eq!(retry.phase, RetryPhase::Cooldown);
    retry.step(RetryEvent::Cooling { over: false, cancelled: true });
    assert_eq!(retry.phase, RetryPhase::Interrupted);
}
