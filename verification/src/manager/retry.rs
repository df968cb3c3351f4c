//! How often a runtime is started: a WSL2 ROCm runtime that does not become ready the
//! first time gets a second attempt after a pause, within the time that it has.
//!
//! The retry is a machine: it says what to do next, and is told how that went. Times
//! are in nanoseconds.
use vstd::prelude::*;

use crate::text::chars::text_eq;

verus! {

/// The least time that allows for a second attempt.
pub const WSL_ROCM_COLD_START_RETRY_MINIMUM_BUDGET: u128 = 360_000_000_000;

/// The time that the first attempt gets.
pub const WSL_ROCM_COLD_START_INITIAL_ATTEMPT: u128 = 120_000_000_000;

/// The pause before the second attempt.
pub const WSL_ROCM_COLD_START_RETRY_COOLDOWN: u128 = 90_000_000_000;

/// How long to wait during the pause before looking whether the start was cancelled.
pub const COOLDOWN_CHECK_MILLIS: u64 = 100;

/// The time that the first of two attempts gets, where there may be two.
pub fn wsl_rocm_cold_start_retry_timeout(backend_id: &str, total_timeout: u128) -> (r: Option<u128>)
    ensures
        r == (if backend_id@ == "vllm-wsl2-rocm"@ && total_timeout
            >= WSL_ROCM_COLD_START_RETRY_MINIMUM_BUDGET {
            Some(WSL_ROCM_COLD_START_INITIAL_ATTEMPT)
        } else {
            None
        }),
{
    if text_eq(backend_id, "vllm-wsl2-rocm") && total_timeout
        >= WSL_ROCM_COLD_START_RETRY_MINIMUM_BUDGET {
        Some(WSL_ROCM_COLD_START_INITIAL_ATTEMPT)
    } else {
        None
    }
}

/// How an attempt came out.
#[derive(Clone, Copy, Debug, PartialEq, Eq, Structural)]
pub enum AttemptOutcome {
    Ready,
    ReadyTimeout,
    OtherFailure,
}

/// What the retry does next, or how it ended.
#[derive(Clone, Copy, Debug, PartialEq, Eq, Structural)]
pub enum RetryPhase {
    /// Make the first attempt.
    FirstAttempt,
    /// Pause.
    Cooldown,
    /// The pause is over: look how much time has passed.
    CheckTime,
    /// Make the second attempt.
    SecondAttempt,
    Ready,
    ReadyTimeout,
    /// The attempt failed in another way.
    OtherFailure,
    Interrupted,
}

/// What was seen.
#[derive(Clone, Copy, Debug, PartialEq, Eq, Structural)]
pub enum RetryEvent {
    /// How an attempt came out, and how much time has passed since the first began.
    Attempted { outcome: AttemptOutcome, elapsed: u128 },
    /// A look during the pause: whether it is over, and whether the start was cancelled.
    Cooling { over: bool, cancelled: bool },
    /// How much time has passed since the first attempt began.
    Elapsed(u128),
}

/// The attempts to start a runtime.
#[derive(Clone, Copy, Debug, PartialEq, Eq, Structural)]
pub struct ColdStartRetry {
    pub phase: RetryPhase,
    pub total_timeout: u128,
    pub cooldown: u128,
    /// The time that the attempt gets that is to be made.
    pub attempt_timeout: u128,
}

/// The time that is left.
pub open spec fn time_left(total: u128, elapsed: u128) -> u128 {
    if elapsed < total {
        (total - elapsed) as u128
    } else {
        0
    }
}

pub open spec fn in_retry_phase(s: ColdStartRetry, phase: RetryPhase) -> ColdStartRetry {
    ColdStartRetry { phase, ..s }
}

pub open spec fn ended_with(outcome: AttemptOutcome) -> RetryPhase {
    match outcome {
        AttemptOutcome::Ready => RetryPhase::Ready,
        AttemptOutcome::ReadyTimeout => RetryPhase::ReadyTimeout,
        AttemptOutcome::OtherFailure => RetryPhase::OtherFailure,
    }
}

/// One step of the retry. An event that does not answer what was asked changes nothing.
pub open spec fn retried(s: ColdStartRetry, e: RetryEvent) -> ColdStartRetry {
    match (s.phase, e) {
        (RetryPhase::FirstAttempt, RetryEvent::Attempted { outcome, elapsed }) => in_retry_phase(
            s,
            if outcome == AttemptOutcome::ReadyTimeout && time_left(s.total_timeout, elapsed)
                > s.cooldown {
                RetryPhase::Cooldown
            } else {
                ended_with(outcome)
            },
        ),
        (RetryPhase::Cooldown, RetryEvent::Cooling { over, cancelled }) => if over {
            in_retry_phase(s, RetryPhase::CheckTime)
        } else if cancelled {
            in_retry_phase(s, RetryPhase::Interrupted)
        } else {
            s
        },
        (RetryPhase::CheckTime, RetryEvent::Elapsed(elapsed)) => if time_left(
            s.total_timeout,
            elapsed,
        ) == 0 {
            in_retry_phase(s, RetryPhase::ReadyTimeout)
        } else {
            ColdStartRetry {
                phase: RetryPhase::SecondAttempt,
                attempt_timeout: time_left(s.total_timeout, elapsed),
                ..s
            }
        },
        (RetryPhase::SecondAttempt, RetryEvent::Attempted { outcome, elapsed }) => in_retry_phase(
            s,
            ended_with(outcome),
        ),
        _ => s,
    }
}

fn left(total: u128, elapsed: u128) -> (r: u128)
    ensures
        r == time_left(total, elapsed),
{
    if elapsed < total {
        total - elapsed
    } else {
        0
    }
}

fn ended(outcome: AttemptOutcome) -> (r: RetryPhase)
    ensures
        r == ended_with(outcome),
{
    match outcome {
        AttemptOutcome::Ready => RetryPhase::Ready,
        AttemptOutcome::ReadyTimeout => RetryPhase::ReadyTimeout,
        AttemptOutcome::OtherFailure => RetryPhase::OtherFailure,
    }
}

impl ColdStartRetry {
    /// The attempts to start a runtime within a time, of which the first gets the given
    /// part.
    pub fn new(total_timeout: u128, initial_timeout: u128, cooldown: u128) -> (r: ColdStartRetry)
        ensures
            r == (ColdStartRetry {
                phase: RetryPhase::FirstAttempt,
                total_timeout,
                cooldown,
                attempt_timeout: initial_timeout,
            }),
    {
        ColdStartRetry {
            phase: RetryPhase::FirstAttempt,
            total_timeout,
            cooldown,
            attempt_timeout: initial_timeout,
        }
    }

    /// Tells what was seen.
    pub fn step(&mut self, event: RetryEvent)
        ensures
            *final(self) == retried(*old(self), event),
    {
        match (self.phase, event) {
            (RetryPhase::FirstAttempt, RetryEvent::Attempted { outcome, elapsed }) => {
                self.phase = if outcome == AttemptOutcome::ReadyTimeout && left(
                    self.total_timeout,
                    elapsed,
                ) > self.cooldown {
                    RetryPhase::Cooldown
                } else {
                    ended(outcome)
                };
            },
            (RetryPhase::Cooldown, RetryEvent::Cooling { over, cancelled }) => {
                if over {
                    self.phase = RetryPhase::CheckTime;
                } else if cancelled {
                    self.phase = RetryPhase::Interrupted;
                }
            },
            (RetryPhase::CheckTime, RetryEvent::Elapsed(elapsed)) => {
                let remaining: u128 = left(self.total_timeout, elapsed);
                if remaining == 0 {
                    self.phase = RetryPhase::ReadyTimeout;
                } else {
                    self.phase = RetryPhase::SecondAttempt;
                    self.attempt_timeout = remaining;
                }
            },
            (RetryPhase::SecondAttempt, RetryEvent::Attempted { outcome, elapsed: _ }) => {
                self.phase = ended(outcome);
            },
            _ => {},
        }
    }
}

/// How far a retry has come; no step leads back.
pub open spec fn progress(p: RetryPhase) -> nat {
    match p {
        RetryPhase::FirstAttempt => 0,
        RetryPhase::Cooldown => 1,
        RetryPhase::CheckTime => 2,
        RetryPhase::SecondAttempt => 3,
        _ => 4,
    }
}

/// There are two attempts at the most: a step never leads back, and an attempt always
/// leads on.
pub proof fn there_are_two_attempts_at_most(s: ColdStartRetry, e: RetryEvent)
    ensures
        progress(retried(s, e).phase) >= progress(s.phase),
        (s.phase == RetryPhase::FirstAttempt || s.phase == RetryPhase::SecondAttempt) && (e
            is Attempted) ==> progress(retried(s, e).phase) > progress(s.phase),
{
}

/// Only a runtime that did not become ready in time gets a second attempt: any other
/// outcome is reported at once.
pub proof fn only_a_timeout_is_retried(s: ColdStartRetry, outcome: AttemptOutcome, elapsed: u128)
    requires
        s.phase == RetryPhase::FirstAttempt,
        outcome != AttemptOutcome::ReadyTimeout,
    ensures
        retried(s, RetryEvent::Attempted { outcome, elapsed }).phase == ended_with(outcome),
{
}

/// The second attempt gets what is left of the time, and no more.
pub proof fn attempts_stay_within_the_time(s: ColdStartRetry, elapsed: u128)
    requires
        s.phase == RetryPhase::CheckTime,
        retried(s, RetryEvent::Elapsed(elapsed)).phase == RetryPhase::SecondAttempt,
    ensures
        elapsed + retried(s, RetryEvent::Elapsed(elapsed)).attempt_timeout == s.total_timeout,
        retried(s, RetryEvent::Elapsed(elapsed)).attempt_timeout > 0,
{
}

} // verus!
