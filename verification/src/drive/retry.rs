//! When a step that failed is tried again.

use crate::model::session::{NormalizedRetryPolicy, OperationState, OperationStateView};
use crate::types::{DriveOutcome, DriveOutcomeView};
use vstd::prelude::*;

verus! {

/// The time before which a step is not tried again: a delay from now on.
pub open spec fn resume_time(delay_ms: u64, now: u64) -> u64 {
    if now + delay_ms <= u64::MAX {
        (now + delay_ms) as u64
    } else {
        u64::MAX
    }
}

/// Finds the time before which a step is not tried again.
pub fn retry_not_before(delay_ms: u64, now: u64) -> (r: u64)
    ensures
        r == resume_time(delay_ms, now),
{
    now.saturating_add(delay_ms)
}

/// The policy under which an effect is tried again, and the attempt that it is.
pub open spec fn terms_of(effect: OperationStateView) -> Option<(NormalizedRetryPolicy, u32)> {
    match effect {
        OperationStateView::AssistantEffectPending { generation_context, attempt, .. } => Some(
            (generation_context.retry_policy, attempt),
        ),
        OperationStateView::SummaryEffectPending { summary_context, attempt, .. } => Some(
            (summary_context.retry_policy, attempt),
        ),
        _ => None,
    }
}

/// Finds what the delay before the next attempt of an effect rests on.
pub fn retry_terms(effect: &OperationState) -> (r: Option<(NormalizedRetryPolicy, u32)>)
    ensures
        r == terms_of(effect.deep_view()),
{
    match effect {
        OperationState::AssistantEffectPending { generation_context, attempt, .. } => Some(
            (generation_context.retry_policy, *attempt),
        ),
        OperationState::SummaryEffectPending { summary_context, attempt, .. } => Some(
            (summary_context.retry_policy, *attempt),
        ),
        _ => None,
    }
}

/// What a drive does about a step that waits to be tried again.
#[derive(Clone, Copy, Debug, PartialEq, Eq, Structural)]
pub enum RetryGate {
    /// The time has come.
    Proceed,
    /// The drive comes to rest.
    Report,
    /// The drive waits that many milliseconds.
    Sleep { wait_ms: u64 },
}

/// Decides what a drive does about a step that waits to be tried again.
pub fn retry_gate(now: u64, not_before: u64, wait_for_retry: bool) -> (r: RetryGate)
    ensures
        now >= not_before ==> r == RetryGate::Proceed,
        now < not_before && !wait_for_retry ==> r == RetryGate::Report,
        now < not_before && wait_for_retry ==> r == (RetryGate::Sleep {
            wait_ms: (not_before - now) as u64,
        }),
{
    if now >= not_before {
        RetryGate::Proceed
    } else if wait_for_retry {
        RetryGate::Sleep { wait_ms: not_before - now }
    } else {
        RetryGate::Report
    }
}

/// The rest of a drive that does not wait for a retry.
pub fn waiting_retry(operation_id: &String, not_before: u64) -> (r: DriveOutcome)
    ensures
        r.deep_view() == (DriveOutcomeView::WaitingRetry {
            operation_id: operation_id@,
            not_before,
        }),
{
    DriveOutcome::WaitingRetry { operation_id: operation_id.clone(), not_before }
}

} // verus!
