//! Comparing the leaves of an operation.

use crate::json::{equal_values, same_json, Json};
use crate::model::session::{
    DeferredScope, DeferredScopeView, GenerationContext, GenerationContextView, Header,
    LaneConfiguration, ModelIdentity, OperationScope, OperationState, OperationStateView,
    ResultBoundary, StreamOptions, StreamOptionsView, SummaryContext, SummaryContextView,
    SummaryTask, ToolBatch, ToolCall,
};
use crate::text::same_text;
use vstd::prelude::*;

verus! {

/// Whether two optional JSON values compare equal.
pub open spec fn equal_options(a: Option<serde_json::Value>, b: Option<serde_json::Value>) -> bool {
    match (a, b) {
        (Some(x), Some(y)) => equal_values(x, y),
        (None, None) => true,
        _ => false,
    }
}

/// Whether two stream options are equal, JSON values by comparison.
pub open spec fn equal_stream_options(a: StreamOptionsView, b: StreamOptionsView) -> bool {
    &&& equal_options(a.deferred, b.deferred)
    &&& a == (StreamOptionsView { deferred: a.deferred, ..b })
}

/// Whether two generation contexts are equal, JSON values by comparison.
pub open spec fn equal_generations(a: GenerationContextView, b: GenerationContextView) -> bool {
    &&& equal_stream_options(a.stream_options, b.stream_options)
    &&& a == (GenerationContextView { stream_options: a.stream_options, ..b })
}

/// Whether two deferred scopes are equal, JSON values by comparison.
pub open spec fn equal_deferred_scopes(a: DeferredScopeView, b: DeferredScopeView) -> bool {
    &&& equal_stream_options(a.stream_options, b.stream_options)
    &&& a == (DeferredScopeView { stream_options: a.stream_options, ..b })
}

/// Whether two summary contexts are equal, JSON values by comparison.
pub open spec fn equal_summaries(a: SummaryContextView, b: SummaryContextView) -> bool {
    &&& equal_stream_options(a.stream_options, b.stream_options)
    &&& a == (SummaryContextView { stream_options: a.stream_options, ..b })
}

/// Whether two leaves are equal, JSON values by comparison.
pub open spec fn equal_states(a: OperationStateView, b: OperationStateView) -> bool {
    match (a, b) {
        (
            OperationStateView::AssistantReady {
                scope: s1,
                generation_context: g1,
                next_attempt: n1,
            },
            OperationStateView::AssistantReady {
                scope: s2,
                generation_context: g2,
                next_attempt: n2,
            },
        ) => s1 == s2 && equal_generations(g1, g2) && n1 == n2,
        (
            OperationStateView::AssistantEffectPending {
                scope: s1,
                generation_context: g1,
                attempt: n1,
                response_entry_id: r1,
                usage_id: u1,
                intended_output_limit: l1,
                context_window: w1,
            },
            OperationStateView::AssistantEffectPending {
                scope: s2,
                generation_context: g2,
                attempt: n2,
                response_entry_id: r2,
                usage_id: u2,
                intended_output_limit: l2,
                context_window: w2,
            },
        ) => s1 == s2 && equal_generations(g1, g2) && n1 == n2 && r1 == r2 && u1 == u2 && l1 == l2
            && w1 == w2,
        (
            OperationStateView::AssistantRetryWait {
                scope: s1,
                generation_context: g1,
                next_attempt: n1,
                not_before: t1,
                error_message: e1,
            },
            OperationStateView::AssistantRetryWait {
                scope: s2,
                generation_context: g2,
                next_attempt: n2,
                not_before: t2,
                error_message: e2,
            },
        ) => s1 == s2 && equal_generations(g1, g2) && n1 == n2 && t1 == t2 && e1 == e2,
        (
            OperationStateView::DeferredSuspended { scope: s1 },
            OperationStateView::DeferredSuspended { scope: s2 },
        ) => equal_deferred_scopes(s1, s2),
        (
            OperationStateView::DeferredEffectPending {
                scope: s1,
                response_entry_id: r1,
                usage_id: u1,
            },
            OperationStateView::DeferredEffectPending {
                scope: s2,
                response_entry_id: r2,
                usage_id: u2,
            },
        ) => equal_deferred_scopes(s1, s2) && r1 == r2 && u1 == u2,
        (
            OperationStateView::SummaryReady {
                scope: s1,
                task: t1,
                summary_context: c1,
                next_attempt: n1,
            },
            OperationStateView::SummaryReady {
                scope: s2,
                task: t2,
                summary_context: c2,
                next_attempt: n2,
            },
        ) => s1 == s2 && t1 == t2 && equal_summaries(c1, c2) && n1 == n2,
        (
            OperationStateView::SummaryEffectPending {
                scope: s1,
                task: t1,
                summary_context: c1,
                attempt: n1,
                request: q1,
                usage_ids: u1,
            },
            OperationStateView::SummaryEffectPending {
                scope: s2,
                task: t2,
                summary_context: c2,
                attempt: n2,
                request: q2,
                usage_ids: u2,
            },
        ) => s1 == s2 && t1 == t2 && equal_summaries(c1, c2) && n1 == n2 && equal_options(q1, q2)
            && u1 == u2,
        (
            OperationStateView::SummaryRetryWait {
                scope: s1,
                task: t1,
                summary_context: c1,
                next_attempt: n1,
                not_before: b1,
                error_message: e1,
            },
            OperationStateView::SummaryRetryWait {
                scope: s2,
                task: t2,
                summary_context: c2,
                next_attempt: n2,
                not_before: b2,
                error_message: e2,
            },
        ) => s1 == s2 && t1 == t2 && equal_summaries(c1, c2) && n1 == n2 && b1 == b2 && e1 == e2,
        _ => a == b,
    }
}

fn same_optional_json(a: &Option<Json>, b: &Option<Json>) -> (r: bool)
    ensures
        r == equal_options(a.deep_view(), b.deep_view()),
{
    match (a, b) {
        (Some(x), Some(y)) => same_json(x, y),
        (None, None) => true,
        _ => false,
    }
}

/// Whether two lists of text are equal.
pub fn same_texts(a: &Vec<String>, b: &Vec<String>) -> (r: bool)
    ensures
        r == (a.deep_view() == b.deep_view()),
{
    if a.len() != b.len() {
        assert(a.deep_view().len() != b.deep_view().len());
        return false;
    }
    let mut i: usize = 0;
    while i < a.len()
        invariant
            i <= a.len(),
            a.len() == b.len(),
            forall|k: int| 0 <= k < i ==> a.deep_view()[k] == #[trigger] b.deep_view()[k],
        decreases a.len() - i,
    {
        if a[i] != b[i] {
            assert(a.deep_view()[i as int] != b.deep_view()[i as int]);
            return false;
        }
        i += 1;
    }
    assert(a.deep_view() =~= b.deep_view());
    true
}

fn same_headers(a: &Vec<Header>, b: &Vec<Header>) -> (r: bool)
    ensures
        r == (a.deep_view() == b.deep_view()),
{
    if a.len() != b.len() {
        assert(a.deep_view().len() != b.deep_view().len());
        return false;
    }
    let mut i: usize = 0;
    while i < a.len()
        invariant
            i <= a.len(),
            a.len() == b.len(),
            forall|k: int| 0 <= k < i ==> a.deep_view()[k] == #[trigger] b.deep_view()[k],
        decreases a.len() - i,
    {
        if a[i].name != b[i].name || a[i].value != b[i].value {
            assert(a.deep_view()[i as int] != b.deep_view()[i as int]);
            return false;
        }
        i += 1;
    }
    assert(a.deep_view() =~= b.deep_view());
    true
}

fn same_number(a: Option<u64>, b: Option<u64>) -> (r: bool)
    ensures
        r == (a == b),
{
    match (a, b) {
        (Some(x), Some(y)) => x == y,
        (None, None) => true,
        _ => false,
    }
}

fn same_stream_options(a: &StreamOptions, b: &StreamOptions) -> (r: bool)
    ensures
        r == equal_stream_options(a.deep_view(), b.deep_view()),
{
    let headers = match (&a.headers, &b.headers) {
        (Some(x), Some(y)) => same_headers(x, y),
        (None, None) => true,
        _ => false,
    };
    headers && same_optional_json(&a.deferred, &b.deferred) && same_number(
        a.timeout_ms,
        b.timeout_ms,
    ) && same_number(a.max_retries, b.max_retries) && same_number(
        a.max_retry_delay_ms,
        b.max_retry_delay_ms,
    )
}

fn same_identity(a: &ModelIdentity, b: &ModelIdentity) -> (r: bool)
    ensures
        r == (a.deep_view() == b.deep_view()),
{
    a.provider == b.provider && a.model_id == b.model_id
}

fn same_configuration(a: &LaneConfiguration, b: &LaneConfiguration) -> (r: bool)
    ensures
        r == (a.deep_view() == b.deep_view()),
{
    same_identity(&a.model, &b.model) && a.thinking_level == b.thinking_level && same_texts(
        &a.active_tool_names,
        &b.active_tool_names,
    )
}

fn same_scope(a: &OperationScope, b: &OperationScope) -> (r: bool)
    ensures
        r == (a.deep_view() == b.deep_view()),
{
    a.control == b.control && a.settings == b.settings && same_text(
        &a.latest_assistant_entry_id,
        &b.latest_assistant_entry_id,
    )
}

fn same_generation(a: &GenerationContext, b: &GenerationContext) -> (r: bool)
    ensures
        r == equal_generations(a.deep_view(), b.deep_view()),
{
    a.step_id == b.step_id && a.trigger_entry_id == b.trigger_entry_id && same_configuration(
        &a.configuration,
        &b.configuration,
    ) && same_stream_options(&a.stream_options, &b.stream_options) && a.retry_policy
        == b.retry_policy && a.overflow_recovery_used == b.overflow_recovery_used
}

fn same_deferred_scope(a: &DeferredScope, b: &DeferredScope) -> (r: bool)
    ensures
        r == equal_deferred_scopes(a.deep_view(), b.deep_view()),
{
    a.control == b.control && a.settings == b.settings && same_text(
        &a.latest_assistant_entry_id,
        &b.latest_assistant_entry_id,
    ) && a.step_id == b.step_id && a.source_entry_id == b.source_entry_id && a.poll == b.poll
        && same_configuration(&a.configuration, &b.configuration) && same_stream_options(
        &a.stream_options,
        &b.stream_options,
    )
}

fn same_summary(a: &SummaryContext, b: &SummaryContext) -> (r: bool)
    ensures
        r == equal_summaries(a.deep_view(), b.deep_view()),
{
    a.result_entry_id == b.result_entry_id && same_configuration(
        &a.configuration,
        &b.configuration,
    ) && same_stream_options(&a.stream_options, &b.stream_options) && a.retry_policy
        == b.retry_policy
}

fn same_boundary(a: &ResultBoundary, b: &ResultBoundary) -> (r: bool)
    ensures
        r == (a.deep_view() == b.deep_view()),
{
    match (a, b) {
        (ResultBoundary::Finish, ResultBoundary::Finish) => true,
        (
            ResultBoundary::CommitNavigation { target_id: t1, label: l1 },
            ResultBoundary::CommitNavigation { target_id: t2, label: l2 },
        ) => *t1 == *t2 && same_text(l1, l2),
        (
            ResultBoundary::ResumeCheckpoint { resume_after: c1 },
            ResultBoundary::ResumeCheckpoint { resume_after: c2 },
        ) => c1.continuation == c2.continuation && c1.trigger_entry_id == c2.trigger_entry_id,
        _ => false,
    }
}

fn same_task(a: &SummaryTask, b: &SummaryTask) -> (r: bool)
    ensures
        r == (a.deep_view() == b.deep_view()),
{
    a.task_id == b.task_id && same_text(&a.reason, &b.reason) && same_text(
        &a.custom_instructions,
        &b.custom_instructions,
    ) && same_boundary(&a.boundary, &b.boundary)
}

fn same_call(a: &ToolCall, b: &ToolCall) -> (r: bool)
    ensures
        r == (a.deep_view() == b.deep_view()),
{
    match (a, b) {
        (
            ToolCall::Planned { source_index: i1, result_entry_id: r1 },
            ToolCall::Planned { source_index: i2, result_entry_id: r2 },
        ) => *i1 == *i2 && *r1 == *r2,
        (
            ToolCall::EffectPending { source_index: i1, result_entry_id: r1, replay: p1 },
            ToolCall::EffectPending { source_index: i2, result_entry_id: r2, replay: p2 },
        ) => *i1 == *i2 && *r1 == *r2 && *p1 == *p2,
        (
            ToolCall::OutcomeReady { source_index: i1, result_entry_id: r1, terminate: t1 },
            ToolCall::OutcomeReady { source_index: i2, result_entry_id: r2, terminate: t2 },
        ) => *i1 == *i2 && *r1 == *r2 && *t1 == *t2,
        (
            ToolCall::Completed { source_index: i1, result_entry_id: r1, terminate: t1 },
            ToolCall::Completed { source_index: i2, result_entry_id: r2, terminate: t2 },
        ) => *i1 == *i2 && *r1 == *r2 && *t1 == *t2,
        _ => false,
    }
}

fn same_calls(a: &Vec<ToolCall>, b: &Vec<ToolCall>) -> (r: bool)
    ensures
        r == (a.deep_view() == b.deep_view()),
{
    if a.len() != b.len() {
        assert(a.deep_view().len() != b.deep_view().len());
        return false;
    }
    let mut i: usize = 0;
    while i < a.len()
        invariant
            i <= a.len(),
            a.len() == b.len(),
            forall|k: int| 0 <= k < i ==> a.deep_view()[k] == #[trigger] b.deep_view()[k],
        decreases a.len() - i,
    {
        if !same_call(&a[i], &b[i]) {
            assert(a.deep_view()[i as int] != b.deep_view()[i as int]);
            return false;
        }
        i += 1;
    }
    assert(a.deep_view() =~= b.deep_view());
    true
}

fn same_batch(a: &ToolBatch, b: &ToolBatch) -> (r: bool)
    ensures
        r == (a.deep_view() == b.deep_view()),
{
    a.assistant_entry_id == b.assistant_entry_id && same_configuration(
        &a.configuration,
        &b.configuration,
    ) && a.turn_id == b.turn_id && same_calls(&a.calls, &b.calls)
}

/// Whether two leaves are equal.
pub fn same_state(a: &OperationState, b: &OperationState) -> (r: bool)
    ensures
        r == equal_states(a.deep_view(), b.deep_view()),
{
    match (a, b) {
        (OperationState::Starting { scope: s1 }, OperationState::Starting { scope: s2 }) => {
            same_scope(s1, s2)
        },
        (
            OperationState::Checkpoint { scope: s1, continuation: c1, trigger_entry_id: t1 },
            OperationState::Checkpoint { scope: s2, continuation: c2, trigger_entry_id: t2 },
        ) => same_scope(s1, s2) && *c1 == *c2 && *t1 == *t2,
        (
            OperationState::AssistantReady { scope: s1, generation_context: g1, next_attempt: n1 },
            OperationState::AssistantReady { scope: s2, generation_context: g2, next_attempt: n2 },
        ) => same_scope(s1, s2) && same_generation(g1, g2) && *n1 == *n2,
        (
            OperationState::AssistantEffectPending {
                scope: s1,
                generation_context: g1,
                attempt: n1,
                response_entry_id: r1,
                usage_id: u1,
                intended_output_limit: l1,
                context_window: w1,
            },
            OperationState::AssistantEffectPending {
                scope: s2,
                generation_context: g2,
                attempt: n2,
                response_entry_id: r2,
                usage_id: u2,
                intended_output_limit: l2,
                context_window: w2,
            },
        ) => same_scope(s1, s2) && same_generation(g1, g2) && *n1 == *n2 && *r1 == *r2 && *u1
            == *u2 && *l1 == *l2 && *w1 == *w2,
        (
            OperationState::AssistantRetryWait {
                scope: s1,
                generation_context: g1,
                next_attempt: n1,
                not_before: t1,
                error_message: e1,
            },
            OperationState::AssistantRetryWait {
                scope: s2,
                generation_context: g2,
                next_attempt: n2,
                not_before: t2,
                error_message: e2,
            },
        ) => same_scope(s1, s2) && same_generation(g1, g2) && *n1 == *n2 && *t1 == *t2 && *e1
            == *e2,
        (
            OperationState::Tools { scope: s1, batch: b1 },
            OperationState::Tools { scope: s2, batch: b2 },
        ) => same_scope(s1, s2) && same_batch(b1, b2),
        (
            OperationState::DeferredSuspended { scope: s1 },
            OperationState::DeferredSuspended { scope: s2 },
        ) => same_deferred_scope(s1, s2),
        (
            OperationState::DeferredEffectPending {
                scope: s1,
                response_entry_id: r1,
                usage_id: u1,
            },
            OperationState::DeferredEffectPending {
                scope: s2,
                response_entry_id: r2,
                usage_id: u2,
            },
        ) => same_deferred_scope(s1, s2) && *r1 == *r2 && *u1 == *u2,
        (
            OperationState::SummaryDeciding { scope: s1, task: t1 },
            OperationState::SummaryDeciding { scope: s2, task: t2 },
        ) => same_scope(s1, s2) && same_task(t1, t2),
        (
            OperationState::SummaryReady {
                scope: s1,
                task: t1,
                summary_context: c1,
                next_attempt: n1,
            },
            OperationState::SummaryReady {
                scope: s2,
                task: t2,
                summary_context: c2,
                next_attempt: n2,
            },
        ) => same_scope(s1, s2) && same_task(t1, t2) && same_summary(c1, c2) && *n1 == *n2,
        (
            OperationState::SummaryEffectPending {
                scope: s1,
                task: t1,
                summary_context: c1,
                attempt: n1,
                request: q1,
                usage_ids: u1,
            },
            OperationState::SummaryEffectPending {
                scope: s2,
                task: t2,
                summary_context: c2,
                attempt: n2,
                request: q2,
                usage_ids: u2,
            },
        ) => same_scope(s1, s2) && same_task(t1, t2) && same_summary(c1, c2) && *n1 == *n2
            && same_optional_json(q1, q2) && same_texts(u1, u2),
        (
            OperationState::SummaryRetryWait {
                scope: s1,
                task: t1,
                summary_context: c1,
                next_attempt: n1,
                not_before: b1,
                error_message: e1,
            },
            OperationState::SummaryRetryWait {
                scope: s2,
                task: t2,
                summary_context: c2,
                next_attempt: n2,
                not_before: b2,
                error_message: e2,
            },
        ) => same_scope(s1, s2) && same_task(t1, t2) && same_summary(c1, c2) && *n1 == *n2 && *b1
            == *b2 && *e1 == *e2,
        (
            OperationState::NavigationReadyToCommit { scope: s1, target_id: t1, label: l1 },
            OperationState::NavigationReadyToCommit { scope: s2, target_id: t2, label: l2 },
        ) => same_scope(s1, s2) && same_text(t1, t2) && same_text(l1, l2),
        _ => false,
    }
}

} // verus!
