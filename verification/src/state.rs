//! Reading the leaf an operation rests in.

use crate::model::session::{
    Control, DeferredScope, DeferredScopeView, LaneConfiguration, ModelIdentityView, OperationScope,
    OperationScopeView, OperationState, OperationStateView, SummaryTask, SummaryTaskView,
};
use vstd::pervasive::unreached;
use vstd::prelude::*;

verus! {

impl OperationStateView {
    /// Whether the leaf belongs to a deferred response.
    pub open spec fn is_deferred(self) -> bool {
        self is DeferredSuspended || self is DeferredEffectPending
    }

    /// The scope of an ordinary leaf.
    pub open spec fn scope(self) -> OperationScopeView
        recommends
            !self.is_deferred(),
    {
        match self {
            OperationStateView::Starting { scope } => scope,
            OperationStateView::Checkpoint { scope, .. } => scope,
            OperationStateView::AssistantReady { scope, .. } => scope,
            OperationStateView::AssistantEffectPending { scope, .. } => scope,
            OperationStateView::AssistantRetryWait { scope, .. } => scope,
            OperationStateView::Tools { scope, .. } => scope,
            OperationStateView::SummaryDeciding { scope, .. } => scope,
            OperationStateView::SummaryReady { scope, .. } => scope,
            OperationStateView::SummaryEffectPending { scope, .. } => scope,
            OperationStateView::SummaryRetryWait { scope, .. } => scope,
            OperationStateView::NavigationReadyToCommit { scope, .. } => scope,
            _ => arbitrary(),
        }
    }

    /// The scope of a deferred leaf.
    pub open spec fn deferred_scope(self) -> Option<DeferredScopeView> {
        match self {
            OperationStateView::DeferredSuspended { scope } => Some(scope),
            OperationStateView::DeferredEffectPending { scope, .. } => Some(scope),
            _ => None,
        }
    }

    /// Whether the operation may go on.
    pub open spec fn control(self) -> Control {
        match self.deferred_scope() {
            Some(scope) => scope.control,
            None => self.scope().control,
        }
    }

    /// Whether the operation was asked to stop.
    pub open spec fn cancelled(self) -> bool {
        self.control() is CancelRequested
    }

    /// The structural task of a summary leaf.
    pub open spec fn task(self) -> Option<SummaryTaskView> {
        match self {
            OperationStateView::SummaryDeciding { task, .. } => Some(task),
            OperationStateView::SummaryReady { task, .. } => Some(task),
            OperationStateView::SummaryEffectPending { task, .. } => Some(task),
            OperationStateView::SummaryRetryWait { task, .. } => Some(task),
            _ => None,
        }
    }

    /// The same leaf under another control.
    pub open spec fn with_control(self, control: Control) -> OperationStateView {
        match self {
            OperationStateView::Starting { scope } => OperationStateView::Starting {
                scope: OperationScopeView { control, ..scope },
            },
            OperationStateView::Checkpoint { scope, continuation, trigger_entry_id } => {
                OperationStateView::Checkpoint {
                    scope: OperationScopeView { control, ..scope },
                    continuation,
                    trigger_entry_id,
                }
            },
            OperationStateView::AssistantReady { scope, generation_context, next_attempt } => {
                OperationStateView::AssistantReady {
                    scope: OperationScopeView { control, ..scope },
                    generation_context,
                    next_attempt,
                }
            },
            OperationStateView::AssistantEffectPending {
                scope,
                generation_context,
                attempt,
                response_entry_id,
                usage_id,
                intended_output_limit,
                context_window,
            } => OperationStateView::AssistantEffectPending {
                scope: OperationScopeView { control, ..scope },
                generation_context,
                attempt,
                response_entry_id,
                usage_id,
                intended_output_limit,
                context_window,
            },
            OperationStateView::AssistantRetryWait {
                scope,
                generation_context,
                next_attempt,
                not_before,
                error_message,
            } => OperationStateView::AssistantRetryWait {
                scope: OperationScopeView { control, ..scope },
                generation_context,
                next_attempt,
                not_before,
                error_message,
            },
            OperationStateView::Tools { scope, batch } => OperationStateView::Tools {
                scope: OperationScopeView { control, ..scope },
                batch,
            },
            OperationStateView::DeferredSuspended { scope } => {
                OperationStateView::DeferredSuspended {
                    scope: DeferredScopeView { control, ..scope },
                }
            },
            OperationStateView::DeferredEffectPending { scope, response_entry_id, usage_id } => {
                OperationStateView::DeferredEffectPending {
                    scope: DeferredScopeView { control, ..scope },
                    response_entry_id,
                    usage_id,
                }
            },
            OperationStateView::SummaryDeciding { scope, task } => {
                OperationStateView::SummaryDeciding {
                    scope: OperationScopeView { control, ..scope },
                    task,
                }
            },
            OperationStateView::SummaryReady { scope, task, summary_context, next_attempt } => {
                OperationStateView::SummaryReady {
                    scope: OperationScopeView { control, ..scope },
                    task,
                    summary_context,
                    next_attempt,
                }
            },
            OperationStateView::SummaryEffectPending {
                scope,
                task,
                summary_context,
                attempt,
                request,
                usage_ids,
            } => OperationStateView::SummaryEffectPending {
                scope: OperationScopeView { control, ..scope },
                task,
                summary_context,
                attempt,
                request,
                usage_ids,
            },
            OperationStateView::SummaryRetryWait {
                scope,
                task,
                summary_context,
                next_attempt,
                not_before,
                error_message,
            } => OperationStateView::SummaryRetryWait {
                scope: OperationScopeView { control, ..scope },
                task,
                summary_context,
                next_attempt,
                not_before,
                error_message,
            },
            OperationStateView::NavigationReadyToCommit { scope, target_id, label } => {
                OperationStateView::NavigationReadyToCommit {
                    scope: OperationScopeView { control, ..scope },
                    target_id,
                    label,
                }
            },
        }
    }

    /// The name of the leaf.
    pub open spec fn at(self) -> Seq<char> {
        match self {
            OperationStateView::Starting { .. } => "starting"@,
            OperationStateView::Checkpoint { .. } => "checkpoint"@,
            OperationStateView::AssistantReady { .. } => "assistant.ready"@,
            OperationStateView::AssistantEffectPending { .. } => "assistant.effect_pending"@,
            OperationStateView::AssistantRetryWait { .. } => "assistant.retry_wait"@,
            OperationStateView::Tools { .. } => "tools"@,
            OperationStateView::DeferredSuspended { .. } => "deferred.suspended"@,
            OperationStateView::DeferredEffectPending { .. } => "deferred.effect_pending"@,
            OperationStateView::SummaryDeciding { .. } => "summary.deciding"@,
            OperationStateView::SummaryReady { .. } => "summary.ready"@,
            OperationStateView::SummaryEffectPending { .. } => "summary.effect_pending"@,
            OperationStateView::SummaryRetryWait { .. } => "summary.retry_wait"@,
            OperationStateView::NavigationReadyToCommit { .. } => "navigation.ready_to_commit"@,
        }
    }

    /// The model an effect of this leaf was or will be requested from.
    pub open spec fn captured_model(self) -> Option<ModelIdentityView> {
        match self {
            OperationStateView::AssistantReady { generation_context, .. } => {
                Some(generation_context.configuration.model)
            },
            OperationStateView::AssistantEffectPending { generation_context, .. } => {
                Some(generation_context.configuration.model)
            },
            OperationStateView::AssistantRetryWait { generation_context, .. } => {
                Some(generation_context.configuration.model)
            },
            OperationStateView::Tools { batch, .. } => Some(batch.configuration.model),
            OperationStateView::DeferredSuspended { scope } => Some(scope.configuration.model),
            OperationStateView::DeferredEffectPending { scope, .. } => {
                Some(scope.configuration.model)
            },
            OperationStateView::SummaryReady { summary_context, .. } => {
                Some(summary_context.configuration.model)
            },
            OperationStateView::SummaryEffectPending { summary_context, .. } => {
                Some(summary_context.configuration.model)
            },
            OperationStateView::SummaryRetryWait { summary_context, .. } => {
                Some(summary_context.configuration.model)
            },
            _ => None,
        }
    }
}

impl OperationState {
    /// The scope of an ordinary leaf.
    pub fn scope(&self) -> (r: &OperationScope)
        requires
            !self.deep_view().is_deferred(),
        ensures
            r.deep_view() == self.deep_view().scope(),
    {
        match self {
            OperationState::Starting { scope } => scope,
            OperationState::Checkpoint { scope, .. } => scope,
            OperationState::AssistantReady { scope, .. } => scope,
            OperationState::AssistantEffectPending { scope, .. } => scope,
            OperationState::AssistantRetryWait { scope, .. } => scope,
            OperationState::Tools { scope, .. } => scope,
            OperationState::SummaryDeciding { scope, .. } => scope,
            OperationState::SummaryReady { scope, .. } => scope,
            OperationState::SummaryEffectPending { scope, .. } => scope,
            OperationState::SummaryRetryWait { scope, .. } => scope,
            OperationState::NavigationReadyToCommit { scope, .. } => scope,
            _ => {
                unreached()
            },
        }
    }

    /// The name of the leaf.
    pub fn at(&self) -> (r: &'static str)
        ensures
            r@ == self.deep_view().at(),
    {
        match self {
            OperationState::Starting { .. } => "starting",
            OperationState::Checkpoint { .. } => "checkpoint",
            OperationState::AssistantReady { .. } => "assistant.ready",
            OperationState::AssistantEffectPending { .. } => "assistant.effect_pending",
            OperationState::AssistantRetryWait { .. } => "assistant.retry_wait",
            OperationState::Tools { .. } => "tools",
            OperationState::DeferredSuspended { .. } => "deferred.suspended",
            OperationState::DeferredEffectPending { .. } => "deferred.effect_pending",
            OperationState::SummaryDeciding { .. } => "summary.deciding",
            OperationState::SummaryReady { .. } => "summary.ready",
            OperationState::SummaryEffectPending { .. } => "summary.effect_pending",
            OperationState::SummaryRetryWait { .. } => "summary.retry_wait",
            OperationState::NavigationReadyToCommit { .. } => "navigation.ready_to_commit",
        }
    }
}

/// The scope of a deferred leaf.
pub fn deferred_scope(state: &OperationState) -> (r: Option<&DeferredScope>)
    ensures
        r.deep_view() == state.deep_view().deferred_scope(),
{
    match state {
        OperationState::DeferredSuspended { scope } => Some(scope),
        OperationState::DeferredEffectPending { scope, .. } => Some(scope),
        _ => None,
    }
}

/// Whether the operation may go on.
pub fn state_control(state: &OperationState) -> (r: Control)
    ensures
        r == state.deep_view().control(),
{
    match deferred_scope(state) {
        Some(scope) => scope.control,
        None => state.scope().control,
    }
}

/// Whether the operation was asked to stop.
pub fn is_cancelled(state: &OperationState) -> (r: bool)
    ensures
        r == state.deep_view().cancelled(),
{
    matches!(state_control(state), Control::CancelRequested { .. })
}

/// The configuration a deferred response is polled with.
pub fn deferred_configuration(state: &OperationState) -> (r: LaneConfiguration)
    requires
        state.deep_view().is_deferred(),
    ensures
        Some(r.deep_view()) == (match state.deep_view().deferred_scope() {
            Some(scope) => Some(scope.configuration),
            None => None,
        }),
{
    match state {
        OperationState::DeferredSuspended { scope } => scope.configuration.clone(),
        OperationState::DeferredEffectPending { scope, .. } => scope.configuration.clone(),
        _ => {
            unreached()
        },
    }
}

/// The structural task of a summary leaf.
pub fn state_task(state: &OperationState) -> (r: Option<&SummaryTask>)
    ensures
        r.deep_view() == state.deep_view().task(),
{
    match state {
        OperationState::SummaryDeciding { task, .. } => Some(task),
        OperationState::SummaryReady { task, .. } => Some(task),
        OperationState::SummaryEffectPending { task, .. } => Some(task),
        OperationState::SummaryRetryWait { task, .. } => Some(task),
        _ => None,
    }
}

} // verus!
