//! The loop of a drive: which procedure a leaf calls for, and when the drive
//! comes to rest.

use crate::command::OperationCommandView;
use crate::drive::checkpoint::{
    checkpoint_decision, run_start, DueCompactionView, ReservedMessageView,
};
use crate::drive::generation::{generation_intent, retry_command};
use crate::drive::response::response_command;
use crate::drive::structural_run::{again, pending_of, ready_command, structural_move, waiting_of};
use crate::model::message::AssistantMessageView;
use crate::model::session::{
    LaneConfigurationView, Operation, OperationIntent, OperationIntentView, OperationMetaView,
    OperationState, OperationStateView, OperationView,
};
use crate::model::storage::AddressView;
use crate::same::{equal_states, same_state};
use crate::state::is_cancelled;
use crate::text::join;
use crate::types::{
    ConfigView, DriveOutcome, DriveOutcomeView, LaneRuntimeState, LaneRuntimeStateView,
    PendingRowView, ProcedureResult, ProcedureResultView,
};
use vstd::prelude::*;

verus! {

/// The name of an intent.
pub open spec fn kind_of_intent(intent: OperationIntentView) -> Seq<char> {
    match intent {
        OperationIntentView::Run { .. } => "run"@,
        OperationIntentView::Compaction { .. } => "compaction"@,
        OperationIntentView::Navigation { .. } => "navigation"@,
    }
}

/// Names an intent.
pub fn intent_kind(intent: &OperationIntent) -> (r: &'static str)
    ensures
        r@ == kind_of_intent(intent.deep_view()),
{
    match intent {
        OperationIntent::Run { .. } => "run",
        OperationIntent::Compaction { .. } => "compaction",
        OperationIntent::Navigation { .. } => "navigation",
    }
}

/// The operation of a lane, if a drive is for it.
pub open spec fn driven(state: LaneRuntimeStateView, operation_id: Seq<char>) -> Option<
    OperationView,
> {
    match state.operation {
        Some(operation) => if operation.meta.operation_id == operation_id {
            Some(operation)
        } else {
            None
        },
        None => None,
    }
}

/// Finds the operation that a drive is for.
pub fn current_operation<'a>(state: &'a LaneRuntimeState, operation_id: &String) -> (r: Result<
    &'a Operation,
    String,
>)
    ensures
        match driven(state.deep_view(), operation_id@) {
            Some(operation) => r is Ok && r->Ok_0.deep_view() == operation,
            None => r is Err && r->Err_0@ == "Drive "@ + operation_id@
                + " has no matching current operation"@,
        },
{
    match &state.operation {
        Some(operation) if operation.meta.operation_id == *operation_id => Ok(operation),
        _ => {
            let named = join("Drive ".to_string(), operation_id.as_str());
            Err(join(named, " has no matching current operation"))
        },
    }
}

/// The procedures of a drive.
#[derive(Clone, Copy, Debug, PartialEq, Eq, Structural)]
pub enum Procedure {
    Reconcile,
    StartRun,
    RunCheckpoint,
    RunGeneration,
    RunRetryWait,
    RecoverGeneration,
    RunTools,
    RunDeferred,
    RunStructuralDecision,
    RunStructuralGeneration,
    RecoverStructuralGeneration,
    RunStructuralRetryWait,
    CommitNavigation,
}

/// The procedure a leaf calls for. A request to stop overrules the leaf.
pub open spec fn procedure_for(state: OperationStateView) -> Procedure {
    if state.cancelled() {
        Procedure::Reconcile
    } else {
        match state {
            OperationStateView::Starting { .. } => Procedure::StartRun,
            OperationStateView::Checkpoint { .. } => Procedure::RunCheckpoint,
            OperationStateView::AssistantReady { .. } => Procedure::RunGeneration,
            OperationStateView::AssistantRetryWait { .. } => Procedure::RunRetryWait,
            OperationStateView::AssistantEffectPending { .. } => Procedure::RecoverGeneration,
            OperationStateView::Tools { .. } => Procedure::RunTools,
            OperationStateView::DeferredSuspended { .. } => Procedure::RunDeferred,
            OperationStateView::DeferredEffectPending { .. } => Procedure::RunDeferred,
            OperationStateView::SummaryDeciding { .. } => Procedure::RunStructuralDecision,
            OperationStateView::SummaryReady { .. } => Procedure::RunStructuralGeneration,
            OperationStateView::SummaryEffectPending { .. } => {
                Procedure::RecoverStructuralGeneration
            },
            OperationStateView::SummaryRetryWait { .. } => Procedure::RunStructuralRetryWait,
            OperationStateView::NavigationReadyToCommit { .. } => Procedure::CommitNavigation,
        }
    }
}

/// Decides which procedure a leaf calls for.
pub fn dispatch(state: &OperationState) -> (r: Procedure)
    ensures
        r == procedure_for(state.deep_view()),
{
    if is_cancelled(state) {
        return Procedure::Reconcile;
    }
    match state {
        OperationState::Starting { .. } => Procedure::StartRun,
        OperationState::Checkpoint { .. } => Procedure::RunCheckpoint,
        OperationState::AssistantReady { .. } => Procedure::RunGeneration,
        OperationState::AssistantRetryWait { .. } => Procedure::RunRetryWait,
        OperationState::AssistantEffectPending { .. } => Procedure::RecoverGeneration,
        OperationState::Tools { .. } => Procedure::RunTools,
        OperationState::DeferredSuspended { .. } => Procedure::RunDeferred,
        OperationState::DeferredEffectPending { .. } => Procedure::RunDeferred,
        OperationState::SummaryDeciding { .. } => Procedure::RunStructuralDecision,
        OperationState::SummaryReady { .. } => Procedure::RunStructuralGeneration,
        OperationState::SummaryEffectPending { .. } => Procedure::RecoverStructuralGeneration,
        OperationState::SummaryRetryWait { .. } => Procedure::RunStructuralRetryWait,
        OperationState::NavigationReadyToCommit { .. } => Procedure::CommitNavigation,
    }
}

/// A cancelled operation is only ever wound down, and no other one is.
pub proof fn law_only_cancelled_operations_are_wound_down(state: OperationStateView)
    ensures
        procedure_for(state) == Procedure::Reconcile <==> state.cancelled(),
{
}

/// What a drive does after a procedure.
#[derive(Debug, PartialEq, Eq)]
pub enum DriveStep {
    /// The drive comes to rest.
    Rest(DriveOutcome),
    /// The drive goes on from the new leaf.
    Again,
    /// The procedure left the leaf as it was, which must not happen.
    Stuck(String),
}

/// Contents of a [`DriveStep`].
#[allow(inconsistent_fields)]
pub enum DriveStepView {
    Rest(DriveOutcomeView),
    Again,
    Stuck(Seq<char>),
}

impl DeepView for DriveStep {
    type V = DriveStepView;

    open spec fn deep_view(&self) -> DriveStepView {
        match self {
            DriveStep::Rest(outcome) => DriveStepView::Rest(outcome.deep_view()),
            DriveStep::Again => DriveStepView::Again,
            DriveStep::Stuck(message) => DriveStepView::Stuck(message.deep_view()),
        }
    }
}

/// What a drive does after a procedure. One that leaves its leaf as it was must
/// have been overtaken by a request to stop.
pub open spec fn step_of(
    before: OperationStateView,
    result: ProcedureResultView,
    after: OperationStateView,
) -> DriveStepView {
    match result {
        ProcedureResultView::Settled { outcome } => DriveStepView::Rest(
            DriveOutcomeView::Settled { outcome },
        ),
        ProcedureResultView::Waiting { outcome } => DriveStepView::Rest(outcome),
        ProcedureResultView::Continue => if equal_states(after, before) && !after.cancelled() {
            DriveStepView::Stuck("Drive procedure made no progress from "@ + before.at())
        } else {
            DriveStepView::Again
        },
    }
}

/// Decides whether a drive rests after a procedure. `after` is the leaf that the
/// procedure left, and matters only where the procedure did not end the drive.
pub fn drive_operation(before: &OperationState, result: ProcedureResult, after: &OperationState) -> (r:
    DriveStep)
    ensures
        r.deep_view() == step_of(before.deep_view(), result.deep_view(), after.deep_view()),
{
    match result {
        ProcedureResult::Settled { outcome } => DriveStep::Rest(DriveOutcome::Settled { outcome }),
        ProcedureResult::Waiting { outcome } => DriveStep::Rest(outcome),
        ProcedureResult::Continue => {
            if same_state(after, before) && !is_cancelled(after) {
                let message = "Drive procedure made no progress from ".to_string();
                DriveStep::Stuck(join(message, before.at()))
            } else {
                DriveStep::Again
            }
        },
    }
}

/// Whether a drive goes on after a decision that does not end it.
pub open spec fn moves_on<T>(before: OperationStateView, command: OperationCommandView<T>) -> bool {
    command matches OperationCommandView::Commit { operation_state, .. } ==> step_of(
        before,
        ProcedureResultView::Continue,
        operation_state,
    ) == DriveStepView::Again
}

/// The procedures of a run do not leave a drive where it was: each commit of a
/// start, a checkpoint, a request, its response and its repetition moves to another
/// leaf.
pub proof fn law_run_procedures_make_progress(
    lane: Seq<char>,
    operation_id: Seq<char>,
    config: ConfigView,
    default_delay_ms: u64,
    step_id: Seq<char>,
    state: LaneRuntimeStateView,
    before: OperationStateView,
    meta: OperationMetaView,
    rows: Seq<PendingRowView>,
    reserved: Seq<ReservedMessageView>,
    due: Option<DueCompactionView>,
    response_entry_id: Seq<char>,
    usage_id: Seq<char>,
    intended_output_limit: u64,
    context_window: u64,
    response: AssistantMessageView,
    recovery: bool,
    overflow: bool,
    retryable: bool,
    not_before: u64,
    call_ids: Seq<Seq<char>>,
    scratch: Seq<AddressView>,
    ended_at: u64,
)
    ensures
        before is Starting ==> (run_start(
            lane,
            operation_id,
            state.tip_id,
            before,
            reserved,
        ) matches Ok(command) ==> moves_on(before, command)),
        before is Checkpoint ==> (checkpoint_decision(
            lane,
            operation_id,
            config,
            default_delay_ms,
            step_id,
            state,
            before,
            rows,
            due,
        ) matches Ok(command) ==> moves_on(before, command)),
        before is AssistantReady ==> moves_on(
            before,
            generation_intent(
                lane,
                operation_id,
                before,
                before,
                response_entry_id,
                usage_id,
                intended_output_limit,
                context_window,
            ),
        ),
        before is AssistantRetryWait ==> moves_on(
            before,
            retry_command(lane, operation_id, before, before),
        ),
        response_command(
            lane,
            operation_id,
            before,
            state.tip_id,
            before,
            meta,
            response,
            recovery,
            overflow,
            due,
            retryable,
            not_before,
            call_ids,
            scratch,
            ended_at,
        ) matches Ok(command) ==> moves_on(before, command),
{
}

/// The procedures of a structural task do not leave a drive where it was either.
pub proof fn law_structural_procedures_make_progress(
    config: ConfigView,
    default_delay_ms: u64,
    result_entry_id: Seq<char>,
    configuration: LaneConfigurationView,
    before: OperationStateView,
    not_before: u64,
    error_message: Seq<char>,
)
    ensures
        before matches OperationStateView::SummaryDeciding { task, .. } ==> moves_on(
            before,
            ready_command(
                config,
                default_delay_ms,
                result_entry_id,
                configuration,
                before,
                task,
            ),
        ),
        before is SummaryReady ==> moves_on(before, structural_move(pending_of(before), ())),
        before is SummaryEffectPending ==> moves_on(
            before,
            structural_move(waiting_of(before, not_before, error_message), ()),
        ),
        before is SummaryRetryWait ==> moves_on(before, structural_move(again(before, before), ())),
{
}

} // verus!
