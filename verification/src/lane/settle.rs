//! How a decision on an operation becomes a command of its lane.

use crate::command::{
    ContinueOperationResult, ContinueOperationResultView, LaneCommand, LaneCommandView,
    OperationCommand, OperationCommandView,
};
use crate::durable::{committed, holds, in_step, lane_record, lemma_committed_push, spares};
use crate::model::session::{
    Control, DurableLaneState, DurableLaneStateView, InboxItem, Operation, OperationState,
    OperationStateView, OperationView,
};
use crate::model::storage::{Address, AddressView, DurableValue, DurableValueView, Write, WriteView};
use crate::restore::matches_intent;
use crate::state::is_cancelled;
use crate::types::{LanePatch, LanePatchView, LaneRuntimeState, LaneRuntimeStateView};
use vstd::prelude::*;

verus! {

/// The durable record of a lane.
pub fn durable_lane_state(
    current_operation_id: Option<String>,
    inbox: Vec<InboxItem>,
    last_operation_id: Option<String>,
) -> (r: DurableLaneState)
    ensures
        r == (DurableLaneState { current_operation_id, last_operation_id, inbox }),
{
    DurableLaneState { current_operation_id, last_operation_id, inbox }
}

/// A lane after a patch: what the patch does not name stays.
pub open spec fn patched(
    state: LaneRuntimeStateView,
    patch: Option<LanePatchView>,
) -> LaneRuntimeStateView {
    match patch {
        None => state,
        Some(patch) => LaneRuntimeStateView {
            tip_id: match patch.tip_id {
                Some(tip_id) => tip_id,
                None => state.tip_id,
            },
            configuration: match patch.configuration {
                Some(configuration) => configuration,
                None => state.configuration,
            },
            inbox: match patch.inbox {
                Some(inbox) => inbox,
                None => state.inbox,
            },
            ..state
        },
    }
}

/// Applies a patch to a lane.
pub fn apply_lane_patch(state: LaneRuntimeState, patch: Option<LanePatch>) -> (r: LaneRuntimeState)
    ensures
        r.deep_view() == patched(state.deep_view(), patch.deep_view()),
{
    match patch {
        None => state,
        Some(patch) => LaneRuntimeState {
            tip_id: match patch.tip_id {
                Some(tip_id) => tip_id,
                None => state.tip_id,
            },
            configuration: match patch.configuration {
                Some(configuration) => configuration,
                None => state.configuration,
            },
            inbox: match patch.inbox {
                Some(inbox) => inbox,
                None => state.inbox,
            },
            last_operation_id: state.last_operation_id,
            operation: state.operation,
        },
    }
}

/// The write that records a lane.
pub open spec fn lane_state_write(lane: Seq<char>, record: DurableLaneStateView) -> WriteView {
    WriteView::SetValue {
        address: AddressView::LaneState { lane },
        value: DurableValueView::Lane(record),
    }
}

/// The write that records the leaf of an operation.
pub open spec fn operation_state_write(
    operation_id: Seq<char>,
    state: OperationStateView,
) -> WriteView {
    WriteView::SetValue {
        address: AddressView::OperationState { operation_id },
        value: DurableValueView::State(state),
    }
}

/// Records a lane.
pub fn write_lane_state(lane: &String, record: DurableLaneState) -> (r: Write)
    ensures
        r.deep_view() == lane_state_write(lane@, record.deep_view()),
{
    Write::SetValue {
        address: Address::LaneState { lane: lane.clone() },
        value: DurableValue::Lane(record),
    }
}

/// Records the leaf of an operation.
pub fn write_operation_state(operation_id: &String, state: OperationState) -> (r: Write)
    ensures
        r.deep_view() == operation_state_write(operation_id@, state.deep_view()),
{
    Write::SetValue {
        address: Address::OperationState { operation_id: operation_id.clone() },
        value: DurableValue::State(state),
    }
}

/// The lane command that carries out a decision on the lane's operation.
///
/// A move records the new leaf, and the lane if its inbox changes. An end
/// records the result and a lane without operation.
pub open spec fn settled<T>(
    lane: Seq<char>,
    state: LaneRuntimeStateView,
    command: OperationCommandView<T>,
) -> LaneCommandView<T>
    recommends
        state.operation is Some,
{
    let meta = state.operation->Some_0.meta;
    let operation_id = meta.operation_id;
    match command {
        OperationCommandView::Return { result } => LaneCommandView::Return { result },
        OperationCommandView::Commit { writes, operation_state, lane: patch, result, events } => {
            let moved = writes.push(operation_state_write(operation_id, operation_state));
            let patch_inbox = match patch {
                Some(patch) => patch.inbox,
                None => None,
            };
            LaneCommandView::Commit {
                writes: match patch_inbox {
                    Some(inbox) => moved.push(
                        lane_state_write(
                            lane,
                            DurableLaneStateView {
                                current_operation_id: Some(operation_id),
                                last_operation_id: state.last_operation_id,
                                inbox,
                            },
                        ),
                    ),
                    None => moved,
                },
                next: LaneRuntimeStateView {
                    operation: Some(OperationView { meta, state: operation_state }),
                    ..patched(state, patch)
                },
                result,
                events,
            }
        },
        OperationCommandView::Finish { writes, record, lane: patch, result, events } => {
            LaneCommandView::Commit {
                writes: writes.push(
                    WriteView::SetValue {
                        address: AddressView::OperationResult { operation_id },
                        value: DurableValueView::Outcome(record),
                    },
                ).push(
                    lane_state_write(
                        lane,
                        DurableLaneStateView {
                            current_operation_id: None,
                            last_operation_id: Some(operation_id),
                            inbox: patched(state, patch).inbox,
                        },
                    ),
                ),
                next: LaneRuntimeStateView {
                    last_operation_id: Some(operation_id),
                    operation: None,
                    ..patched(state, patch)
                },
                result,
                events,
            }
        },
    }
}

fn push_write(writes: &mut Vec<Write>, write: Write)
    ensures
        final(writes).deep_view() == old(writes).deep_view().push(write.deep_view()),
{
    let ghost before = writes.deep_view();
    writes.push(write);
    assert(writes.deep_view() =~= before.push(write.deep_view()));
}

/// Turns a decision on the lane's operation into a command of the lane.
pub fn settle_operation<T: DeepView>(
    lane: &String,
    state: LaneRuntimeState,
    command: OperationCommand<T>,
) -> (r: LaneCommand<T>)
    requires
        state.operation is Some,
    ensures
        r.deep_view() == settled(lane@, state.deep_view(), command.deep_view()),
{
    let operation = match &state.operation {
        Some(operation) => operation.clone(),
        None => vstd::pervasive::unreached(),
    };
    match command {
        OperationCommand::Return { result } => LaneCommand::Return { result },
        OperationCommand::Commit { writes, operation_state, lane: patch, result, events } => {
            let mut writes = writes;
            push_write(
                &mut writes,
                write_operation_state(&operation.meta.operation_id, operation_state.clone()),
            );
            let inbox = match &patch {
                Some(patch) => patch.inbox.clone(),
                None => None,
            };
            if let Some(inbox) = inbox {
                let record = durable_lane_state(
                    Some(operation.meta.operation_id.clone()),
                    inbox,
                    state.last_operation_id.clone(),
                );
                push_write(&mut writes, write_lane_state(lane, record));
            }
            let mut next = apply_lane_patch(state, patch);
            next.operation = Some(Operation { meta: operation.meta, state: operation_state });
            LaneCommand::Commit { writes, next, result, events }
        },
        OperationCommand::Finish { writes, record, lane: patch, result, events } => {
            let mut writes = writes;
            push_write(
                &mut writes,
                Write::SetValue {
                    address: Address::OperationResult {
                        operation_id: operation.meta.operation_id.clone(),
                    },
                    value: DurableValue::Outcome(record),
                },
            );
            let mut next = apply_lane_patch(state, patch);
            let lane_record = durable_lane_state(
                None,
                next.inbox.clone(),
                Some(operation.meta.operation_id.clone()),
            );
            push_write(&mut writes, write_lane_state(lane, lane_record));
            next.last_operation_id = Some(operation.meta.operation_id);
            next.operation = None;
            LaneCommand::Commit { writes, next, result, events }
        },
    }
}

/// A decision that a request to stop overrules.
pub open spec fn continued<T>(
    latest: OperationStateView,
    planned: OperationCommandView<T>,
) -> OperationCommandView<ContinueOperationResultView<T>> {
    if latest.cancelled() {
        OperationCommandView::Return { result: ContinueOperationResultView::CancelRequested }
    } else {
        match planned {
            OperationCommandView::Return { result } => OperationCommandView::Return {
                result: ContinueOperationResultView::Result { value: result },
            },
            OperationCommandView::Commit { writes, operation_state, lane, result, events } => {
                OperationCommandView::Commit {
                    writes,
                    operation_state,
                    lane,
                    result: ContinueOperationResultView::Result { value: result },
                    events,
                }
            },
            OperationCommandView::Finish { writes, record, lane, result, events } => {
                OperationCommandView::Finish {
                    writes,
                    record,
                    lane,
                    result: ContinueOperationResultView::Result { value: result },
                    events,
                }
            },
        }
    }
}

/// Lets a decision stand only while the operation was not asked to stop.
pub fn continue_operation<T: DeepView>(latest: &OperationState, planned: OperationCommand<T>) -> (r:
    OperationCommand<ContinueOperationResult<T>>)
    ensures
        r.deep_view() == continued(latest.deep_view(), planned.deep_view()),
{
    if is_cancelled(latest) {
        return OperationCommand::Return { result: ContinueOperationResult::CancelRequested };
    }
    match planned {
        OperationCommand::Return { result } => OperationCommand::Return {
            result: ContinueOperationResult::Result { value: result },
        },
        OperationCommand::Commit { writes, operation_state, lane, result, events } => {
            OperationCommand::Commit {
                writes,
                operation_state,
                lane,
                result: ContinueOperationResult::Result { value: result },
                events,
            }
        },
        OperationCommand::Finish { writes, record, lane, result, events } => {
            OperationCommand::Finish {
                writes,
                record,
                lane,
                result: ContinueOperationResult::Result { value: result },
                events,
            }
        },
    }
}

/// A leaf under a request to stop.
pub fn with_cancel_requested(state: OperationState, requested_at: u64) -> (r: OperationState)
    ensures
        r.deep_view() == state.deep_view().with_control(Control::CancelRequested { requested_at }),
{
    let control = Control::CancelRequested { requested_at };
    match state {
        OperationState::Starting { mut scope } => {
            scope.control = control;
            OperationState::Starting { scope }
        },
        OperationState::Checkpoint { mut scope, continuation, trigger_entry_id } => {
            scope.control = control;
            OperationState::Checkpoint { scope, continuation, trigger_entry_id }
        },
        OperationState::AssistantReady { mut scope, generation_context, next_attempt } => {
            scope.control = control;
            OperationState::AssistantReady { scope, generation_context, next_attempt }
        },
        OperationState::AssistantEffectPending {
            mut scope,
            generation_context,
            attempt,
            response_entry_id,
            usage_id,
            intended_output_limit,
            context_window,
        } => {
            scope.control = control;
            OperationState::AssistantEffectPending {
                scope,
                generation_context,
                attempt,
                response_entry_id,
                usage_id,
                intended_output_limit,
                context_window,
            }
        },
        OperationState::AssistantRetryWait {
            mut scope,
            generation_context,
            next_attempt,
            not_before,
            error_message,
        } => {
            scope.control = control;
            OperationState::AssistantRetryWait {
                scope,
                generation_context,
                next_attempt,
                not_before,
                error_message,
            }
        },
        OperationState::Tools { mut scope, batch } => {
            scope.control = control;
            OperationState::Tools { scope, batch }
        },
        OperationState::DeferredSuspended { mut scope } => {
            scope.control = control;
            OperationState::DeferredSuspended { scope }
        },
        OperationState::DeferredEffectPending { mut scope, response_entry_id, usage_id } => {
            scope.control = control;
            OperationState::DeferredEffectPending { scope, response_entry_id, usage_id }
        },
        OperationState::SummaryDeciding { mut scope, task } => {
            scope.control = control;
            OperationState::SummaryDeciding { scope, task }
        },
        OperationState::SummaryReady { mut scope, task, summary_context, next_attempt } => {
            scope.control = control;
            OperationState::SummaryReady { scope, task, summary_context, next_attempt }
        },
        OperationState::SummaryEffectPending {
            mut scope,
            task,
            summary_context,
            attempt,
            request,
            usage_ids,
        } => {
            scope.control = control;
            OperationState::SummaryEffectPending {
                scope,
                task,
                summary_context,
                attempt,
                request,
                usage_ids,
            }
        },
        OperationState::SummaryRetryWait {
            mut scope,
            task,
            summary_context,
            next_attempt,
            not_before,
            error_message,
        } => {
            scope.control = control;
            OperationState::SummaryRetryWait {
                scope,
                task,
                summary_context,
                next_attempt,
                not_before,
                error_message,
            }
        },
        OperationState::NavigationReadyToCommit { mut scope, target_id, label } => {
            scope.control = control;
            OperationState::NavigationReadyToCommit { scope, target_id, label }
        },
    }
}

/// Whether the writes of a decision leave the lane's tip and configuration as
/// its patch says.
pub open spec fn follows_patch(
    store: Map<AddressView, DurableValueView>,
    lane: Seq<char>,
    state: LaneRuntimeStateView,
    writes: Seq<WriteView>,
    patch: Option<LanePatchView>,
) -> bool {
    &&& holds(
        committed(store, writes),
        AddressView::BranchTip { lane },
        DurableValueView::Tip(patched(state, patch).tip_id),
    )
    &&& holds(
        committed(store, writes),
        AddressView::LaneConfig { lane },
        DurableValueView::Configuration(patched(state, patch).configuration),
    )
}

/// Whether a decision, once settled, keeps the lane in step with storage.
pub open spec fn safe_decision<T>(
    store: Map<AddressView, DurableValueView>,
    lane: Seq<char>,
    state: LaneRuntimeStateView,
    command: OperationCommandView<T>,
) -> bool {
    match command {
        OperationCommandView::Return { .. } => true,
        OperationCommandView::Commit { writes, operation_state, lane: patch, .. } => {
            let meta = state.operation->Some_0.meta;
            &&& follows_patch(store, lane, state, writes, patch)
            &&& spares(writes, AddressView::LaneState { lane })
            &&& spares(writes, AddressView::OperationMeta { operation_id: meta.operation_id })
            &&& matches_intent(meta.intent, operation_state)
        },
        OperationCommandView::Finish { writes, lane: patch, .. } => {
            follows_patch(store, lane, state, writes, patch)
        },
    }
}

/// Whether a lane command keeps the lane in step with storage.
pub open spec fn keeps_step<T>(
    store: Map<AddressView, DurableValueView>,
    lane: Seq<char>,
    command: LaneCommandView<T>,
) -> bool {
    match command {
        LaneCommandView::Commit { writes, next, .. } => in_step(
            committed(store, writes),
            lane,
            next,
        ),
        _ => true,
    }
}

/// A settled decision keeps a lane in step with storage, if its own writes do
/// what its patch says.
pub proof fn law_settling_keeps_step<T>(
    store: Map<AddressView, DurableValueView>,
    lane: Seq<char>,
    state: LaneRuntimeStateView,
    command: OperationCommandView<T>,
)
    requires
        in_step(store, lane, state),
        state.operation is Some,
        safe_decision(store, lane, state, command),
    ensures
        keeps_step(store, lane, settled(lane, state, command)),
{
    let meta = state.operation->Some_0.meta;
    let operation_id = meta.operation_id;
    match command {
        OperationCommandView::Return { .. } => {},
        OperationCommandView::Commit { writes, operation_state, lane: patch, .. } => {
            let moved = writes.push(operation_state_write(operation_id, operation_state));
            lemma_committed_push(
                store,
                writes,
                operation_state_write(operation_id, operation_state),
            );
            crate::durable::lemma_spared(store, writes, AddressView::LaneState { lane });
            crate::durable::lemma_spared(
                store,
                writes,
                AddressView::OperationMeta { operation_id },
            );
            let patch_inbox = match patch {
                Some(patch) => patch.inbox,
                None => None,
            };
            if let Some(inbox) = patch_inbox {
                lemma_committed_push(
                    store,
                    moved,
                    lane_state_write(
                        lane,
                        DurableLaneStateView {
                            current_operation_id: Some(operation_id),
                            last_operation_id: state.last_operation_id,
                            inbox,
                        },
                    ),
                );
            }
        },
        OperationCommandView::Finish { writes, record, lane: patch, .. } => {
            let result_write = WriteView::SetValue {
                address: AddressView::OperationResult { operation_id },
                value: DurableValueView::Outcome(record),
            };
            lemma_committed_push(store, writes, result_write);
            lemma_committed_push(
                store,
                writes.push(result_write),
                lane_state_write(
                    lane,
                    DurableLaneStateView {
                        current_operation_id: None,
                        last_operation_id: Some(operation_id),
                        inbox: patched(state, patch).inbox,
                    },
                ),
            );
        },
    }
}

/// A cancelled operation is never moved by a decision that is to continue it:
/// nothing is written and the lane stays as it is.
pub proof fn law_cancelled_operations_do_not_continue<T>(
    lane: Seq<char>,
    state: LaneRuntimeStateView,
    planned: OperationCommandView<T>,
)
    requires
        state.operation is Some,
        state.operation->Some_0.state.cancelled(),
    ensures
        settled(lane, state, continued(state.operation->Some_0.state, planned))
            == (LaneCommandView::Return::<ContinueOperationResultView<T>> {
            result: ContinueOperationResultView::CancelRequested,
        }),
{
}

/// A request to stop changes the control of a leaf and nothing else: the leaf
/// keeps its kind, its task and its match with the intent, and setting the old
/// control again gives the old leaf back.
pub proof fn law_cancelling_keeps_the_leaf(
    state: OperationStateView,
    intent: crate::model::session::OperationIntentView,
    requested_at: u64,
)
    ensures
        ({
            let cancelled = state.with_control(Control::CancelRequested { requested_at });
            &&& cancelled.cancelled()
            &&& cancelled.control() == Control::CancelRequested { requested_at }
            &&& cancelled.at() == state.at()
            &&& cancelled.task() == state.task()
            &&& cancelled.captured_model() == state.captured_model()
            &&& matches_intent(intent, cancelled) == matches_intent(intent, state)
            &&& cancelled.with_control(state.control()) == state
        }),
{
}

} // verus!
