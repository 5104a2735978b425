//! What a lane does about requests to drive, configure and close it.

use crate::command::LaneCommandView;
use crate::lane::claim::{
    claim_of, fresh_lane, new_drive, sealed, DriveClaimView, DriveCompletionView, DriveView,
    LaneImplView,
};
use crate::lane::configure::{configuration_command, execution_of};
use crate::laws::placement::{block_of, result_of};
use crate::model::event::{ConfigUpdatePayloadView, HarnessEventView, PlannedEventView};
use crate::model::session::{
    LaneConfigurationView, OperationIntentView, OperationResultRecordView, OperationStateView,
};
use crate::model::storage::{AddressView, DurableValueView, WriteView};
use crate::progress::{awaits_response, awaits_tool, progress_command};
use crate::types::{DriveOptionsView, HarnessErrorView, LaneRuntimeStateView};
use vstd::prelude::*;

verus! {

/// A change of the configuration of a lane is stored and announced, and changes nothing
/// else of the lane.
pub proof fn law_a_configuration_is_stored_and_told(
    lane: Seq<char>,
    state: LaneRuntimeStateView,
    configuration: LaneConfigurationView,
    payload: ConfigUpdatePayloadView,
)
    ensures
        configuration_command(lane, state, configuration, payload) == (LaneCommandView::Commit {
            writes: seq![
                WriteView::SetValue {
                    address: AddressView::LaneConfig { lane },
                    value: DurableValueView::Configuration(configuration),
                },
            ],
            next: LaneRuntimeStateView { configuration, ..state },
            result: (),
            events: seq![
                PlannedEventView::Ready(
                    HarnessEventView::ConfigUpdate { lane: Some(lane), payload, recovery: None },
                ),
            ],
        }),
{
}

/// What a request to drive an operation finds. The operation that owns the lane is driven
/// by the drive that it has, or by a new one if there is none; while another drive is
/// active it has to wait. Of any other operation there is the result, if it is stored, or
/// else the answer that it does not own the lane, with who does.
pub proof fn law_a_request_to_drive_finds_the_owner_or_a_result(
    lane: LaneImplView,
    options: DriveOptionsView,
    stored: Option<OperationResultRecordView>,
)
    ensures
        ({
            let owner = match lane.state.operation {
                Some(operation) => Some(operation.meta.operation_id),
                None => None,
            };
            let id = options.operation_id;
            match claim_of(lane, options, stored) {
                DriveClaimView::Observe { installed: true } => owner == Some(id)
                    && lane.active_drive is None,
                DriveClaimView::Observe { installed: false } => owner == Some(id) && (
                lane.active_drive matches Some(drive) && drive.operation_id == id),
                DriveClaimView::Occupied => owner == Some(id) && (lane.active_drive matches Some(
                    drive,
                ) && drive.operation_id != id),
                DriveClaimView::Settled { outcome } => owner != Some(id) && stored == Some(outcome),
                DriveClaimView::Mismatch { error } => owner != Some(id) && stored is None && (error
                    matches HarnessErrorView::OperationMismatch { expected, current, last, .. }
                    && expected == id && current == owner && last == lane.state.last_operation_id),
            }
        }),
        new_drive(options) == (DriveView {
            operation_id: options.operation_id,
            wait_for_retry: options.wait_for_retry,
            deferred_permits: if options.poll_deferred {
                1
            } else {
                0
            },
            close_signal: false,
            completion: DriveCompletionView::Pending,
        }),
{
}

/// Closing a lane keeps the first error, fails the drive that it has with the error given
/// and tells it to stop. What the lane is about stays. A new lane is open, idle and without
/// a drive.
pub proof fn law_a_closed_lane_keeps_its_first_error(
    lane: LaneImplView,
    error: Seq<char>,
    name: Seq<char>,
    state: LaneRuntimeStateView,
)
    ensures
        ({
            let after = sealed(lane, error);
            &&& after.name == lane.name
            &&& after.state == lane.state
            &&& after.idle_owner == lane.idle_owner
            &&& after.closed_error == match lane.closed_error {
                Some(first) => Some(first),
                None => Some(error),
            }
            &&& match (lane.active_drive, after.active_drive) {
                (None, None) => true,
                (Some(before), Some(drive)) => drive.close_signal && drive.completion
                    == DriveCompletionView::Failed(error) && drive.operation_id
                    == before.operation_id && drive.wait_for_retry == before.wait_for_retry
                    && drive.deferred_permits == before.deferred_permits,
                _ => false,
            }
        }),
        ({
            let lane = fresh_lane(name, state);
            &&& lane.name == name
            &&& lane.state == state
            &&& lane.closed_error is None
            &&& lane.active_drive is None
            &&& lane.idle_owner is None
        }),
{
}

/// What is told of a lane at work: where it is, what it is configured for, and of its
/// operation the id, kind and start, whether it is to stop, and the model it was taken up
/// with.
pub proof fn law_an_execution_tells_what_the_lane_is_about(
    lane: Seq<char>,
    state: LaneRuntimeStateView,
)
    ensures
        ({
            let told = execution_of(lane, state);
            &&& told.lane == lane
            &&& told.tip_id == state.tip_id
            &&& told.configured_model == state.configuration.model
            &&& told.last_operation_id == state.last_operation_id
            &&& told.current is Some <==> state.operation is Some
            &&& state.operation matches Some(operation) ==> (told.current matches Some(current)
                && current.id == operation.meta.operation_id && current.started_at
                == operation.meta.started_at && current.kind == (match operation.meta.intent {
                OperationIntentView::Run { .. } => "run"@,
                OperationIntentView::Compaction { .. } => "compaction"@,
                OperationIntentView::Navigation { .. } => "navigation"@,
            }) && current.status == (if operation.state.control() is CancelRequested {
                "aborting"@
            } else {
                "open"@
            }) && current.captured_model == (match operation.state {
                OperationStateView::AssistantReady { generation_context, .. } => Some(
                    generation_context.configuration.model,
                ),
                OperationStateView::AssistantEffectPending { generation_context, .. } => Some(
                    generation_context.configuration.model,
                ),
                OperationStateView::AssistantRetryWait { generation_context, .. } => Some(
                    generation_context.configuration.model,
                ),
                OperationStateView::Tools { batch, .. } => Some(batch.configuration.model),
                OperationStateView::DeferredSuspended { scope } => Some(scope.configuration.model),
                OperationStateView::DeferredEffectPending { scope, .. } => Some(
                    scope.configuration.model,
                ),
                OperationStateView::SummaryReady { summary_context, .. } => Some(
                    summary_context.configuration.model,
                ),
                OperationStateView::SummaryEffectPending { summary_context, .. } => Some(
                    summary_context.configuration.model,
                ),
                OperationStateView::SummaryRetryWait { summary_context, .. } => Some(
                    summary_context.configuration.model,
                ),
                _ => None,
            }))
        }),
{
}

/// Progress is stored just while it is waited for: frames while the leaf collects that
/// very response, and the output of a tool while that very call of that turn is under way.
/// It is stored as it is, and changes nothing of the lane.
pub proof fn law_progress_is_stored_while_it_is_awaited(
    state: LaneRuntimeStateView,
    response_entry_id: Seq<char>,
    turn_id: Seq<char>,
    source_index: usize,
    invocation_id: Seq<char>,
    write: WriteView,
)
    ensures
        awaits_response(state, response_entry_id) <==> (state.operation matches Some(operation) && (
        match operation.state {
            OperationStateView::AssistantEffectPending { response_entry_id: id, .. } => id
                == response_entry_id,
            OperationStateView::DeferredEffectPending { response_entry_id: id, .. } => id
                == response_entry_id,
            _ => false,
        })),
        awaits_tool(state, turn_id, source_index, invocation_id) <==> (state.operation
            matches Some(operation) && (operation.state matches OperationStateView::Tools {
            batch,
            ..
        } && batch.turn_id == turn_id && exists|i: int|
            0 <= i < batch.calls.len() && (#[trigger] batch.calls[i]) is EffectPending && block_of(
                batch.calls[i],
            ) == source_index && result_of(batch.calls[i]) == invocation_id)),
        progress_command(state, true, write) == (LaneCommandView::Commit {
            writes: seq![write],
            next: state,
            result: (),
            events: Seq::empty(),
        }),
        progress_command(state, false, write) == (LaneCommandView::Return::<()> { result: () }),
{
    if let Some(operation) = state.operation {
        if let OperationStateView::Tools { batch, .. } = operation.state {
            if crate::progress::call_running(batch.calls, source_index, invocation_id) {
                let i = choose|i: int|
                    0 <= i < batch.calls.len() && (#[trigger] batch.calls[i]) is EffectPending
                        && batch.calls[i].source_index() == source_index
                        && batch.calls[i].result_entry_id() == invocation_id;
                assert(block_of(batch.calls[i]) == source_index);
            }
            if exists|i: int|
                0 <= i < batch.calls.len() && (#[trigger] batch.calls[i]) is EffectPending
                    && block_of(batch.calls[i]) == source_index && result_of(batch.calls[i])
                    == invocation_id {
                let i = choose|i: int|
                    0 <= i < batch.calls.len() && (#[trigger] batch.calls[i]) is EffectPending
                        && block_of(batch.calls[i]) == source_index && result_of(batch.calls[i])
                        == invocation_id;
                assert(batch.calls[i].source_index() == source_index);
            }
        }
    }
}

} // verus!
