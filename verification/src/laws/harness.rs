//! What a harness says of itself, of its lanes and of what was asked of it.

use crate::drive::response::is_answer;
use crate::drive::structural_run::kind_of;
use crate::harness::{closing_message, config_update, fault_message, HarnessView};
use crate::lane::claim::LaneImplView;
use crate::model::event::{ConfigUpdatePayloadView, HarnessEventView};
use crate::model::message::{AssistantMessageView, StopReason};
use crate::model::session::{OperationStateView, ResultBoundaryView, SummaryTaskView};
use crate::restore::{lacking, ClassifiedLaneStorageView, RestoreErrorView};
use crate::text::debug_text;
use crate::types::OperationRequestView;
use vstd::prelude::*;

verus! {

/// A harness takes requests just as long as it was neither closed nor struck by a fault. It
/// refuses them with the fault, also if it was closed before or after, and else with why it
/// was closed.
pub proof fn law_a_harness_refuses_with_its_fault_first(harness: HarnessView, cause: Seq<char>)
    ensures
        harness.refusal() is None <==> harness.fault_error is None && harness.closed_error is None,
        harness.fault_error matches Some(fault) ==> harness.refusal() == Some(fault),
        harness.fault_error is None ==> harness.refusal() == harness.closed_error,
        fault_message(cause) == "AgentHarness storage or invariant fault: "@ + cause,
        closing_message() == "AgentHarness was closed while the operation was active"@,
{
}

/// An update of a setting that all lanes share is told of no lane, and tells the setting.
pub proof fn law_a_shared_setting_is_told_of_no_lane(payload: ConfigUpdatePayloadView)
    ensures
        config_update(payload) matches HarnessEventView::ConfigUpdate {
            lane,
            payload: told,
            recovery,
        } && lane is None && told == payload && recovery is None,
{
}

/// A request has the id that its caller gave, whatever it asks for.
pub proof fn law_a_request_has_the_id_of_its_caller(
    request: OperationRequestView,
    id: Option<Seq<char>>,
)
    ensures
        request.operation_id() == id <==> match request {
            OperationRequestView::Prompt { operation_id, .. } => operation_id == id,
            OperationRequestView::Skill { operation_id, .. } => operation_id == id,
            OperationRequestView::PromptTemplate { operation_id, .. } => operation_id == id,
            OperationRequestView::Compaction { operation_id, .. } => operation_id == id,
            OperationRequestView::Navigation { operation_id, .. } => operation_id == id,
        },
{
}

/// A lane drives an operation just if it has a drive, and the drive is of that operation: so
/// at most one.
pub proof fn law_a_lane_drives_one_operation(lane: LaneImplView, one: Seq<char>, other: Seq<char>)
    ensures
        lane.active_drive is None ==> !lane.drives(one),
        lane.active_drive matches Some(drive) ==> (lane.drives(one) <==> drive.operation_id == one),
        lane.drives(one) && lane.drives(other) ==> one == other,
{
}

/// What is said of a lane that cannot be restored names the lane or the operation, and what is
/// wrong with it: the lane that owns the operation before the one that claims it.
pub proof fn law_an_error_of_a_restart_names_what_is_wrong(
    lane: Seq<char>,
    intent: Seq<char>,
    error: RestoreErrorView,
)
    ensures
        match error {
            RestoreErrorView::NotConfigured => error.text(lane, intent) == "Lane "@ + debug_text(
                lane,
            ) + " is not configured"@,
            RestoreErrorView::MissingMeta { operation_id } => error.text(lane, intent)
                == "Operation "@ + operation_id + " is missing op.meta"@,
            RestoreErrorView::MissingState { operation_id } => error.text(lane, intent)
                == "Operation "@ + operation_id + " is missing op.state"@,
            RestoreErrorView::ForeignOperation { operation_id, named } => error.text(lane, intent)
                == "Operation "@ + operation_id + " metadata names operation "@ + debug_text(named),
            RestoreErrorView::ForeignLane { operation_id, owner } => error.text(lane, intent)
                == "Operation "@ + operation_id + " belongs to lane "@ + debug_text(owner)
                + ", not "@ + debug_text(lane),
            RestoreErrorView::IntentMismatch { operation_id, at, .. } => error.text(lane, intent)
                == "Operation "@ + operation_id + " intent "@ + intent + " does not match state "@
                + at,
        },
{
}

/// Nothing but a lane can be restored. What has no tip lacks that, and what has a tip alone
/// lacks its configuration.
pub proof fn law_only_a_lane_lacks_nothing(stored: ClassifiedLaneStorageView)
    ensures
        lacking(stored) is None <==> stored is Lane,
        stored is Absent ==> lacking(stored) == Some("branch.tip"@),
        stored is Branch ==> lacking(stored) == Some("lane.config"@),
{
}

/// A summary is of a branch just if a navigation is to be committed with it, and otherwise
/// compacts.
pub proof fn law_a_summary_is_named_by_what_it_is_for(task: SummaryTaskView)
    ensures
        match task.boundary {
            ResultBoundaryView::CommitNavigation { .. } => kind_of(task) == "branch_summary"@,
            _ => kind_of(task) == "compaction"@,
        },
{
}

/// A response counts as an answer just if it neither failed nor was aborted or put off, nobody
/// asked to stop, and it came to a generation that did not overflow or to a poll.
pub proof fn law_a_response_that_did_not_fail_is_an_answer(
    current: OperationStateView,
    response: AssistantMessageView,
    overflow: bool,
)
    ensures
        is_answer(current, response, overflow) <==> {
            &&& match current {
                OperationStateView::AssistantEffectPending { .. } => !overflow,
                OperationStateView::DeferredEffectPending { .. } => true,
                _ => false,
            }
            &&& !(current.control() is CancelRequested)
            &&& match response.stop_reason {
                StopReason::Error => false,
                StopReason::Aborted => false,
                StopReason::Deferred => false,
                _ => true,
            }
        },
{
}

} // verus!
