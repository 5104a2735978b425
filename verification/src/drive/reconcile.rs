//! Winding down an operation that was asked to stop.

use crate::command::{OperationCommand, OperationCommandView};
use crate::drive::response::run_end;
use crate::drive::structural::navigation_end;
use crate::drive::terminal::{
    cleanup, is_scratch, lemma_cleanup_spares, operation_cleanup_writes, operation_result_record,
    result_record,
};
use crate::durable::{in_step, lemma_spared};
use crate::lane::settle::{keeps_step, law_settling_keeps_step, safe_decision, settled};
use crate::model::event::{HarnessEvent, HarnessEventView, PlannedEvent, PlannedEventView};
use crate::model::session::{
    OperationIntent, OperationIntentView, OperationMeta, OperationMetaView, OperationState,
    OperationStateView, ResultBoundary, TerminalStatus,
};
use crate::model::storage::{Address, AddressView, DurableValueView};
use crate::state::{is_cancelled, state_task};
use crate::types::{
    LanePatch, LanePatchView, LaneRuntimeState, LaneRuntimeStateView, ProcedureResult,
    ProcedureResultView,
};
use vstd::prelude::*;

verus! {

/// The step that winds down a cancelled leaf.
#[derive(Clone, Copy, Debug, PartialEq, Eq, Structural)]
pub enum ReconcileAction {
    /// Settle the response of the effect from what was committed of it.
    RecoverEffect,
    /// Stage and place what is left of the tool calls.
    WindDownTools,
    /// Cancel the deferred response, then end.
    CancelDeferredAndEnd,
    /// Cancel the deferred response, then settle the poll.
    CancelDeferredAndRecover,
    /// End.
    End,
}

/// The step that winds down a cancelled leaf: effects that were admitted are
/// settled, everything else ends.
pub open spec fn reconcile_action(state: OperationStateView) -> ReconcileAction {
    match state {
        OperationStateView::AssistantEffectPending { .. } => ReconcileAction::RecoverEffect,
        OperationStateView::Tools { .. } => ReconcileAction::WindDownTools,
        OperationStateView::DeferredSuspended { .. } => ReconcileAction::CancelDeferredAndEnd,
        OperationStateView::DeferredEffectPending { .. } => {
            ReconcileAction::CancelDeferredAndRecover
        },
        _ => ReconcileAction::End,
    }
}

/// Decides how to wind down a cancelled leaf.
pub fn reconcile_operation(state: &OperationState) -> (r: ReconcileAction)
    requires
        state.deep_view().cancelled(),
    ensures
        r == reconcile_action(state.deep_view()),
{
    match state {
        OperationState::AssistantEffectPending { .. } => ReconcileAction::RecoverEffect,
        OperationState::Tools { .. } => ReconcileAction::WindDownTools,
        OperationState::DeferredSuspended { .. } => ReconcileAction::CancelDeferredAndEnd,
        OperationState::DeferredEffectPending { .. } => {
            ReconcileAction::CancelDeferredAndRecover
        },
        _ => ReconcileAction::End,
    }
}

/// The event that ends a compaction.
pub open spec fn compaction_aborted(
    lane: Seq<char>,
    operation_id: Seq<char>,
    reason: Seq<char>,
    ended_at: u64,
) -> PlannedEventView {
    PlannedEventView::Ready(
        HarnessEventView::CompactionEnd {
            lane,
            run_id: operation_id,
            reason,
            ended_at,
            status: TerminalStatus::Aborted,
            entry_id: None,
            error: None,
            recovery: None,
        },
    )
}

/// The events of an aborted operation. A run that was compacting ends its
/// compaction first.
pub open spec fn aborted_events(
    lane: Seq<char>,
    operation_id: Seq<char>,
    tip_id: Option<Seq<char>>,
    current: OperationStateView,
    meta: OperationMetaView,
    ended_at: u64,
) -> Seq<PlannedEventView> {
    match meta.intent {
        OperationIntentView::Run { .. } => {
            let end = run_end(
                lane,
                operation_id,
                meta,
                tip_id,
                ended_at,
                TerminalStatus::Aborted,
                None,
            );
            match current.task() {
                Some(task) => seq![
                    compaction_aborted(lane, operation_id, task.reason->Some_0, ended_at),
                    end,
                ],
                None => seq![end],
            }
        },
        OperationIntentView::Compaction { .. } => seq![
            compaction_aborted(lane, operation_id, "manual"@, ended_at),
        ],
        OperationIntentView::Navigation { .. } => seq![
            navigation_end(
                lane,
                operation_id,
                meta.source_tip_id,
                tip_id,
                ended_at,
                TerminalStatus::Aborted,
                None,
            ),
        ],
    }
}

/// Why a leaf cannot be ended as aborted.
pub open spec fn abort_fault(current: OperationStateView, meta: OperationMetaView) -> Option<
    Seq<char>,
> {
    if !current.cancelled() {
        Some("Cancellation reconciliation requires cancelled durable control"@)
    } else if meta.intent is Run && (current.task() matches Some(task) && (!(task.boundary
        is ResumeCheckpoint) || task.reason is None)) {
        Some("Cancelled run summary has an invalid result boundary"@)
    } else {
        None
    }
}

/// The commit that ends a cancelled operation.
pub open spec fn aborted_command(
    lane: Seq<char>,
    operation_id: Seq<char>,
    tip_id: Option<Seq<char>>,
    current: OperationStateView,
    meta: OperationMetaView,
    scratch: Seq<AddressView>,
    ended_at: u64,
) -> Result<OperationCommandView<ProcedureResultView>, Seq<char>> {
    match abort_fault(current, meta) {
        Some(message) => Err(message),
        None => {
            let record = result_record(meta, TerminalStatus::Aborted, tip_id, None, ended_at);
            Ok(
                OperationCommandView::Finish {
                    writes: cleanup(operation_id, current, scratch),
                    record,
                    lane: Some(LanePatchView { tip_id: Some(tip_id), configuration: None, inbox: None }),
                    result: ProcedureResultView::Settled { outcome: record },
                    events: aborted_events(lane, operation_id, tip_id, current, meta, ended_at),
                },
            )
        },
    }
}

fn plan_aborted_events(
    lane_name: &String,
    operation_id: &String,
    tip_id: &Option<String>,
    current: &OperationState,
    meta: &OperationMeta,
    ended_at: u64,
) -> (r: Vec<PlannedEvent>)
    requires
        abort_fault(current.deep_view(), meta.deep_view()) is None,
    ensures
        r.deep_view() == aborted_events(
            lane_name@,
            operation_id@,
            tip_id.deep_view(),
            current.deep_view(),
            meta.deep_view(),
            ended_at,
        ),
{
    let ghost expected = aborted_events(
        lane_name@,
        operation_id@,
        tip_id.deep_view(),
        current.deep_view(),
        meta.deep_view(),
        ended_at,
    );
    let mut events: Vec<PlannedEvent> = Vec::new();
    match &meta.intent {
        OperationIntent::Run { .. } => {
            if let Some(task) = state_task(current) {
                if let Some(reason) = &task.reason {
                    events.push(
                        PlannedEvent::Ready(
                            HarnessEvent::CompactionEnd {
                                lane: lane_name.clone(),
                                run_id: operation_id.clone(),
                                reason: reason.clone(),
                                ended_at,
                                status: TerminalStatus::Aborted,
                                entry_id: None,
                                error: None,
                                recovery: None,
                            },
                        ),
                    );
                }
            }
            events.push(
                PlannedEvent::Ready(
                    HarnessEvent::RunEnd {
                        lane: lane_name.clone(),
                        run_id: operation_id.clone(),
                        from_tip_id: meta.source_tip_id.clone(),
                        tip_id: tip_id.clone(),
                        ended_at,
                        status: TerminalStatus::Aborted,
                        error: None,
                        recovery: None,
                    },
                ),
            );
        },
        OperationIntent::Compaction { .. } => {
            events.push(
                PlannedEvent::Ready(
                    HarnessEvent::CompactionEnd {
                        lane: lane_name.clone(),
                        run_id: operation_id.clone(),
                        reason: "manual".to_string(),
                        ended_at,
                        status: TerminalStatus::Aborted,
                        entry_id: None,
                        error: None,
                        recovery: None,
                    },
                ),
            );
        },
        OperationIntent::Navigation { .. } => {
            events.push(
                PlannedEvent::Ready(
                    HarnessEvent::NavigationEnd {
                        lane: lane_name.clone(),
                        run_id: operation_id.clone(),
                        from_tip_id: meta.source_tip_id.clone(),
                        tip_id: tip_id.clone(),
                        ended_at,
                        status: TerminalStatus::Aborted,
                        error: None,
                        recovery: None,
                    },
                ),
            );
        },
    }
    assert(events.deep_view() =~= expected);
    events
}

/// Ends a cancelled operation.
pub fn publish_aborted_terminal(
    lane_name: &String,
    operation_id: &String,
    state: &LaneRuntimeState,
    current: &OperationState,
    meta: &OperationMeta,
    scratch: Vec<Address>,
    ended_at: u64,
) -> (r: Result<OperationCommand<ProcedureResult>, String>)
    ensures
        match aborted_command(
            lane_name@,
            operation_id@,
            state.tip_id.deep_view(),
            current.deep_view(),
            meta.deep_view(),
            scratch.deep_view(),
            ended_at,
        ) {
            Ok(command) => r is Ok && r->Ok_0.deep_view() == command,
            Err(message) => r is Err && r->Err_0@ == message,
        },
{
    if !is_cancelled(current) {
        return Err("Cancellation reconciliation requires cancelled durable control".to_string());
    }
    if let OperationIntent::Run { .. } = &meta.intent {
        if let Some(task) = state_task(current) {
            let resumes = matches!(task.boundary, ResultBoundary::ResumeCheckpoint { .. });
            if !resumes || task.reason.is_none() {
                return Err("Cancelled run summary has an invalid result boundary".to_string());
            }
        }
    }
    let record = operation_result_record(
        meta,
        TerminalStatus::Aborted,
        state.tip_id.clone(),
        None,
        ended_at,
    );
    let events = plan_aborted_events(
        lane_name,
        operation_id,
        &state.tip_id,
        current,
        meta,
        ended_at,
    );
    Ok(
        OperationCommand::Finish {
            writes: operation_cleanup_writes(operation_id, current, scratch),
            record: record.clone(),
            lane: Some(
                LanePatch { tip_id: Some(state.tip_id.clone()), configuration: None, inbox: None },
            ),
            result: ProcedureResult::Settled { outcome: record },
            events,
        },
    )
}

/// Ending a cancelled operation keeps the lane in step with storage, and its tip
/// and inbox as they are.
pub proof fn law_aborting_keeps_step(
    store: Map<AddressView, DurableValueView>,
    lane: Seq<char>,
    state: LaneRuntimeStateView,
    scratch: Seq<AddressView>,
    ended_at: u64,
)
    requires
        in_step(store, lane, state),
        state.operation is Some,
        forall|i: int| 0 <= i < scratch.len() ==> is_scratch(#[trigger] scratch[i]),
    ensures
        ({
            let operation = state.operation->Some_0;
            aborted_command(
                lane,
                operation.meta.operation_id,
                state.tip_id,
                operation.state,
                operation.meta,
                scratch,
                ended_at,
            ) matches Ok(command) ==> {
                &&& safe_decision(store, lane, state, command)
                &&& keeps_step(store, lane, settled(lane, state, command))
                &&& settled(lane, state, command) matches
                    crate::command::LaneCommandView::Commit { next, .. }
                &&& next.tip_id == state.tip_id
                &&& next.inbox == state.inbox
                &&& next.operation is None
            }
        }),
{
    let operation = state.operation->Some_0;
    let operation_id = operation.meta.operation_id;
    if abort_fault(operation.state, operation.meta) is None {
        let command = aborted_command(
            lane,
            operation_id,
            state.tip_id,
            operation.state,
            operation.meta,
            scratch,
            ended_at,
        )->Ok_0;
        let writes = cleanup(operation_id, operation.state, scratch);
        lemma_cleanup_spares(
            operation_id,
            operation.state,
            scratch,
            AddressView::BranchTip { lane },
        );
        lemma_cleanup_spares(
            operation_id,
            operation.state,
            scratch,
            AddressView::LaneConfig { lane },
        );
        lemma_spared(store, writes, AddressView::BranchTip { lane });
        lemma_spared(store, writes, AddressView::LaneConfig { lane });
        law_settling_keeps_step(store, lane, state, command);
    }
}

} // verus!
