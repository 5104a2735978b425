//! The end of a run boundary: one more assistant step, or the result of the run.

use crate::command::{OperationCommand, OperationCommandView};
use crate::drive::boundary::{
    assistant_ready_at_boundary, boundary_plan, countable, lemma_placement_writes,
    plan_boundary_inbox, queue_events, ready_at_boundary, tip_write, write_tip,
};
use crate::drive::generation::{asked_text, hook_text};
use crate::drive::terminal::{
    cleanup, is_scratch, lemma_cleanup_spares, operation_cleanup_writes, operation_result_record,
    result_record,
};
use crate::durable::{
    committed, in_step, lemma_committed_concat, lemma_committed_push, lemma_spared, spares,
};
use crate::json::Json;
use crate::lane::settle::{keeps_step, law_settling_keeps_step, safe_decision, settled};
use crate::model::event::{HarnessEvent, HarnessEventView, PlannedEvent, PlannedEventView};
use crate::model::message::{
    AgentMessage, AgentMessageView, UserContent, UserContentView, UserMessage, UserMessageView,
};
use crate::model::session::{
    Continuation, OperationMeta, OperationMetaView, OperationState, OperationStateView,
    TerminalStatus,
};
use crate::model::storage::{
    Address, AddressView, CommitResultView, DurableValueView, NewEntry, NewEntryView,
    NewMessageEntry, NewMessageEntryView, Write, WriteView,
};
use crate::transcript::{append_all, committed_events, emitted, lemma_emitted_concat};
use crate::types::{
    BoundaryPlacement, BoundaryPlacementView, Config, ConfigView, LanePatch, LanePatchView,
    LaneRuntimeState, LaneRuntimeStateView, PendingRow, PendingRowView, ProcedureResult,
    ProcedureResultView,
};
use vstd::prelude::*;

verus! {

/// The planned events of inserted entries.
pub open spec fn entry_events(
    entries: Seq<NewEntryView>,
    lane: Seq<char>,
    run_id: Seq<char>,
) -> Seq<PlannedEventView> {
    Seq::new(
        entries.len(),
        |i: int|
            PlannedEventView::Lifecycle {
                entry: entries[i],
                write_index: i as usize,
                lane,
                run_id: Some(run_id),
            },
    )
}

/// Plans the events of entries that the first writes of a commit insert.
pub fn plan_entry_events(entries: &Vec<NewEntry>, lane: &String, run_id: &String) -> (r: Vec<
    PlannedEvent,
>)
    ensures
        r.deep_view() == entry_events(entries.deep_view(), lane@, run_id@),
{
    let mut events: Vec<PlannedEvent> = Vec::new();
    let mut i: usize = 0;
    while i < entries.len()
        invariant
            i <= entries.len(),
            events.len() == i,
            forall|k: int|
                0 <= k < i ==> #[trigger] events[k].deep_view() == entry_events(
                    entries.deep_view(),
                    lane@,
                    run_id@,
                )[k],
        decreases entries.len() - i,
    {
        events.push(
            PlannedEvent::Lifecycle {
                entry: entries[i].clone(),
                write_index: i,
                lane: lane.clone(),
                run_id: Some(run_id.clone()),
            },
        );
        i += 1;
    }
    assert(events.deep_view() =~= entry_events(entries.deep_view(), lane@, run_id@)) by {
        assert forall|k: int| 0 <= k < events.len() implies #[trigger] events.deep_view()[k]
            == entry_events(entries.deep_view(), lane@, run_id@)[k] by {
            assert(events[k].deep_view() == entry_events(entries.deep_view(), lane@, run_id@)[k]);
        }
    }
    events
}

/// Events that need nothing of a commit.
pub open spec fn ready(events: Seq<HarnessEventView>) -> Seq<PlannedEventView> {
    Seq::new(events.len(), |i: int| PlannedEventView::Ready(events[i]))
}

/// Plans events that need nothing of a commit.
pub fn plan_ready(events: Vec<HarnessEvent>) -> (r: Vec<PlannedEvent>)
    ensures
        r.deep_view() == ready(events.deep_view()),
{
    let mut planned: Vec<PlannedEvent> = Vec::new();
    let mut i: usize = 0;
    while i < events.len()
        invariant
            i <= events.len(),
            planned.len() == i,
            forall|k: int|
                0 <= k < i ==> #[trigger] planned[k].deep_view() == PlannedEventView::Ready(
                    events[k].deep_view(),
                ),
        decreases events.len() - i,
    {
        planned.push(PlannedEvent::Ready(events[i].clone()));
        i += 1;
    }
    assert(planned.deep_view() =~= ready(events.deep_view()));
    planned
}

/// The planned events of a placement.
pub open spec fn placement_events(
    placement: BoundaryPlacementView,
    lane: Seq<char>,
    run_id: Seq<char>,
) -> Seq<PlannedEventView> {
    entry_events(placement.entries, lane, run_id) + ready(queue_events(placement, lane))
}

/// Plans the events of a placement whose writes come first in a commit.
pub fn plan_placement_events(placement: &BoundaryPlacement, lane: &String, run_id: &String) -> (r:
    Vec<PlannedEvent>)
    ensures
        r.deep_view() == placement_events(placement.deep_view(), lane@, run_id@),
{
    let mut events = plan_entry_events(&placement.entries, lane, run_id);
    let ghost before = events.deep_view();
    if let Some(queues) = &placement.queues {
        events.push(
            PlannedEvent::Ready(
                HarnessEvent::QueueUpdate {
                    lane: lane.clone(),
                    queues: queues.clone(),
                    recovery: None,
                },
            ),
        );
    }
    assert(events.deep_view() =~= before + ready(queue_events(placement.deep_view(), lane@)));
    events
}

/// The planned events of inserted entries become the events of committed
/// entries.
pub proof fn lemma_entry_events_emitted(
    entries: Seq<NewEntryView>,
    commit: CommitResultView,
    lane: Seq<char>,
    run_id: Seq<char>,
)
    requires
        entries.len() <= usize::MAX,
    ensures
        emitted(entry_events(entries, lane, run_id), commit) == committed_events(
            entries,
            commit,
            lane,
            Some(run_id),
            0,
        ),
    decreases entries.len(),
{
    if entries.len() > 0 {
        lemma_entry_events_emitted(entries.drop_last(), commit, lane, run_id);
        assert(entry_events(entries, lane, run_id).drop_last() =~= entry_events(
            entries.drop_last(),
            lane,
            run_id,
        ));
    }
}

/// Events that need nothing of a commit are emitted as they are.
pub proof fn lemma_ready_emitted(events: Seq<HarnessEventView>, commit: CommitResultView)
    ensures
        emitted(ready(events), commit) == events,
    decreases events.len(),
{
    if events.len() > 0 {
        lemma_ready_emitted(events.drop_last(), commit);
        assert(ready(events).drop_last() =~= ready(events.drop_last()));
        assert(emitted(ready(events), commit) =~= events);
    } else {
        assert(emitted(ready(events), commit) =~= events);
    }
}

/// The planned events of a placement become the events that
/// `boundary_placement_events` makes of it.
pub proof fn law_placement_events_are_emitted(
    placement: BoundaryPlacementView,
    commit: CommitResultView,
    lane: Seq<char>,
    run_id: Seq<char>,
)
    requires
        placement.entries.len() <= usize::MAX,
    ensures
        emitted(placement_events(placement, lane, run_id), commit) == committed_events(
            placement.entries,
            commit,
            lane,
            Some(run_id),
            0,
        ) + queue_events(placement, lane),
{
    lemma_entry_events_emitted(placement.entries, commit, lane, run_id);
    let queues = ready(queue_events(placement, lane));
    lemma_emitted_concat(entry_events(placement.entries, lane, run_id), queues, commit);
    lemma_ready_emitted(queue_events(placement, lane), commit);
}

/// A message that a hook adds to a run that is about to end.
#[derive(Debug, PartialEq, Eq)]
pub struct FollowUp {
    pub entry_id: String,
    pub message: AgentMessage,
}

/// Contents of a [`FollowUp`].
pub struct FollowUpView {
    pub entry_id: Seq<char>,
    pub message: AgentMessageView,
}

impl DeepView for FollowUp {
    type V = FollowUpView;

    open spec fn deep_view(&self) -> FollowUpView {
        FollowUpView { entry_id: self.entry_id.deep_view(), message: self.message.deep_view() }
    }
}

/// The follow-up that a hook asks for: a message of the user with the text that
/// it gives.
pub open spec fn asked_follow_up(
    hook: serde_json::Value,
    entry_id: Seq<char>,
    timestamp: u64,
) -> Option<FollowUpView> {
    match asked_text(hook, "followUp"@) {
        Some(text) => Some(
            FollowUpView {
                entry_id,
                message: AgentMessageView::User(
                    UserMessageView { content: UserContentView::Text(text), timestamp },
                ),
            },
        ),
        None => None,
    }
}

/// Reads the follow-up that a hook asks for.
pub fn read_follow_up(hook: &Json, entry_id: String, timestamp: u64) -> (r: Option<FollowUp>)
    ensures
        r.deep_view() == asked_follow_up(hook.deep_view(), entry_id@, timestamp),
{
    match hook_text(hook, "followUp") {
        Some(text) => Some(
            FollowUp {
                entry_id,
                message: AgentMessage::User(
                    UserMessage { content: UserContent::Text(text), timestamp },
                ),
            },
        ),
        None => None,
    }
}

/// The ids of inserted entries.
pub open spec fn entry_ids(entries: Seq<NewEntryView>) -> Seq<Seq<char>> {
    Seq::new(entries.len(), |i: int| entries[i].id())
}

/// The ids of inserted entries.
pub fn ids_of_entries(entries: &Vec<NewEntry>) -> (r: Vec<String>)
    ensures
        r.deep_view() == entry_ids(entries.deep_view()),
{
    let mut ids: Vec<String> = Vec::new();
    let mut i: usize = 0;
    while i < entries.len()
        invariant
            i <= entries.len(),
            ids.len() == i,
            forall|k: int| 0 <= k < i ==> #[trigger] ids[k]@ == entries[k].deep_view().id(),
        decreases entries.len() - i,
    {
        ids.push(entries[i].id().clone());
        i += 1;
    }
    assert(ids.deep_view() =~= entry_ids(entries.deep_view()));
    ids
}

fn has_ids(entries: &Vec<NewEntry>, ids: &Vec<String>) -> (r: bool)
    ensures
        r == (entry_ids(entries.deep_view()) == ids.deep_view()),
{
    if entries.len() != ids.len() {
        assert(entry_ids(entries.deep_view()).len() != ids.deep_view().len());
        return false;
    }
    let mut i: usize = 0;
    while i < entries.len()
        invariant
            i <= entries.len(),
            entries.len() == ids.len(),
            forall|k: int| 0 <= k < i ==> entries[k].deep_view().id() == #[trigger] ids[k]@,
        decreases entries.len() - i,
    {
        if *entries[i].id() != ids[i] {
            assert(entry_ids(entries.deep_view())[i as int] != ids.deep_view()[i as int]);
            return false;
        }
        i += 1;
    }
    assert(entry_ids(entries.deep_view()) =~= ids.deep_view());
    true
}

/// The entry of a follow-up.
pub open spec fn follow_up_entry(
    follow_up: FollowUpView,
    parent_id: Option<Seq<char>>,
) -> NewEntryView {
    NewEntryView::Message(
        NewMessageEntryView {
            id: follow_up.entry_id,
            parent_id,
            custom_type: None,
            message: follow_up.message,
            terminate: None,
        },
    )
}

/// A decision that starts an assistant step after a placement.
pub open spec fn step_after(
    placement: BoundaryPlacementView,
    lane: Seq<char>,
    operation_id: Seq<char>,
    next: OperationStateView,
    before: Seq<HarnessEventView>,
) -> OperationCommandView<ProcedureResultView> {
    OperationCommandView::Commit {
        writes: placement.writes,
        operation_state: next,
        lane: Some(
            LanePatchView {
                tip_id: Some(placement.tip_id),
                configuration: None,
                inbox: Some(placement.inbox),
            },
        ),
        result: ProcedureResultView::Continue,
        events: ready(before) + placement_events(placement, lane, operation_id),
    }
}

/// A decision that starts an assistant step on a follow-up of a hook.
pub open spec fn follow_up_after(
    placement: BoundaryPlacementView,
    lane: Seq<char>,
    operation_id: Seq<char>,
    next: OperationStateView,
    before: Seq<HarnessEventView>,
    follow_up: FollowUpView,
) -> OperationCommandView<ProcedureResultView> {
    let entry = follow_up_entry(follow_up, placement.tip_id);
    OperationCommandView::Commit {
        writes: placement.writes.push(WriteView::InsertEntry(entry)).push(
            tip_write(lane, Some(follow_up.entry_id)),
        ),
        operation_state: next,
        lane: Some(
            LanePatchView {
                tip_id: Some(Some(follow_up.entry_id)),
                configuration: None,
                inbox: Some(placement.inbox),
            },
        ),
        result: ProcedureResultView::Continue,
        events: (ready(before) + placement_events(placement, lane, operation_id)).push(
            PlannedEventView::Lifecycle {
                entry,
                write_index: placement.writes.len() as usize,
                lane,
                run_id: Some(operation_id),
            },
        ),
    }
}

/// A decision that ends a run after a placement.
pub open spec fn end_after(
    placement: BoundaryPlacementView,
    lane: Seq<char>,
    operation_id: Seq<char>,
    current: OperationStateView,
    meta: OperationMetaView,
    scratch: Seq<AddressView>,
    ended_at: u64,
    before: Seq<HarnessEventView>,
) -> OperationCommandView<ProcedureResultView> {
    let record = result_record(meta, TerminalStatus::Completed, placement.tip_id, None, ended_at);
    OperationCommandView::Finish {
        writes: placement.writes + cleanup(operation_id, current, scratch),
        record,
        lane: Some(
            LanePatchView {
                tip_id: Some(placement.tip_id),
                configuration: None,
                inbox: Some(placement.inbox),
            },
        ),
        result: ProcedureResultView::Settled { outcome: record },
        events: (ready(before) + placement_events(placement, lane, operation_id)).push(
            PlannedEventView::Ready(
                HarnessEventView::RunEnd {
                    lane,
                    run_id: operation_id,
                    from_tip_id: meta.source_tip_id,
                    tip_id: placement.tip_id,
                    ended_at,
                    status: TerminalStatus::Completed,
                    error: None,
                    recovery: None,
                },
            ),
        ),
    }
}

/// What a run boundary that may finish comes to.
///
/// Whatever of the inbox can be answered starts another step. Otherwise the
/// hook's follow-up does, if the hook saw this placement. Otherwise the run ends.
pub open spec fn boundary_end(
    placement: BoundaryPlacementView,
    lane: Seq<char>,
    operation_id: Seq<char>,
    config: ConfigView,
    default_delay_ms: u64,
    step_id: Seq<char>,
    state: LaneRuntimeStateView,
    current: OperationStateView,
    meta: OperationMetaView,
    continuation: Continuation,
    planned_entry_ids: Seq<Seq<char>>,
    before: Seq<HarnessEventView>,
    follow_up: Option<FollowUpView>,
    scratch: Seq<AddressView>,
    ended_at: u64,
) -> Result<OperationCommandView<ProcedureResultView>, Seq<char>> {
    let hook_saw_it = entry_ids(placement.entries) == planned_entry_ids;
    if let Some(trigger) = placement.trigger_entry_id {
        Ok(
            step_after(
                placement,
                lane,
                operation_id,
                ready_at_boundary(
                    config,
                    default_delay_ms,
                    step_id,
                    state,
                    current.scope(),
                    trigger,
                    false,
                ),
                before,
            ),
        )
    } else if hook_saw_it && follow_up is Some {
        Ok(
            follow_up_after(
                placement,
                lane,
                operation_id,
                ready_at_boundary(
                    config,
                    default_delay_ms,
                    step_id,
                    state,
                    current.scope(),
                    follow_up->Some_0.entry_id,
                    false,
                ),
                before,
                follow_up->Some_0,
            ),
        )
    } else if placement.tip_id is None {
        Err("Completed run has no tip"@)
    } else if continuation == (Continuation::MayFinish { include_final_assistant: true })
        && current.scope().latest_assistant_entry_id is None {
        Err("Completed run is missing its final assistant"@)
    } else {
        Ok(
            end_after(
                placement,
                lane,
                operation_id,
                current,
                meta,
                scratch,
                ended_at,
                before,
            ),
        )
    }
}

/// Ends a run boundary on a placement that was made for it.
pub fn end_boundary(
    placement: BoundaryPlacement,
    lane_name: &String,
    operation_id: &String,
    config: &Config,
    default_delay_ms: u64,
    step_id: String,
    state: &LaneRuntimeState,
    current: &OperationState,
    meta: &OperationMeta,
    continuation: Continuation,
    planned_entry_ids: &Vec<String>,
    pending_events: Vec<HarnessEvent>,
    follow_up: Option<FollowUp>,
    scratch: Vec<Address>,
    ended_at: u64,
) -> (r: Result<OperationCommand<ProcedureResult>, String>)
    requires
        !current.deep_view().is_deferred(),
        countable(config.retry_policy),
    ensures
        match boundary_end(
            placement.deep_view(),
            lane_name@,
            operation_id@,
            config.deep_view(),
            default_delay_ms,
            step_id@,
            state.deep_view(),
            current.deep_view(),
            meta.deep_view(),
            continuation,
            planned_entry_ids.deep_view(),
            pending_events.deep_view(),
            follow_up.deep_view(),
            scratch.deep_view(),
            ended_at,
        ) {
            Ok(command) => r is Ok && r->Ok_0.deep_view() == command,
            Err(message) => r is Err && r->Err_0@ == message,
        },
{
    let mut events = plan_ready(pending_events);
    append_all(&mut events, plan_placement_events(&placement, lane_name, operation_id));
    let ghost planned = events.deep_view();
    if let Some(trigger) = placement.trigger_entry_id {
        let next = assistant_ready_at_boundary(
            config,
            default_delay_ms,
            step_id,
            state,
            current.scope().clone(),
            trigger,
            false,
        );
        return Ok(
            OperationCommand::Commit {
                writes: placement.writes,
                operation_state: next,
                lane: Some(
                    LanePatch {
                        tip_id: Some(placement.tip_id),
                        configuration: None,
                        inbox: Some(placement.inbox),
                    },
                ),
                result: ProcedureResult::Continue,
                events,
            },
        );
    }
    let hook_plan_is_current = has_ids(&placement.entries, planned_entry_ids);
    if hook_plan_is_current {
        if let Some(follow_up) = follow_up {
            let entry = NewEntry::Message(
                NewMessageEntry {
                    id: follow_up.entry_id.clone(),
                    parent_id: placement.tip_id.clone(),
                    custom_type: None,
                    message: follow_up.message,
                    terminate: None,
                },
            );
            let mut writes = placement.writes;
            let ghost placed = writes.deep_view();
            let entry_write_index: usize = writes.len();
            writes.push(Write::InsertEntry(entry.clone()));
            writes.push(write_tip(lane_name, Some(follow_up.entry_id.clone())));
            assert(writes.deep_view() =~= placed.push(
                WriteView::InsertEntry(entry.deep_view()),
            ).push(tip_write(lane_name@, Some(follow_up.entry_id@))));
            let tip_id = Some(follow_up.entry_id.clone());
            let next = assistant_ready_at_boundary(
                config,
                default_delay_ms,
                step_id,
                state,
                current.scope().clone(),
                follow_up.entry_id,
                false,
            );
            let lifecycle = PlannedEvent::Lifecycle {
                entry,
                write_index: entry_write_index,
                lane: lane_name.clone(),
                run_id: Some(operation_id.clone()),
            };
            events.push(lifecycle);
            assert(events.deep_view() =~= planned.push(lifecycle.deep_view()));
            return Ok(
                OperationCommand::Commit {
                    writes,
                    operation_state: next,
                    lane: Some(
                        LanePatch { tip_id: Some(tip_id), configuration: None, inbox: Some(placement.inbox) },
                    ),
                    result: ProcedureResult::Continue,
                    events,
                },
            );
        }
    }
    if placement.tip_id.is_none() {
        return Err("Completed run has no tip".to_string());
    }
    let include_final = match continuation {
        Continuation::MayFinish { include_final_assistant } => include_final_assistant,
        _ => false,
    };
    if include_final && current.scope().latest_assistant_entry_id.is_none() {
        return Err("Completed run is missing its final assistant".to_string());
    }
    let record = operation_result_record(
        meta,
        TerminalStatus::Completed,
        placement.tip_id.clone(),
        None,
        ended_at,
    );
    let mut writes = placement.writes;
    append_all(&mut writes, operation_cleanup_writes(operation_id, current, scratch));
    let run_end = PlannedEvent::Ready(
        HarnessEvent::RunEnd {
            lane: lane_name.clone(),
            run_id: operation_id.clone(),
            from_tip_id: meta.source_tip_id.clone(),
            tip_id: placement.tip_id.clone(),
            ended_at,
            status: TerminalStatus::Completed,
            error: None,
            recovery: None,
        },
    );
    events.push(run_end);
    assert(events.deep_view() =~= planned.push(run_end.deep_view()));
    Ok(
        OperationCommand::Finish {
            writes,
            record: record.clone(),
            lane: Some(
                LanePatch {
                    tip_id: Some(placement.tip_id),
                    configuration: None,
                    inbox: Some(placement.inbox),
                },
            ),
            result: ProcedureResult::Settled { outcome: record },
            events,
        },
    )
}

/// What a run boundary that may finish comes to, from the inbox on.
pub open spec fn run_boundary_end(
    lane: Seq<char>,
    operation_id: Seq<char>,
    config: ConfigView,
    default_delay_ms: u64,
    step_id: Seq<char>,
    state: LaneRuntimeStateView,
    current: OperationStateView,
    meta: OperationMetaView,
    rows: Seq<PendingRowView>,
    continuation: Continuation,
    planned_entry_ids: Seq<Seq<char>>,
    before: Seq<HarnessEventView>,
    follow_up: Option<FollowUpView>,
    scratch: Seq<AddressView>,
    ended_at: u64,
) -> Result<OperationCommandView<ProcedureResultView>, Seq<char>> {
    match boundary_plan(
        config.entry_projectors,
        lane,
        state.inbox,
        current.scope(),
        rows,
        state.tip_id,
        true,
    ) {
        Err(message) => Err(message),
        Ok(placement) => boundary_end(
            placement,
            lane,
            operation_id,
            config,
            default_delay_ms,
            step_id,
            state,
            current,
            meta,
            continuation,
            planned_entry_ids,
            before,
            follow_up,
            scratch,
            ended_at,
        ),
    }
}

/// Plans the inbox once more after the hook on the end of a run, and goes on or
/// ends the run.
pub fn finish_run_boundary(
    lane_name: &String,
    operation_id: &String,
    config: &Config,
    default_delay_ms: u64,
    step_id: String,
    state: &LaneRuntimeState,
    current: &OperationState,
    meta: &OperationMeta,
    rows: &Vec<PendingRow>,
    continuation: Continuation,
    planned_entry_ids: &Vec<String>,
    pending_events: Vec<HarnessEvent>,
    follow_up: Option<FollowUp>,
    scratch: Vec<Address>,
    ended_at: u64,
) -> (r: Result<OperationCommand<ProcedureResult>, String>)
    requires
        !current.deep_view().is_deferred(),
        countable(config.retry_policy),
    ensures
        match run_boundary_end(
            lane_name@,
            operation_id@,
            config.deep_view(),
            default_delay_ms,
            step_id@,
            state.deep_view(),
            current.deep_view(),
            meta.deep_view(),
            rows.deep_view(),
            continuation,
            planned_entry_ids.deep_view(),
            pending_events.deep_view(),
            follow_up.deep_view(),
            scratch.deep_view(),
            ended_at,
        ) {
            Ok(command) => r is Ok && r->Ok_0.deep_view() == command,
            Err(message) => r is Err && r->Err_0@ == message,
        },
{
    match plan_boundary_inbox(
        config,
        lane_name,
        state,
        current.scope(),
        rows,
        state.tip_id.clone(),
        true,
    ) {
        Err(message) => Err(message),
        Ok(placement) => end_boundary(
            placement,
            lane_name,
            operation_id,
            config,
            default_delay_ms,
            step_id,
            state,
            current,
            meta,
            continuation,
            planned_entry_ids,
            pending_events,
            follow_up,
            scratch,
            ended_at,
        ),
    }
}

/// Ending a run boundary keeps the lane in step with storage.
pub proof fn law_finishing_a_boundary_keeps_step(
    store: Map<AddressView, DurableValueView>,
    lane: Seq<char>,
    config: ConfigView,
    default_delay_ms: u64,
    step_id: Seq<char>,
    state: LaneRuntimeStateView,
    rows: Seq<PendingRowView>,
    continuation: Continuation,
    planned_entry_ids: Seq<Seq<char>>,
    before: Seq<HarnessEventView>,
    follow_up: Option<FollowUpView>,
    scratch: Seq<AddressView>,
    ended_at: u64,
)
    requires
        in_step(store, lane, state),
        state.operation matches Some(operation) && operation.meta.intent is Run
            && !operation.state.is_deferred(),
        forall|i: int| 0 <= i < scratch.len() ==> is_scratch(#[trigger] scratch[i]),
    ensures
        ({
            let operation = state.operation->Some_0;
            run_boundary_end(
                lane,
                operation.meta.operation_id,
                config,
                default_delay_ms,
                step_id,
                state,
                operation.state,
                operation.meta,
                rows,
                continuation,
                planned_entry_ids,
                before,
                follow_up,
                scratch,
                ended_at,
            ) matches Ok(command) ==> safe_decision(store, lane, state, command) && keeps_step(
                store,
                lane,
                settled(lane, state, command),
            )
        }),
{
    let operation = state.operation->Some_0;
    let operation_id = operation.meta.operation_id;
    let plan = boundary_plan(
        config.entry_projectors,
        lane,
        state.inbox,
        operation.state.scope(),
        rows,
        state.tip_id,
        true,
    );
    if let Ok(placement) = plan {
        lemma_placement_writes(
            store,
            config.entry_projectors,
            lane,
            state.inbox,
            operation.state.scope(),
            rows,
            state.tip_id,
            true,
            placement,
        );
        let end = boundary_end(
            placement,
            lane,
            operation_id,
            config,
            default_delay_ms,
            step_id,
            state,
            operation.state,
            operation.meta,
            continuation,
            planned_entry_ids,
            before,
            follow_up,
            scratch,
            ended_at,
        );
        let config_address = AddressView::LaneConfig { lane };
        let state_address = AddressView::LaneState { lane };
        let meta_address = AddressView::OperationMeta { operation_id };
        assert(spares(placement.writes, config_address));
        assert(spares(placement.writes, state_address));
        assert(spares(placement.writes, meta_address));
        lemma_spared(store, placement.writes, config_address);
        if placement.trigger_entry_id is Some {
        } else if entry_ids(placement.entries) == planned_entry_ids && follow_up is Some {
            let insert = WriteView::InsertEntry(
                follow_up_entry(follow_up->Some_0, placement.tip_id),
            );
            let tip = tip_write(lane, Some(follow_up->Some_0.entry_id));
            lemma_committed_push(store, placement.writes, insert);
            lemma_committed_push(store, placement.writes.push(insert), tip);
        } else if end is Ok {
            let writes = cleanup(operation_id, operation.state, scratch);
            lemma_cleanup_spares(
                operation_id,
                operation.state,
                scratch,
                AddressView::BranchTip { lane },
            );
            lemma_cleanup_spares(operation_id, operation.state, scratch, config_address);
            lemma_committed_concat(store, placement.writes, writes);
            lemma_spared(
                committed(store, placement.writes),
                writes,
                AddressView::BranchTip { lane },
            );
            lemma_spared(committed(store, placement.writes), writes, config_address);
        }
        if let Ok(command) = end {
            law_settling_keeps_step(store, lane, state, command);
        }
    }
}

} // verus!
