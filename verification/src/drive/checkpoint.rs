//! The start of a run and its checkpoints.

use crate::command::{OperationCommand, OperationCommandView};
use crate::drive::boundary::{
    assistant_ready_at_boundary, boundary_plan, countable, insert_entries, insertions,
    lemma_placement_writes, plan_boundary_inbox, ready_at_boundary, tip_write, write_tip,
};
use crate::drive::finish::{
    entry_events, entry_ids, ids_of_entries, placement_events, plan_entry_events,
    plan_placement_events,
};
use crate::durable::{in_step, lemma_committed_push, lemma_spared, spares};
use crate::json::{elements, elements_of, member, member_of, Json};
use crate::lane::settle::{keeps_step, law_settling_keeps_step, safe_decision, settled};
use crate::model::event::{PlannedEvent, PlannedEventView};
use crate::model::message::{AgentMessage, AgentMessageView};
use crate::model::session::{
    CheckpointData, CheckpointDataView, Continuation, DurableStructuralPreparation,
    DurableStructuralPreparationView, OperationIntent, OperationIntentView, OperationMeta,
    OperationMetaView, OperationState, OperationStateView, ResultBoundary, ResultBoundaryView,
    SummaryTask, SummaryTaskView,
};
use crate::model::storage::{
    Address, AddressView, DurableValue, DurableValueView, Entry, EntryView, NewEntry, NewEntryView,
    NewMessageEntry, NewMessageEntryView, Write, WriteView,
};
use crate::text::join;
use crate::transcript::{
    any_pending, any_pending_assistant, entry_of, find_entry, lemma_prefix_push,
};
use crate::types::{
    BoundaryFinishPending, BoundaryFinishPendingView, BoundaryPlacement, BoundaryPlacementView,
    CheckpointPlanned, CheckpointPlannedView, Config, ConfigView, LanePatch, LanePatchView,
    LaneRuntimeState, LaneRuntimeStateView, PendingRow, PendingRowView, ProcedureResult,
    ProcedureResultView,
};
use vstd::prelude::*;

verus! {

/// The messages of prompt entries, or why the first unusable one cannot be read.
pub open spec fn messages_of(ids: Seq<Seq<char>>, entries: Seq<EntryView>) -> Result<
    Seq<AgentMessageView>,
    Seq<char>,
>
    decreases ids.len(),
{
    if ids.len() == 0 {
        Ok(Seq::empty())
    } else {
        match messages_of(ids.drop_last(), entries) {
            Err(message) => Err(message),
            Ok(messages) => match entry_of(entries, ids.last()) {
                Some(EntryView::Message(entry)) => Ok(messages.push(entry.message)),
                _ => Err("Run prompt entry "@ + ids.last() + " is missing its message"@),
            },
        }
    }
}

proof fn lemma_messages_fail(ids: Seq<Seq<char>>, entries: Seq<EntryView>, n: int)
    requires
        0 <= n <= ids.len(),
        messages_of(ids.take(n), entries) is Err,
    ensures
        messages_of(ids, entries) == messages_of(ids.take(n), entries),
    decreases ids.len(),
{
    if n < ids.len() {
        assert(ids.drop_last().take(n) =~= ids.take(n));
        lemma_messages_fail(ids.drop_last(), entries, n);
    } else {
        assert(ids.take(n) =~= ids);
    }
}

/// The prompt of a run: the messages of its prompt entries, in order.
pub open spec fn prompt_of(meta: OperationMetaView, entries: Seq<EntryView>) -> Result<
    Seq<AgentMessageView>,
    Seq<char>,
> {
    match meta.intent {
        OperationIntentView::Run { prompt_entry_ids } => messages_of(prompt_entry_ids, entries),
        _ => Err("Run operation has non-run intent"@),
    }
}

/// Reads the prompt of a run from the entries fetched for it.
pub fn run_prompt(meta: &OperationMeta, entries: &Vec<Entry>) -> (r: Result<
    Vec<AgentMessage>,
    String,
>)
    ensures
        match prompt_of(meta.deep_view(), entries.deep_view()) {
            Ok(messages) => r is Ok && r->Ok_0.deep_view() == messages,
            Err(message) => r is Err && r->Err_0@ == message,
        },
{
    let ids = match &meta.intent {
        OperationIntent::Run { prompt_entry_ids } => prompt_entry_ids,
        _ => {
            return Err("Run operation has non-run intent".to_string());
        },
    };
    let mut messages: Vec<AgentMessage> = Vec::new();
    let mut i: usize = 0;
    assert(messages.deep_view() =~= Seq::empty());
    while i < ids.len()
        invariant
            i <= ids.len(),
            meta.deep_view().intent == (OperationIntentView::Run {
                prompt_entry_ids: ids.deep_view(),
            }),
            messages_of(ids.deep_view().take(i as int), entries.deep_view()) == Ok::<
                Seq<AgentMessageView>,
                Seq<char>,
            >(messages.deep_view()),
        decreases ids.len() - i,
    {
        let ghost before = messages.deep_view();
        proof {
            lemma_prefix_push(*ids, i as int);
        }
        match find_entry(entries, &ids[i]) {
            Some(Entry::Message(entry)) => {
                messages.push(entry.message.clone());
                assert(messages.deep_view() =~= before.push(entry.message.deep_view()));
            },
            _ => {
                proof {
                    lemma_messages_fail(ids.deep_view(), entries.deep_view(), i as int + 1);
                }
                let named = join("Run prompt entry ".to_string(), ids[i].as_str());
                return Err(join(named, " is missing its message"));
            },
        }
        i += 1;
    }
    assert(ids.deep_view().take(i as int) =~= ids.deep_view());
    Ok(messages)
}

/// The messages that the hook before a run adds: none unless it gives an array.
pub open spec fn added_by(hook: serde_json::Value) -> Seq<serde_json::Value> {
    match member_of(hook, "messages"@) {
        Some(list) => match elements_of(list) {
            Some(values) => values,
            None => Seq::empty(),
        },
        None => Seq::empty(),
    }
}

/// Reads the messages that the hook before a run adds.
pub fn injected_values(hook: &Json) -> (r: Vec<Json>)
    ensures
        r.deep_view() == added_by(hook.deep_view()),
{
    let values = match member(hook, "messages") {
        Some(list) => match elements(&list) {
            Some(values) => values,
            None => Vec::new(),
        },
        None => Vec::new(),
    };
    let mut messages: Vec<Json> = Vec::new();
    let mut i: usize = 0;
    while i < values.len()
        invariant
            i <= values.len(),
            messages.len() == i,
            forall|k: int| 0 <= k < i ==> #[trigger] messages[k].deep_view() == values@[k],
        decreases values.len() - i,
    {
        messages.push(Json { value: values[i].clone() });
        i += 1;
    }
    assert(messages.deep_view() =~= added_by(hook.deep_view()));
    messages
}

/// Refuses messages of a hook that are still streaming.
pub fn check_injected(messages: &Vec<AgentMessage>) -> (r: Result<(), String>)
    ensures
        r is Err <==> any_pending(messages.deep_view()),
        r is Err ==> r->Err_0@ == "before_run returned a pending assistant message"@,
{
    if any_pending_assistant(messages) {
        Err("before_run returned a pending assistant message".to_string())
    } else {
        Ok(())
    }
}

/// A message with the id reserved for it.
#[derive(Debug, PartialEq, Eq)]
pub struct ReservedMessage {
    pub entry_id: String,
    pub message: AgentMessage,
}

/// Contents of a [`ReservedMessage`].
pub struct ReservedMessageView {
    pub entry_id: Seq<char>,
    pub message: AgentMessageView,
}

impl DeepView for ReservedMessage {
    type V = ReservedMessageView;

    open spec fn deep_view(&self) -> ReservedMessageView {
        ReservedMessageView {
            entry_id: self.entry_id.deep_view(),
            message: self.message.deep_view(),
        }
    }
}

/// The tip after the first `n` of some messages are appended.
pub open spec fn tip_behind(
    tip_id: Option<Seq<char>>,
    reserved: Seq<ReservedMessageView>,
    n: int,
) -> Option<Seq<char>> {
    if n <= 0 {
        tip_id
    } else {
        Some(reserved[n - 1].entry_id)
    }
}

/// The entries that append messages: each behind the one before it, the first
/// behind the tip.
pub open spec fn appended(tip_id: Option<Seq<char>>, reserved: Seq<ReservedMessageView>) -> Seq<
    NewEntryView,
> {
    Seq::new(
        reserved.len(),
        |i: int|
            NewEntryView::Message(
                NewMessageEntryView {
                    id: reserved[i].entry_id,
                    parent_id: tip_behind(tip_id, reserved, i),
                    custom_type: None,
                    message: reserved[i].message,
                    terminate: None,
                },
            ),
    )
}

/// Appends messages behind the tip.
pub fn append_messages(tip_id: Option<String>, reserved: &Vec<ReservedMessage>) -> (r: Vec<NewEntry>)
    ensures
        r.deep_view() == appended(tip_id.deep_view(), reserved.deep_view()),
{
    let ghost tip = tip_id.deep_view();
    let mut parent_id = tip_id;
    let mut entries: Vec<NewEntry> = Vec::new();
    let mut i: usize = 0;
    while i < reserved.len()
        invariant
            i <= reserved.len(),
            entries.len() == i,
            parent_id.deep_view() == tip_behind(tip, reserved.deep_view(), i as int),
            forall|k: int|
                0 <= k < i ==> #[trigger] entries[k].deep_view() == appended(
                    tip,
                    reserved.deep_view(),
                )[k],
        decreases reserved.len() - i,
    {
        entries.push(
            NewEntry::Message(
                NewMessageEntry {
                    id: reserved[i].entry_id.clone(),
                    parent_id,
                    custom_type: None,
                    message: reserved[i].message.clone(),
                    terminate: None,
                },
            ),
        );
        parent_id = Some(reserved[i].entry_id.clone());
        i += 1;
    }
    assert(entries.deep_view() =~= appended(tip, reserved.deep_view())) by {
        assert forall|k: int| 0 <= k < entries.len() implies #[trigger] entries.deep_view()[k]
            == appended(tip, reserved.deep_view())[k] by {
            assert(entries[k].deep_view() == appended(tip, reserved.deep_view())[k]);
        }
    }
    entries
}

/// The first move of a run: what the hook injected is appended, and the run
/// needs an assistant for the last entry.
pub open spec fn run_start(
    lane: Seq<char>,
    operation_id: Seq<char>,
    tip_id: Option<Seq<char>>,
    current: OperationStateView,
    reserved: Seq<ReservedMessageView>,
) -> Result<OperationCommandView<ProcedureResultView>, Seq<char>> {
    let entries = appended(tip_id, reserved);
    match tip_behind(tip_id, reserved, reserved.len() as int) {
        None => Err("Run start has no trigger entry"@),
        Some(trigger_entry_id) => Ok(
            OperationCommandView::Commit {
                writes: insertions(entries) + if entries.len() == 0 {
                    Seq::empty()
                } else {
                    seq![tip_write(lane, Some(trigger_entry_id))]
                },
                operation_state: OperationStateView::Checkpoint {
                    scope: current.scope(),
                    continuation: Continuation::NeedAssistant { overflow_recovery_used: false },
                    trigger_entry_id,
                },
                lane: Some(
                    LanePatchView {
                        tip_id: Some(Some(trigger_entry_id)),
                        configuration: None,
                        inbox: None,
                    },
                ),
                result: ProcedureResultView::Continue,
                events: entry_events(entries, lane, operation_id),
            },
        ),
    }
}

/// Starts a run with the messages that the hook injected.
pub fn start_run(
    lane_name: &String,
    operation_id: &String,
    state: &LaneRuntimeState,
    current: &OperationState,
    reserved: &Vec<ReservedMessage>,
) -> (r: Result<OperationCommand<ProcedureResult>, String>)
    requires
        !current.deep_view().is_deferred(),
    ensures
        match run_start(
            lane_name@,
            operation_id@,
            state.tip_id.deep_view(),
            current.deep_view(),
            reserved.deep_view(),
        ) {
            Ok(command) => r is Ok && r->Ok_0.deep_view() == command,
            Err(message) => r is Err && r->Err_0@ == message,
        },
{
    let entries = append_messages(state.tip_id.clone(), reserved);
    let trigger = if reserved.len() > 0 {
        Some(reserved[reserved.len() - 1].entry_id.clone())
    } else {
        state.tip_id.clone()
    };
    let trigger_entry_id = match trigger {
        Some(trigger) => trigger,
        None => {
            return Err("Run start has no trigger entry".to_string());
        },
    };
    let mut writes = insert_entries(&entries);
    let ghost inserted = writes.deep_view();
    if entries.len() > 0 {
        writes.push(write_tip(lane_name, Some(trigger_entry_id.clone())));
    }
    assert(writes.deep_view() =~= inserted + if entries.deep_view().len() == 0 {
        Seq::empty()
    } else {
        seq![tip_write(lane_name@, Some(trigger_entry_id@))]
    });
    let events = plan_entry_events(&entries, lane_name, operation_id);
    Ok(
        OperationCommand::Commit {
            writes,
            operation_state: OperationState::Checkpoint {
                scope: current.scope().clone(),
                continuation: Continuation::NeedAssistant { overflow_recovery_used: false },
                trigger_entry_id: trigger_entry_id.clone(),
            },
            lane: Some(
                LanePatch { tip_id: Some(Some(trigger_entry_id)), configuration: None, inbox: None },
            ),
            result: ProcedureResult::Continue,
            events,
        },
    )
}

/// A compaction that a checkpoint found due.
#[derive(Debug, PartialEq, Eq)]
pub struct DueCompaction {
    pub task_id: String,
    pub preparation: DurableStructuralPreparation,
}

/// Contents of a [`DueCompaction`].
pub struct DueCompactionView {
    pub task_id: Seq<char>,
    pub preparation: DurableStructuralPreparationView,
}

impl DeepView for DueCompaction {
    type V = DueCompactionView;

    open spec fn deep_view(&self) -> DueCompactionView {
        DueCompactionView {
            task_id: self.task_id.deep_view(),
            preparation: self.preparation.deep_view(),
        }
    }
}

/// The write that stores the preparation of a structural task.
pub open spec fn preparation_write(operation_id: Seq<char>, due: DueCompactionView) -> WriteView {
    WriteView::SetValue {
        address: AddressView::OperationPreparation { operation_id, task_id: due.task_id },
        value: DurableValueView::Preparation(due.preparation),
    }
}

/// Stores the preparation of a structural task.
pub fn write_preparation(
    operation_id: &String,
    task_id: &String,
    preparation: DurableStructuralPreparation,
) -> (r: Write)
    ensures
        r.deep_view() == preparation_write(
            operation_id@,
            DueCompactionView { task_id: task_id@, preparation: preparation.deep_view() },
        ),
{
    Write::SetValue {
        address: Address::OperationPreparation {
            operation_id: operation_id.clone(),
            task_id: task_id.clone(),
        },
        value: DurableValue::Preparation(preparation),
    }
}

/// Whether a checkpoint may end its run.
pub open spec fn may_finish(current: OperationStateView) -> bool {
    current matches OperationStateView::Checkpoint { continuation, .. } && continuation is MayFinish
}

/// What a checkpoint decides on a placement that was made for it.
///
/// Whatever of the inbox can be answered starts a step. Otherwise a due
/// compaction interrupts the run. Otherwise the run takes the step that it
/// needs, or may finish.
pub open spec fn checkpoint_on(
    placement: BoundaryPlacementView,
    lane: Seq<char>,
    operation_id: Seq<char>,
    config: ConfigView,
    default_delay_ms: u64,
    step_id: Seq<char>,
    state: LaneRuntimeStateView,
    current: OperationStateView,
    due: Option<DueCompactionView>,
) -> Result<OperationCommandView<CheckpointPlannedView>, Seq<char>> {
    let patch = Some(
        LanePatchView {
            tip_id: Some(placement.tip_id),
            configuration: None,
            inbox: Some(placement.inbox),
        },
    );
    let go_on = CheckpointPlannedView::Procedure(ProcedureResultView::Continue);
    let events = placement_events(placement, lane, operation_id);
    if let Some(trigger) = placement.trigger_entry_id {
        Ok(
            OperationCommandView::Commit {
                writes: placement.writes,
                operation_state: ready_at_boundary(
                    config,
                    default_delay_ms,
                    step_id,
                    state,
                    current.scope(),
                    trigger,
                    false,
                ),
                lane: patch,
                result: go_on,
                events,
            },
        )
    } else if let Some(due) = due {
        match current {
            OperationStateView::Checkpoint { continuation, trigger_entry_id, .. } => Ok(
                OperationCommandView::Commit {
                    writes: placement.writes.push(preparation_write(operation_id, due)),
                    operation_state: OperationStateView::SummaryDeciding {
                        scope: current.scope(),
                        task: SummaryTaskView {
                            task_id: due.task_id,
                            reason: Some("threshold"@),
                            custom_instructions: None,
                            boundary: ResultBoundaryView::ResumeCheckpoint {
                                resume_after: CheckpointDataView {
                                    continuation,
                                    trigger_entry_id,
                                },
                            },
                        },
                    },
                    lane: patch,
                    result: go_on,
                    events: events.push(
                        PlannedEventView::CompactionStarted {
                            lane,
                            run_id: operation_id,
                            reason: "threshold"@,
                        },
                    ),
                },
            ),
            _ => Err("Checkpoint threshold requires a checkpoint state"@),
        }
    } else {
        match current {
            OperationStateView::Checkpoint {
                continuation: Continuation::NeedAssistant { overflow_recovery_used },
                trigger_entry_id,
                ..
            } => Ok(
                OperationCommandView::Commit {
                    writes: placement.writes,
                    operation_state: ready_at_boundary(
                        config,
                        default_delay_ms,
                        step_id,
                        state,
                        current.scope(),
                        trigger_entry_id,
                        overflow_recovery_used,
                    ),
                    lane: patch,
                    result: go_on,
                    events,
                },
            ),
            _ => Ok(
                OperationCommandView::Return {
                    result: CheckpointPlannedView::FinishPending(
                        BoundaryFinishPendingView { entry_ids: entry_ids(placement.entries) },
                    ),
                },
            ),
        }
    }
}

/// What a checkpoint decides, from the inbox on. Follow-ups count only where
/// the run may finish and no compaction is due.
pub open spec fn checkpoint_decision(
    lane: Seq<char>,
    operation_id: Seq<char>,
    config: ConfigView,
    default_delay_ms: u64,
    step_id: Seq<char>,
    state: LaneRuntimeStateView,
    current: OperationStateView,
    rows: Seq<PendingRowView>,
    due: Option<DueCompactionView>,
) -> Result<OperationCommandView<CheckpointPlannedView>, Seq<char>> {
    match boundary_plan(
        config.entry_projectors,
        lane,
        state.inbox,
        current.scope(),
        rows,
        state.tip_id,
        due is None && may_finish(current),
    ) {
        Err(message) => Err(message),
        Ok(placement) => checkpoint_on(
            placement,
            lane,
            operation_id,
            config,
            default_delay_ms,
            step_id,
            state,
            current,
            due,
        ),
    }
}

/// Decides what a checkpoint does on a placement that was made for it.
pub fn decide_checkpoint(
    placement: BoundaryPlacement,
    lane_name: &String,
    operation_id: &String,
    config: &Config,
    default_delay_ms: u64,
    step_id: String,
    state: &LaneRuntimeState,
    current: &OperationState,
    due: Option<DueCompaction>,
) -> (r: Result<OperationCommand<CheckpointPlanned>, String>)
    requires
        !current.deep_view().is_deferred(),
        countable(config.retry_policy),
    ensures
        match checkpoint_on(
            placement.deep_view(),
            lane_name@,
            operation_id@,
            config.deep_view(),
            default_delay_ms,
            step_id@,
            state.deep_view(),
            current.deep_view(),
            due.deep_view(),
        ) {
            Ok(command) => r is Ok && r->Ok_0.deep_view() == command,
            Err(message) => r is Err && r->Err_0@ == message,
        },
{
    let mut events = plan_placement_events(&placement, lane_name, operation_id);
    let ghost planned = events.deep_view();
    if let Some(trigger) = placement.trigger_entry_id {
        let next = assistant_ready_at_boundary(
            config,
            default_delay_ms,
            step_id,
            state,
            current.scope().clone(),
            trigger,
            false,
        );
        return Ok(
            OperationCommand::Commit {
                writes: placement.writes,
                operation_state: next,
                lane: Some(
                    LanePatch {
                        tip_id: Some(placement.tip_id),
                        configuration: None,
                        inbox: Some(placement.inbox),
                    },
                ),
                result: CheckpointPlanned::Procedure(ProcedureResult::Continue),
                events,
            },
        );
    }
    if let Some(due) = due {
        return match current {
            OperationState::Checkpoint { scope, continuation, trigger_entry_id } => {
                let structural = OperationState::SummaryDeciding {
                    scope: scope.clone(),
                    task: SummaryTask {
                        task_id: due.task_id.clone(),
                        reason: Some("threshold".to_string()),
                        custom_instructions: None,
                        boundary: ResultBoundary::ResumeCheckpoint {
                            resume_after: CheckpointData {
                                continuation: *continuation,
                                trigger_entry_id: trigger_entry_id.clone(),
                            },
                        },
                    },
                };
                let ghost due_view = due.deep_view();
                let mut writes = placement.writes;
                let ghost placed = writes.deep_view();
                writes.push(write_preparation(operation_id, &due.task_id, due.preparation));
                assert(writes.deep_view() =~= placed.push(
                    preparation_write(operation_id@, due_view),
                ));
                let started = PlannedEvent::CompactionStarted {
                    lane: lane_name.clone(),
                    run_id: operation_id.clone(),
                    reason: "threshold".to_string(),
                };
                events.push(started);
                assert(events.deep_view() =~= planned.push(started.deep_view()));
                Ok(
                    OperationCommand::Commit {
                        writes,
                        operation_state: structural,
                        lane: Some(
                            LanePatch {
                                tip_id: Some(placement.tip_id),
                                configuration: None,
                                inbox: Some(placement.inbox),
                            },
                        ),
                        result: CheckpointPlanned::Procedure(ProcedureResult::Continue),
                        events,
                    },
                )
            },
            _ => Err("Checkpoint threshold requires a checkpoint state".to_string()),
        };
    }
    match current {
        OperationState::Checkpoint {
            continuation: Continuation::NeedAssistant { overflow_recovery_used },
            trigger_entry_id,
            ..
        } => {
            let next = assistant_ready_at_boundary(
                config,
                default_delay_ms,
                step_id,
                state,
                current.scope().clone(),
                trigger_entry_id.clone(),
                *overflow_recovery_used,
            );
            Ok(
                OperationCommand::Commit {
                    writes: placement.writes,
                    operation_state: next,
                    lane: Some(
                        LanePatch {
                            tip_id: Some(placement.tip_id),
                            configuration: None,
                            inbox: Some(placement.inbox),
                        },
                    ),
                    result: CheckpointPlanned::Procedure(ProcedureResult::Continue),
                    events,
                },
            )
        },
        _ => Ok(
            OperationCommand::Return {
                result: CheckpointPlanned::FinishPending(
                    BoundaryFinishPending { entry_ids: ids_of_entries(&placement.entries) },
                ),
            },
        ),
    }
}

/// Decides what a checkpoint does, by at most one commit.
pub fn run_checkpoint(
    lane_name: &String,
    operation_id: &String,
    config: &Config,
    default_delay_ms: u64,
    step_id: String,
    state: &LaneRuntimeState,
    current: &OperationState,
    rows: &Vec<PendingRow>,
    due: Option<DueCompaction>,
) -> (r: Result<OperationCommand<CheckpointPlanned>, String>)
    requires
        !current.deep_view().is_deferred(),
        countable(config.retry_policy),
    ensures
        match checkpoint_decision(
            lane_name@,
            operation_id@,
            config.deep_view(),
            default_delay_ms,
            step_id@,
            state.deep_view(),
            current.deep_view(),
            rows.deep_view(),
            due.deep_view(),
        ) {
            Ok(command) => r is Ok && r->Ok_0.deep_view() == command,
            Err(message) => r is Err && r->Err_0@ == message,
        },
{
    let finishing = match current {
        OperationState::Checkpoint { continuation: Continuation::MayFinish { .. }, .. } => true,
        _ => false,
    };
    match plan_boundary_inbox(
        config,
        lane_name,
        state,
        current.scope(),
        rows,
        state.tip_id.clone(),
        due.is_none() && finishing,
    ) {
        Err(message) => Err(message),
        Ok(placement) => decide_checkpoint(
            placement,
            lane_name,
            operation_id,
            config,
            default_delay_ms,
            step_id,
            state,
            current,
            due,
        ),
    }
}

/// What a run does after its checkpoint.
pub fn continuation_of(run: &OperationState) -> (r: Continuation)
    ensures
        r == (match run.deep_view() {
            OperationStateView::Checkpoint { continuation, .. } => continuation,
            _ => Continuation::NeedAssistant { overflow_recovery_used: false },
        }),
{
    match run {
        OperationState::Checkpoint { continuation, .. } => *continuation,
        _ => Continuation::NeedAssistant { overflow_recovery_used: false },
    }
}

/// The continuation of a run that is about to finish, which must allow it.
pub fn finish_continuation(run: &OperationState) -> (r: Result<Continuation, String>)
    ensures
        r is Ok <==> may_finish(run.deep_view()),
        r is Ok ==> (run.deep_view() matches OperationStateView::Checkpoint { continuation, .. }
            && r->Ok_0 == continuation),
        r is Err ==> r->Err_0@
            == "Checkpoint finish mediation requires a finish continuation"@,
{
    match continuation_of(run) {
        Continuation::MayFinish { include_final_assistant } => Ok(
            Continuation::MayFinish { include_final_assistant },
        ),
        _ => Err("Checkpoint finish mediation requires a finish continuation".to_string()),
    }
}

/// The start of a run keeps the lane in step with storage.
pub proof fn law_starting_keeps_step(
    store: Map<AddressView, DurableValueView>,
    lane: Seq<char>,
    state: LaneRuntimeStateView,
    reserved: Seq<ReservedMessageView>,
)
    requires
        in_step(store, lane, state),
        state.operation matches Some(operation) && operation.meta.intent is Run
            && !operation.state.is_deferred(),
    ensures
        ({
            let operation = state.operation->Some_0;
            run_start(
                lane,
                operation.meta.operation_id,
                state.tip_id,
                operation.state,
                reserved,
            ) matches Ok(command) ==> safe_decision(store, lane, state, command) && keeps_step(
                store,
                lane,
                settled(lane, state, command),
            )
        }),
{
    let operation = state.operation->Some_0;
    let operation_id = operation.meta.operation_id;
    let entries = appended(state.tip_id, reserved);
    let start = run_start(lane, operation_id, state.tip_id, operation.state, reserved);
    if let Ok(command) = start {
        let trigger = tip_behind(state.tip_id, reserved, reserved.len() as int);
        let inserted = insertions(entries);
        let writes = match command {
            OperationCommandView::Commit { writes, .. } => writes,
            _ => Seq::empty(),
        };
        assert(spares(inserted, AddressView::BranchTip { lane }));
        assert(spares(writes, AddressView::LaneConfig { lane }));
        assert(spares(writes, AddressView::LaneState { lane }));
        assert(spares(writes, AddressView::OperationMeta { operation_id }));
        lemma_spared(store, inserted, AddressView::BranchTip { lane });
        lemma_spared(store, writes, AddressView::LaneConfig { lane });
        if entries.len() > 0 {
            assert(writes =~= inserted.push(tip_write(lane, trigger)));
            lemma_committed_push(store, inserted, tip_write(lane, trigger));
        } else {
            assert(writes =~= inserted);
        }
        law_settling_keeps_step(store, lane, state, command);
    }
}

/// A checkpoint keeps the lane in step with storage.
pub proof fn law_checkpoint_keeps_step(
    store: Map<AddressView, DurableValueView>,
    lane: Seq<char>,
    config: ConfigView,
    default_delay_ms: u64,
    step_id: Seq<char>,
    state: LaneRuntimeStateView,
    rows: Seq<PendingRowView>,
    due: Option<DueCompactionView>,
)
    requires
        in_step(store, lane, state),
        state.operation matches Some(operation) && operation.meta.intent is Run
            && !operation.state.is_deferred(),
    ensures
        ({
            let operation = state.operation->Some_0;
            checkpoint_decision(
                lane,
                operation.meta.operation_id,
                config,
                default_delay_ms,
                step_id,
                state,
                operation.state,
                rows,
                due,
            ) matches Ok(command) ==> safe_decision(store, lane, state, command) && keeps_step(
                store,
                lane,
                settled(lane, state, command),
            )
        }),
{
    let operation = state.operation->Some_0;
    let operation_id = operation.meta.operation_id;
    let follow = due is None && may_finish(operation.state);
    let plan = boundary_plan(
        config.entry_projectors,
        lane,
        state.inbox,
        operation.state.scope(),
        rows,
        state.tip_id,
        follow,
    );
    let decision = checkpoint_decision(
        lane,
        operation_id,
        config,
        default_delay_ms,
        step_id,
        state,
        operation.state,
        rows,
        due,
    );
    if let Ok(placement) = plan {
        lemma_placement_writes(
            store,
            config.entry_projectors,
            lane,
            state.inbox,
            operation.state.scope(),
            rows,
            state.tip_id,
            follow,
            placement,
        );
        assert(spares(placement.writes, AddressView::LaneConfig { lane }));
        assert(spares(placement.writes, AddressView::LaneState { lane }));
        assert(spares(placement.writes, AddressView::OperationMeta { operation_id }));
        lemma_spared(store, placement.writes, AddressView::LaneConfig { lane });
        if due is Some {
            lemma_committed_push(
                store,
                placement.writes,
                preparation_write(operation_id, due->Some_0),
            );
        }
        if let Ok(command) = decision {
            law_settling_keeps_step(store, lane, state, command);
        }
    }
}

} // verus!
