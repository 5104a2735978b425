//! The commits that put an accepted operation on its lane.

use crate::command::{LaneCommand, LaneCommandView};
use crate::drive::boundary::{
    delete_payloads, insert_entries, insertions, payload_deletions, tip_write, write_tip,
};
use crate::drive::checkpoint::{
    preparation_write, write_preparation, DueCompactionView, ReservedMessage, ReservedMessageView,
};
use crate::drive::finish::{entry_events, plan_entry_events};
use crate::drive::structural::{
    durable_branch_preparation, durable_compaction_preparation, find_on_path, place_on_path,
    stored_branch, stored_compaction, BranchPreparation, CompactionPreparation,
};
use crate::durable::{
    committed, holds, in_step, lemma_committed_concat, lemma_committed_push, lemma_spared, spares,
};
use crate::inbox::{lane_queues, read_lane_queues};
use crate::lane::accept::{
    any_conversation, captured_entries, chain_new_entries, chained, fresh_scope, invalid_message,
    lane_busy, prompt_entries, prompt_ids, refuse_message, select_accepted_inbox, split_inbox,
    Answer, AnswerView,
};
use crate::lane::settle::{
    durable_lane_state, keeps_step, lane_state_write, operation_state_write, write_lane_state,
    write_operation_state,
};
use crate::model::event::{
    HarnessEvent, HarnessEventView, LaneQueuedItem, LaneQueuedItemView, PlannedEvent,
    PlannedEventView,
};
use crate::model::session::{
    DurableLaneStateView, DurableStructuralPreparationView, InboxItem, InboxItemView, Operation,
    OperationIntent, OperationIntentView, OperationMeta, OperationMetaView, OperationState,
    OperationStateView, OperationView, ResultBoundary, ResultBoundaryView, SummaryTask,
    SummaryTaskView,
};
use crate::model::storage::{
    Address, AddressView, DurableValue, DurableValueView, Entry, EntryView, NewEntry, NewEntryView,
    Write, WriteView,
};
use crate::restore::matches_intent;
use crate::text::{debug_text, join, same_text};
use crate::transcript::append_all;
use crate::types::{
    Config, ConfigView, HarnessError, HarnessErrorView, LaneRuntimeState, LaneRuntimeStateView,
    OperationAdmission, OperationAdmissionView, PendingRow, PendingRowView,
};
use vstd::prelude::*;

verus! {

/// The write that records the metadata of an operation.
pub open spec fn meta_write(meta: OperationMetaView) -> WriteView {
    WriteView::SetValue {
        address: AddressView::OperationMeta { operation_id: meta.operation_id },
        value: DurableValueView::Meta(meta),
    }
}

/// The writes that put an operation on a lane: its metadata, its first leaf and
/// the lane's record.
pub open spec fn operation_writes(
    lane: Seq<char>,
    meta: OperationMetaView,
    operation_state: OperationStateView,
    inbox: Seq<InboxItemView>,
    last_operation_id: Option<Seq<char>>,
) -> Seq<WriteView> {
    seq![
        meta_write(meta),
        operation_state_write(meta.operation_id, operation_state),
        lane_state_write(
            lane,
            DurableLaneStateView {
                current_operation_id: Some(meta.operation_id),
                last_operation_id,
                inbox,
            },
        ),
    ]
}

fn write_operation(
    lane_name: &String,
    meta: &OperationMeta,
    operation_state: &OperationState,
    inbox: &Vec<InboxItem>,
    last_operation_id: &Option<String>,
) -> (r: Vec<Write>)
    ensures
        r.deep_view() == operation_writes(
            lane_name@,
            meta.deep_view(),
            operation_state.deep_view(),
            inbox.deep_view(),
            last_operation_id.deep_view(),
        ),
{
    let record = durable_lane_state(
        Some(meta.operation_id.clone()),
        inbox.clone(),
        last_operation_id.clone(),
    );
    let writes = vec![
        Write::SetValue {
            address: Address::OperationMeta { operation_id: meta.operation_id.clone() },
            value: DurableValue::Meta(meta.clone()),
        },
        write_operation_state(&meta.operation_id, operation_state.clone()),
        write_lane_state(lane_name, record),
    ];
    assert(writes.deep_view() =~= operation_writes(
        lane_name@,
        meta.deep_view(),
        operation_state.deep_view(),
        inbox.deep_view(),
        last_operation_id.deep_view(),
    ));
    writes
}

/// The admission of an operation.
pub open spec fn admission(
    operation_id: Seq<char>,
    kind: Seq<char>,
    started_at: u64,
) -> OperationAdmissionView {
    OperationAdmissionView { operation_id, kind, started_at }
}

/// The commit that accepts a run.
///
/// What it takes from the inbox and then its prompt enter the transcript in one
/// chain. Neither may be missing, unless the inbox has something to answer.
pub open spec fn run_acceptance(
    lane: Seq<char>,
    operation_id: Seq<char>,
    started_at: u64,
    config: ConfigView,
    state: LaneRuntimeStateView,
    rows: Seq<PendingRowView>,
    prompt: Seq<ReservedMessageView>,
) -> Result<LaneCommandView<AnswerView<OperationAdmissionView>>, Seq<char>> {
    let n = state.inbox.len();
    let selected = split_inbox(state.inbox, config.steering_mode, config.follow_up_mode, true, n);
    let inbox = split_inbox(state.inbox, config.steering_mode, config.follow_up_mode, false, n);
    if let Some(operation) = state.operation {
        Ok(
            LaneCommandView::Return {
                result: AnswerView::Refused { error: lane_busy(lane, operation) },
            },
        )
    } else {
        match captured_entries(rows, selected) {
            Err(message) => Err(message),
            Ok(taken) => if prompt.len() == 0 && !any_conversation(selected) {
                Ok(
                    LaneCommandView::Return {
                        result: AnswerView::Refused {
                            error: invalid_message(
                                lane,
                                "empty"@,
                                "Acceptance must append at least one message"@,
                            ),
                        },
                    },
                )
            } else {
                match lane_queues(rows, inbox) {
                    Err(message) => Err(message),
                    Ok(queues) => Ok(
                        accepted_run(
                            lane,
                            operation_id,
                            started_at,
                            config,
                            state,
                            chained(state.tip_id, taken + prompt_entries(prompt)),
                            selected,
                            inbox,
                            queues,
                            prompt_ids(prompt),
                        ),
                    ),
                }
            },
        }
    }
}

/// The metadata of a run.
pub open spec fn run_meta(
    lane: Seq<char>,
    operation_id: Seq<char>,
    started_at: u64,
    source_tip_id: Option<Seq<char>>,
    prompt_entry_ids: Seq<Seq<char>>,
) -> OperationMetaView {
    OperationMetaView {
        operation_id,
        lane,
        intent: OperationIntentView::Run { prompt_entry_ids },
        source_tip_id,
        started_at,
    }
}

/// The commit of an accepted run.
pub open spec fn accepted_run(
    lane: Seq<char>,
    operation_id: Seq<char>,
    started_at: u64,
    config: ConfigView,
    state: LaneRuntimeStateView,
    entries: Seq<NewEntryView>,
    selected: Seq<InboxItemView>,
    inbox: Seq<InboxItemView>,
    queues: Seq<LaneQueuedItemView>,
    prompt_entry_ids: Seq<Seq<char>>,
) -> LaneCommandView<AnswerView<OperationAdmissionView>> {
    let meta = run_meta(lane, operation_id, started_at, state.tip_id, prompt_entry_ids);
    let operation_state = OperationStateView::Starting { scope: fresh_scope(config) };
    let tip_id = if entries.len() == 0 {
        None
    } else {
        Some(entries.last().id())
    };
    LaneCommandView::Commit {
        writes: insertions(entries) + payload_deletions(selected) + (if entries.len() == 0 {
            Seq::empty()
        } else {
            seq![tip_write(lane, tip_id)]
        }) + operation_writes(lane, meta, operation_state, inbox, state.last_operation_id),
        next: LaneRuntimeStateView {
            tip_id,
            inbox,
            operation: Some(OperationView { meta, state: operation_state }),
            ..state
        },
        result: AnswerView::Granted { value: admission(operation_id, "run"@, started_at) },
        events: seq![
            PlannedEventView::Ready(
                HarnessEventView::RunStart {
                    lane,
                    run_id: operation_id,
                    started_at,
                    recovery: None,
                },
            ),
        ] + entry_events(entries, lane, operation_id) + if selected.len() == 0 {
            Seq::empty()
        } else {
            seq![
                PlannedEventView::Ready(
                    HarnessEventView::QueueUpdate { lane, queues, recovery: None },
                ),
            ]
        },
    }
}

fn commit_run(
    lane_name: &String,
    operation_id: &String,
    started_at: u64,
    config: &Config,
    state: LaneRuntimeState,
    entries: Vec<NewEntry>,
    selected: Vec<InboxItem>,
    inbox: Vec<InboxItem>,
    queues: Vec<LaneQueuedItem>,
    prompt_entry_ids: Vec<String>,
) -> (r: LaneCommand<Answer<OperationAdmission>>)
    ensures
        r.deep_view() == accepted_run(
            lane_name@,
            operation_id@,
            started_at,
            config.deep_view(),
            state.deep_view(),
            entries.deep_view(),
            selected.deep_view(),
            inbox.deep_view(),
            queues.deep_view(),
            prompt_entry_ids.deep_view(),
        ),
{
    let ghost lane = lane_name@;
    let ghost op = operation_id@;
    let ghost entries_view = entries.deep_view();
    let ghost selected_view = selected.deep_view();
    let ghost queues_view = queues.deep_view();
    let tip_id = if entries.len() > 0 {
        Some(entries[entries.len() - 1].id().clone())
    } else {
        None
    };
    let ghost tip = tip_id.deep_view();
    let meta = OperationMeta {
        operation_id: operation_id.clone(),
        lane: lane_name.clone(),
        intent: OperationIntent::Run { prompt_entry_ids },
        source_tip_id: state.tip_id.clone(),
        started_at,
    };
    let operation_state = OperationState::Starting {
        scope: crate::model::session::OperationScope {
            control: crate::model::session::Control::Running,
            settings: crate::lane::accept::captured_settings(config),
            latest_assistant_entry_id: None,
        },
    };
    let mut writes = insert_entries(&entries);
    append_all(&mut writes, delete_payloads(&selected));
    let ghost moved = writes.deep_view();
    if entries.len() > 0 {
        writes.push(write_tip(lane_name, tip_id.clone()));
    }
    assert(writes.deep_view() =~= moved + if entries_view.len() == 0 {
        Seq::empty()
    } else {
        seq![tip_write(lane, tip)]
    });
    append_all(
        &mut writes,
        write_operation(lane_name, &meta, &operation_state, &inbox, &state.last_operation_id),
    );
    let start = PlannedEvent::Ready(
        HarnessEvent::RunStart {
            lane: lane_name.clone(),
            run_id: operation_id.clone(),
            started_at,
            recovery: None,
        },
    );
    let ghost start_view = start.deep_view();
    let mut events = vec![start];
    assert(events.deep_view() =~= seq![start_view]);
    append_all(&mut events, plan_entry_events(&entries, lane_name, operation_id));
    let ghost planned = events.deep_view();
    if selected.len() > 0 {
        events.push(
            PlannedEvent::Ready(
                HarnessEvent::QueueUpdate { lane: lane_name.clone(), queues, recovery: None },
            ),
        );
    }
    assert(events.deep_view() =~= planned + if selected_view.len() == 0 {
        Seq::empty()
    } else {
        seq![
            PlannedEventView::Ready(
                HarnessEventView::QueueUpdate { lane, queues: queues_view, recovery: None },
            ),
        ]
    });
    LaneCommand::Commit {
        writes,
        next: LaneRuntimeState {
            tip_id,
            configuration: state.configuration,
            inbox,
            last_operation_id: state.last_operation_id,
            operation: Some(Operation { meta, state: operation_state }),
        },
        result: Answer::Granted {
            value: OperationAdmission {
                operation_id: operation_id.clone(),
                kind: "run".to_string(),
                started_at,
            },
        },
        events,
    }
}

/// Accepts a run on a lane. The error is that of an inbox whose payloads cannot
/// be used; a refusal is an answer.
pub fn accept_run(
    lane_name: &String,
    operation_id: &String,
    started_at: u64,
    config: &Config,
    state: LaneRuntimeState,
    rows: &Vec<PendingRow>,
    prompt: &Vec<ReservedMessage>,
) -> (r: Result<LaneCommand<Answer<OperationAdmission>>, String>)
    ensures
        match run_acceptance(
            lane_name@,
            operation_id@,
            started_at,
            config.deep_view(),
            state.deep_view(),
            rows.deep_view(),
            prompt.deep_view(),
        ) {
            Ok(command) => r is Ok && r->Ok_0.deep_view() == command,
            Err(message) => r is Err && r->Err_0@ == message,
        },
{
    if let Some(operation) = &state.operation {
        return Ok(
            LaneCommand::Return {
                result: Answer::Refused { error: crate::lane::accept::busy(lane_name, operation) },
            },
        );
    }
    let (selected, inbox) = select_accepted_inbox(
        &state.inbox,
        config.steering_mode,
        config.follow_up_mode,
    );
    let mut entries = match crate::lane::accept::capture_entries(rows, &selected) {
        Ok(entries) => entries,
        Err(message) => {
            return Err(message);
        },
    };
    if prompt.len() == 0 && !crate::lane::accept::has_conversation(&selected) {
        return Ok(
            LaneCommand::Return {
                result: Answer::Refused {
                    error: refuse_message(
                        lane_name,
                        "empty",
                        "Acceptance must append at least one message",
                    ),
                },
            },
        );
    }
    let queues = match read_lane_queues(rows, &inbox) {
        Ok(queues) => queues,
        Err(message) => {
            return Err(message);
        },
    };
    let (prompted, prompt_entry_ids) = crate::lane::accept::enter_prompt(prompt);
    append_all(&mut entries, prompted);
    let chain = chain_new_entries(state.tip_id.clone(), entries);
    Ok(
        commit_run(
            lane_name,
            operation_id,
            started_at,
            config,
            state,
            chain,
            selected,
            inbox,
            queues,
            prompt_entry_ids,
        ),
    )
}

/// The commit that puts a structural or navigational operation on a lane.
pub open spec fn placed_operation<T>(
    lane: Seq<char>,
    state: LaneRuntimeStateView,
    meta: OperationMetaView,
    operation_state: OperationStateView,
    before: Seq<WriteView>,
    result: T,
    event: HarnessEventView,
) -> LaneCommandView<T> {
    LaneCommandView::Commit {
        writes: before + operation_writes(
            lane,
            meta,
            operation_state,
            state.inbox,
            state.last_operation_id,
        ),
        next: LaneRuntimeStateView {
            operation: Some(OperationView { meta, state: operation_state }),
            ..state
        },
        result,
        events: seq![PlannedEventView::Ready(event)],
    }
}

fn place_operation<T: DeepView>(
    lane_name: &String,
    state: LaneRuntimeState,
    meta: OperationMeta,
    operation_state: OperationState,
    before: Vec<Write>,
    result: T,
    event: HarnessEvent,
) -> (r: LaneCommand<T>)
    ensures
        r.deep_view() == placed_operation(
            lane_name@,
            state.deep_view(),
            meta.deep_view(),
            operation_state.deep_view(),
            before.deep_view(),
            result.deep_view(),
            event.deep_view(),
        ),
{
    let mut writes = before;
    append_all(
        &mut writes,
        write_operation(
            lane_name,
            &meta,
            &operation_state,
            &state.inbox,
            &state.last_operation_id,
        ),
    );
    let ghost event_view = event.deep_view();
    let events = vec![PlannedEvent::Ready(event)];
    assert(events.deep_view() =~= seq![PlannedEventView::Ready(event_view)]);
    LaneCommand::Commit {
        writes,
        next: LaneRuntimeState {
            tip_id: state.tip_id,
            configuration: state.configuration,
            inbox: state.inbox,
            last_operation_id: state.last_operation_id,
            operation: Some(Operation { meta, state: operation_state }),
        },
        result,
        events,
    }
}

/// The task of a compaction that was asked for.
pub open spec fn manual_task(
    task_id: Seq<char>,
    custom_instructions: Option<Seq<char>>,
) -> SummaryTaskView {
    SummaryTaskView {
        task_id,
        reason: Some("manual"@),
        custom_instructions,
        boundary: ResultBoundaryView::Finish,
    }
}

/// The commit that accepts a compaction, whose preparation is stored with it.
pub open spec fn compaction_acceptance(
    lane: Seq<char>,
    operation_id: Seq<char>,
    task_id: Seq<char>,
    started_at: u64,
    config: ConfigView,
    state: LaneRuntimeStateView,
    custom_instructions: Option<Seq<char>>,
    preparation: Option<DurableStructuralPreparationView>,
) -> LaneCommandView<AnswerView<OperationAdmissionView>> {
    if let Some(operation) = state.operation {
        LaneCommandView::Return {
            result: AnswerView::Refused { error: lane_busy(lane, operation) },
        }
    } else {
        match preparation {
            None => LaneCommandView::Return {
                result: AnswerView::Refused {
                    error: HarnessErrorView::NothingToCompact {
                        lane,
                        message: "Lane "@ + debug_text(lane) + " has nothing to compact"@,
                    },
                },
            },
            Some(preparation) => placed_operation(
                lane,
                state,
                OperationMetaView {
                    operation_id,
                    lane,
                    intent: OperationIntentView::Compaction { custom_instructions },
                    source_tip_id: state.tip_id,
                    started_at,
                },
                OperationStateView::SummaryDeciding {
                    scope: fresh_scope(config),
                    task: manual_task(task_id, custom_instructions),
                },
                seq![preparation_write(operation_id, DueCompactionView { task_id, preparation })],
                AnswerView::Granted { value: admission(operation_id, "compaction"@, started_at) },
                HarnessEventView::CompactionStart {
                    lane,
                    run_id: operation_id,
                    reason: "manual"@,
                    started_at,
                    recovery: None,
                },
            ),
        }
    }
}

/// Accepts a compaction on a lane. `prepared` is what the compaction would be
/// made from.
pub fn accept_compaction(
    lane_name: &String,
    operation_id: &String,
    task_id: &String,
    started_at: u64,
    config: &Config,
    state: LaneRuntimeState,
    custom_instructions: &Option<String>,
    prepared: &Option<CompactionPreparation>,
) -> (r: LaneCommand<Answer<OperationAdmission>>)
    requires
        prepared matches Some(preparation) ==> preparation.file_ops.wf(),
    ensures
        r.deep_view() == compaction_acceptance(
            lane_name@,
            operation_id@,
            task_id@,
            started_at,
            config.deep_view(),
            state.deep_view(),
            custom_instructions.deep_view(),
            match *prepared {
                Some(preparation) => Some(stored_compaction(preparation)),
                None => None,
            },
        ),
{
    if let Some(operation) = &state.operation {
        return LaneCommand::Return {
            result: Answer::Refused { error: crate::lane::accept::busy(lane_name, operation) },
        };
    }
    let durable = match prepared {
        Some(prepared) => Some(durable_compaction_preparation(prepared)),
        None => None,
    };
    match durable {
        None => {
            LaneCommand::Return {
                result: Answer::Refused {
                    error: HarnessError::NothingToCompact {
                        lane: lane_name.clone(),
                        message: crate::lane::accept::about_lane(
                            lane_name,
                            " has nothing to compact",
                        ),
                    },
                },
            }
        },
        Some(preparation) => {
            let meta = OperationMeta {
                operation_id: operation_id.clone(),
                lane: lane_name.clone(),
                intent: OperationIntent::Compaction {
                    custom_instructions: custom_instructions.clone(),
                },
                source_tip_id: state.tip_id.clone(),
                started_at,
            };
            let operation_state = OperationState::SummaryDeciding {
                scope: crate::lane::accept::new_scope(config),
                task: SummaryTask {
                    task_id: task_id.clone(),
                    reason: Some("manual".to_string()),
                    custom_instructions: custom_instructions.clone(),
                    boundary: ResultBoundary::Finish,
                },
            };
            let ghost stored = preparation.deep_view();
            let before = vec![write_preparation(operation_id, task_id, preparation)];
            assert(before.deep_view() =~= seq![
                preparation_write(
                    operation_id@,
                    DueCompactionView { task_id: task_id@, preparation: stored },
                ),
            ]);
            place_operation(
                lane_name,
                state,
                meta,
                operation_state,
                before,
                Answer::Granted {
                    value: OperationAdmission {
                        operation_id: operation_id.clone(),
                        kind: "compaction".to_string(),
                        started_at,
                    },
                },
                HarnessEvent::CompactionStart {
                    lane: lane_name.clone(),
                    run_id: operation_id.clone(),
                    reason: "manual".to_string(),
                    started_at,
                    recovery: None,
                },
            )
        },
    }
}

/// The refusal of a navigation.
pub open spec fn invalid_navigation(
    lane: Seq<char>,
    reason: Seq<char>,
    message: Seq<char>,
) -> HarnessErrorView {
    HarnessErrorView::InvalidNavigation { lane, reason, message }
}

fn refuse_navigation(lane_name: &String, reason: &str, message: &str) -> (r: HarnessError)
    ensures
        r.deep_view() == invalid_navigation(lane_name@, reason@, message@),
{
    HarnessError::InvalidNavigation {
        lane: lane_name.clone(),
        reason: reason.to_string(),
        message: message.to_string(),
    }
}

/// Why a navigation is refused, by the first rule that it breaks.
pub open spec fn navigation_refusal(
    lane: Seq<char>,
    tip_id: Option<Seq<char>>,
    target_id: Option<Seq<char>>,
    summarize: bool,
    label: Option<Seq<char>>,
    target_exists: bool,
) -> Option<HarnessErrorView> {
    if target_id == tip_id {
        Some(
            invalid_navigation(
                lane,
                "current_tip"@,
                "Navigation target must differ from the current tip"@,
            ),
        )
    } else if target_id is None && label is Some {
        Some(
            invalid_navigation(lane, "root_label"@, "Root navigation cannot set a label"@),
        )
    } else if summarize && (tip_id is None || target_id is None) {
        Some(
            invalid_navigation(
                lane,
                if tip_id is None {
                    "source_root"@
                } else {
                    "target_root"@
                },
                "Summarized navigation requires non-root source and target entries"@,
            ),
        )
    } else if target_id is Some && !target_exists {
        Some(
            HarnessErrorView::UnknownTarget {
                target_id: target_id->Some_0,
                message: "Unknown target: "@ + target_id->Some_0,
            },
        )
    } else {
        None
    }
}

fn check_navigation(
    lane_name: &String,
    tip_id: &Option<String>,
    target_id: &Option<String>,
    summarize: bool,
    label: &Option<String>,
    target_exists: bool,
) -> (r: Option<HarnessError>)
    ensures
        r.deep_view() == navigation_refusal(
            lane_name@,
            tip_id.deep_view(),
            target_id.deep_view(),
            summarize,
            label.deep_view(),
            target_exists,
        ),
{
    if same_text(target_id, tip_id) {
        return Some(
            refuse_navigation(
                lane_name,
                "current_tip",
                "Navigation target must differ from the current tip",
            ),
        );
    }
    if target_id.is_none() && label.is_some() {
        return Some(
            refuse_navigation(lane_name, "root_label", "Root navigation cannot set a label"),
        );
    }
    if summarize && (tip_id.is_none() || target_id.is_none()) {
        let reason: &str = if tip_id.is_none() {
            "source_root"
        } else {
            "target_root"
        };
        return Some(
            refuse_navigation(
                lane_name,
                reason,
                "Summarized navigation requires non-root source and target entries",
            ),
        );
    }
    if let Some(target) = target_id {
        if !target_exists {
            return Some(
                HarnessError::UnknownTarget {
                    target_id: target.clone(),
                    message: join("Unknown target: ".to_string(), target.as_str()),
                },
            );
        }
    }
    None
}

/// The task that summarizes the branch a navigation leaves.
pub open spec fn navigation_task(
    task_id: Seq<char>,
    target_id: Seq<char>,
    label: Option<Seq<char>>,
    custom_instructions: Option<Seq<char>>,
) -> SummaryTaskView {
    SummaryTaskView {
        task_id,
        reason: None,
        custom_instructions,
        boundary: ResultBoundaryView::CommitNavigation { target_id, label },
    }
}

/// The commit that accepts a navigation, with the preparation of its summary if
/// it has one. A lane whose tip has moved since it was looked at has to be looked
/// at again.
pub open spec fn navigation_acceptance(
    lane: Seq<char>,
    operation_id: Seq<char>,
    task_id: Seq<char>,
    started_at: u64,
    config: ConfigView,
    state: LaneRuntimeStateView,
    observed_tip_id: Option<Seq<char>>,
    target_id: Option<Seq<char>>,
    summarize: bool,
    label: Option<Seq<char>>,
    custom_instructions: Option<Seq<char>>,
    target_exists: bool,
    preparation: Option<DurableStructuralPreparationView>,
) -> LaneCommandView<AnswerView<Option<OperationAdmissionView>>> {
    if let Some(operation) = state.operation {
        LaneCommandView::Return {
            result: AnswerView::Refused { error: lane_busy(lane, operation) },
        }
    } else if state.tip_id != observed_tip_id {
        LaneCommandView::Return { result: AnswerView::Granted { value: None } }
    } else {
        match navigation_refusal(lane, state.tip_id, target_id, summarize, label, target_exists) {
            Some(error) => LaneCommandView::Return { result: AnswerView::Refused { error } },
            None => placed_operation(
                lane,
                state,
                OperationMetaView {
                    operation_id,
                    lane,
                    intent: OperationIntentView::Navigation {
                        target_id,
                        summarize,
                        label,
                        custom_instructions,
                    },
                    source_tip_id: state.tip_id,
                    started_at,
                },
                if summarize {
                    OperationStateView::SummaryDeciding {
                        scope: fresh_scope(config),
                        task: navigation_task(
                            task_id,
                            target_id->Some_0,
                            label,
                            custom_instructions,
                        ),
                    }
                } else {
                    OperationStateView::NavigationReadyToCommit {
                        scope: fresh_scope(config),
                        target_id,
                        label,
                    }
                },
                if summarize {
                    seq![
                        preparation_write(
                            operation_id,
                            DueCompactionView { task_id, preparation: preparation->Some_0 },
                        ),
                    ]
                } else {
                    Seq::empty()
                },
                AnswerView::Granted {
                    value: Some(admission(operation_id, "navigation"@, started_at)),
                },
                HarnessEventView::NavigationStart {
                    lane,
                    run_id: operation_id,
                    target_id,
                    started_at,
                    recovery: None,
                },
            ),
        }
    }
}

/// Accepts a navigation on a lane. `preparation` is what the summary of the
/// branch it leaves would be made from; a summarized navigation to an entry that
/// exists has one.
pub fn accept_navigation(
    lane_name: &String,
    operation_id: &String,
    task_id: &String,
    started_at: u64,
    config: &Config,
    state: LaneRuntimeState,
    observed_tip_id: &Option<String>,
    target_id: &Option<String>,
    summarize: bool,
    label: &Option<String>,
    custom_instructions: &Option<String>,
    target_exists: bool,
    preparation: &Option<BranchPreparation>,
) -> (r: LaneCommand<Answer<Option<OperationAdmission>>>)
    requires
        state.operation is None && state.deep_view().tip_id == observed_tip_id.deep_view()
            && summarize && target_id is Some && target_exists && state.tip_id is Some
            ==> preparation is Some,
        preparation matches Some(branch) ==> branch.file_ops.wf(),
    ensures
        r.deep_view() == navigation_acceptance(
            lane_name@,
            operation_id@,
            task_id@,
            started_at,
            config.deep_view(),
            state.deep_view(),
            observed_tip_id.deep_view(),
            target_id.deep_view(),
            summarize,
            label.deep_view(),
            custom_instructions.deep_view(),
            target_exists,
            match *preparation {
                Some(branch) => Some(stored_branch(branch)),
                None => None,
            },
        ),
{
    if let Some(operation) = &state.operation {
        return LaneCommand::Return {
            result: Answer::Refused { error: crate::lane::accept::busy(lane_name, operation) },
        };
    }
    if !same_text(&state.tip_id, observed_tip_id) {
        return LaneCommand::Return { result: Answer::Granted { value: None } };
    }
    if let Some(error) = check_navigation(
        lane_name,
        &state.tip_id,
        target_id,
        summarize,
        label,
        target_exists,
    ) {
        return LaneCommand::Return { result: Answer::Refused { error } };
    }
    let meta = OperationMeta {
        operation_id: operation_id.clone(),
        lane: lane_name.clone(),
        intent: OperationIntent::Navigation {
            target_id: target_id.clone(),
            summarize,
            label: label.clone(),
            custom_instructions: custom_instructions.clone(),
        },
        source_tip_id: state.tip_id.clone(),
        started_at,
    };
    let mut before: Vec<Write> = Vec::new();
    assert(before.deep_view() =~= Seq::empty());
    let operation_state = if summarize {
        match (preparation, target_id) {
            (Some(branch), Some(target)) => {
                let stored = durable_branch_preparation(branch);
                let ghost stored_view = stored.deep_view();
                before.push(write_preparation(operation_id, task_id, stored));
                assert(before.deep_view() =~= seq![
                    preparation_write(
                        operation_id@,
                        DueCompactionView { task_id: task_id@, preparation: stored_view },
                    ),
                ]);
                OperationState::SummaryDeciding {
                    scope: crate::lane::accept::new_scope(config),
                    task: SummaryTask {
                        task_id: task_id.clone(),
                        reason: None,
                        custom_instructions: custom_instructions.clone(),
                        boundary: ResultBoundary::CommitNavigation {
                            target_id: target.clone(),
                            label: label.clone(),
                        },
                    },
                }
            },
            _ => vstd::pervasive::unreached(),
        }
    } else {
        OperationState::NavigationReadyToCommit {
            scope: crate::lane::accept::new_scope(config),
            target_id: target_id.clone(),
            label: label.clone(),
        }
    };
    place_operation(
        lane_name,
        state,
        meta,
        operation_state,
        before,
        Answer::Granted {
            value: Some(
                OperationAdmission {
                    operation_id: operation_id.clone(),
                    kind: "navigation".to_string(),
                    started_at,
                },
            ),
        },
        HarnessEvent::NavigationStart {
            lane: lane_name.clone(),
            run_id: operation_id.clone(),
            target_id: target_id.clone(),
            started_at,
            recovery: None,
        },
    )
}

/// Whether a path has an entry with an id.
pub open spec fn on_path(path: Seq<EntryView>, id: Seq<char>) -> bool {
    exists|i: int| 0 <= i < path.len() && (#[trigger] path[i]).id() == id
}

/// The place on the old path at which it meets the target path, both newest
/// first: that of the newest entry of the target path which the old one has.
pub open spec fn meeting_place(old_path: Seq<EntryView>, target_path: Seq<EntryView>, n: int) -> int
    decreases target_path.len() - n,
{
    if n < 0 || n >= target_path.len() {
        old_path.len() as int
    } else {
        match place_on_path(old_path, target_path[n].id()) {
            Some(place) => place,
            None => meeting_place(old_path, target_path, n + 1),
        }
    }
}

/// The entries that a navigation leaves behind, oldest first.
pub open spec fn left_behind(old_path: Seq<EntryView>, target_path: Seq<EntryView>) -> Seq<
    EntryView,
> {
    old_path.take(meeting_place(old_path, target_path, 0)).reverse()
}

proof fn lemma_place_bound(entries: Seq<EntryView>, id: Seq<char>)
    ensures
        place_on_path(entries, id) matches Some(place) ==> 0 <= place < entries.len()
            && entries[place].id() == id,
        place_on_path(entries, id) is None ==> !on_path(entries, id),
    decreases entries.len(),
{
    if entries.len() > 0 {
        lemma_place_bound(entries.drop_last(), id);
        if place_on_path(entries, id) is None {
            assert forall|i: int| 0 <= i < entries.len() implies (#[trigger] entries[i]).id()
                != id by {
                if i < entries.len() - 1 {
                    assert(entries.drop_last()[i] == entries[i]);
                }
            }
        }
    }
}

/// Gives the entries that a navigation leaves behind.
pub fn branch_entries(old_path: &Vec<Entry>, target_path: &Vec<Entry>) -> (r: Vec<Entry>)
    ensures
        r.deep_view() == left_behind(old_path.deep_view(), target_path.deep_view()),
{
    let ghost old_view = old_path.deep_view();
    let ghost target_view = target_path.deep_view();
    let mut end: usize = old_path.len();
    let mut n: usize = 0;
    while n < target_path.len()
        invariant_except_break
            n <= target_path.len(),
            end == old_path.len(),
            old_view == old_path.deep_view(),
            target_view == target_path.deep_view(),
            meeting_place(old_view, target_view, 0) == meeting_place(
                old_view,
                target_view,
                n as int,
            ),
        ensures
            end <= old_path.len(),
            end == meeting_place(old_view, target_view, 0),
        decreases target_path.len() - n,
    {
        if let Some(place) = find_on_path(old_path, target_path[n].id()) {
            end = place;
            break ;
        }
        n += 1;
    }
    let mut entries: Vec<Entry> = Vec::new();
    let mut i: usize = end;
    assert(entries.deep_view() =~= Seq::empty());
    while i > 0
        invariant
            i <= end <= old_path.len(),
            old_view == old_path.deep_view(),
            entries.len() == end - i,
            forall|k: int|
                0 <= k < end - i ==> #[trigger] entries.deep_view()[k] == old_view[end - 1 - k],
        decreases i,
    {
        let ghost before = entries.deep_view();
        i -= 1;
        entries.push(old_path[i].clone());
        assert(entries.deep_view() =~= before.push(old_view[i as int]));
    }
    assert(entries.deep_view() =~= left_behind(old_view, target_view));
    entries
}

/// The place at which two paths meet holds an entry that both have; where they
/// do not meet, they share no entry.
pub proof fn law_the_meeting_place_is_shared(
    old_path: Seq<EntryView>,
    target_path: Seq<EntryView>,
    n: int,
)
    requires
        0 <= n <= target_path.len(),
    ensures
        0 <= meeting_place(old_path, target_path, n) <= old_path.len(),
        meeting_place(old_path, target_path, n) < old_path.len() ==> exists|i: int|
            n <= i < target_path.len() && (#[trigger] target_path[i]).id()
                == old_path[meeting_place(old_path, target_path, n)].id(),
        meeting_place(old_path, target_path, n) == old_path.len() ==> forall|i: int|
            n <= i < target_path.len() ==> !on_path(old_path, (#[trigger] target_path[i]).id()),
    decreases target_path.len() - n,
{
    if n < target_path.len() {
        lemma_place_bound(old_path, target_path[n].id());
        law_the_meeting_place_is_shared(old_path, target_path, n + 1);
    }
}

/// The last writes of an acceptance put its operation in step.
proof fn lemma_operation_writes(
    base: Map<AddressView, DurableValueView>,
    lane: Seq<char>,
    meta: OperationMetaView,
    operation_state: OperationStateView,
    next: LaneRuntimeStateView,
)
    requires
        holds(base, AddressView::BranchTip { lane }, DurableValueView::Tip(next.tip_id)),
        holds(
            base,
            AddressView::LaneConfig { lane },
            DurableValueView::Configuration(next.configuration),
        ),
        next.operation == Some(OperationView { meta, state: operation_state }),
        meta.lane == lane,
        matches_intent(meta.intent, operation_state),
    ensures
        in_step(
            committed(
                base,
                operation_writes(lane, meta, operation_state, next.inbox, next.last_operation_id),
            ),
            lane,
            next,
        ),
{
    let writes = operation_writes(
        lane,
        meta,
        operation_state,
        next.inbox,
        next.last_operation_id,
    );
    let first = Seq::<WriteView>::empty().push(writes[0]);
    let second = first.push(writes[1]);
    assert(writes =~= second.push(writes[2]));
    lemma_committed_push(base, Seq::empty(), writes[0]);
    lemma_committed_push(base, first, writes[1]);
    lemma_committed_push(base, second, writes[2]);
}

/// Accepting a run keeps the lane in step with storage.
pub proof fn law_accepting_a_run_keeps_step(
    store: Map<AddressView, DurableValueView>,
    lane: Seq<char>,
    operation_id: Seq<char>,
    started_at: u64,
    config: ConfigView,
    state: LaneRuntimeStateView,
    rows: Seq<PendingRowView>,
    prompt: Seq<ReservedMessageView>,
)
    requires
        in_step(store, lane, state),
    ensures
        run_acceptance(
            lane,
            operation_id,
            started_at,
            config,
            state,
            rows,
            prompt,
        ) matches Ok(command) ==> keeps_step(store, lane, command),
{
    let acceptance = run_acceptance(
        lane,
        operation_id,
        started_at,
        config,
        state,
        rows,
        prompt,
    );
    if let Ok(LaneCommandView::Commit { writes, next, .. }) = acceptance {
        let n = state.inbox.len();
        let selected = split_inbox(
            state.inbox,
            config.steering_mode,
            config.follow_up_mode,
            true,
            n,
        );
        let taken = captured_entries(rows, selected)->Ok_0;
        let entries = chained(state.tip_id, taken + prompt_entries(prompt));
        lemma_captured_len(rows, selected);
        assert(entries.len() > 0) by {
            if prompt.len() == 0 {
                assert(any_conversation(selected));
                assert(selected.len() > 0);
            }
        }
        let meta = run_meta(lane, operation_id, started_at, state.tip_id, prompt_ids(prompt));
        let operation_state = OperationStateView::Starting { scope: fresh_scope(config) };
        let moved = insertions(entries) + payload_deletions(selected);
        let tip = tip_write(lane, Some(entries.last().id()));
        let config_address = AddressView::LaneConfig { lane };
        assert(spares(moved, config_address));
        lemma_spared(store, moved, config_address);
        lemma_committed_push(store, moved, tip);
        let rest = operation_writes(
            lane,
            meta,
            operation_state,
            next.inbox,
            state.last_operation_id,
        );
        assert(writes =~= moved.push(tip) + rest);
        lemma_committed_concat(store, moved.push(tip), rest);
        lemma_operation_writes(
            committed(store, moved.push(tip)),
            lane,
            meta,
            operation_state,
            next,
        );
    }
}

proof fn lemma_captured_len(rows: Seq<PendingRowView>, items: Seq<InboxItemView>)
    ensures
        captured_entries(rows, items) matches Ok(entries) ==> entries.len() == items.len(),
    decreases items.len(),
{
    if items.len() > 0 {
        lemma_captured_len(rows, items.drop_last());
    }
}

/// Accepting a compaction keeps the lane in step with storage.
pub proof fn law_accepting_a_compaction_keeps_step(
    store: Map<AddressView, DurableValueView>,
    lane: Seq<char>,
    operation_id: Seq<char>,
    task_id: Seq<char>,
    started_at: u64,
    config: ConfigView,
    state: LaneRuntimeStateView,
    custom_instructions: Option<Seq<char>>,
    preparation: Option<DurableStructuralPreparationView>,
)
    requires
        in_step(store, lane, state),
    ensures
        keeps_step(
            store,
            lane,
            compaction_acceptance(
                lane,
                operation_id,
                task_id,
                started_at,
                config,
                state,
                custom_instructions,
                preparation,
            ),
        ),
{
    let acceptance = compaction_acceptance(
        lane,
        operation_id,
        task_id,
        started_at,
        config,
        state,
        custom_instructions,
        preparation,
    );
    if let LaneCommandView::Commit { writes, next, .. } = acceptance {
        let stored = preparation_write(
            operation_id,
            DueCompactionView { task_id, preparation: preparation->Some_0 },
        );
        lemma_placed_operation_keeps_step(store, lane, state, writes, next, seq![stored]);
    }
}

proof fn lemma_placed_operation_keeps_step(
    store: Map<AddressView, DurableValueView>,
    lane: Seq<char>,
    state: LaneRuntimeStateView,
    writes: Seq<WriteView>,
    next: LaneRuntimeStateView,
    before: Seq<WriteView>,
)
    requires
        in_step(store, lane, state),
        next.operation is Some,
        next == (LaneRuntimeStateView { operation: next.operation, ..state }),
        next.operation->Some_0.meta.lane == lane,
        matches_intent(next.operation->Some_0.meta.intent, next.operation->Some_0.state),
        spares(before, AddressView::BranchTip { lane }),
        spares(before, AddressView::LaneConfig { lane }),
        writes == before + operation_writes(
            lane,
            next.operation->Some_0.meta,
            next.operation->Some_0.state,
            state.inbox,
            state.last_operation_id,
        ),
    ensures
        in_step(committed(store, writes), lane, next),
{
    let operation = next.operation->Some_0;
    let rest = operation_writes(
        lane,
        operation.meta,
        operation.state,
        state.inbox,
        state.last_operation_id,
    );
    lemma_spared(store, before, AddressView::BranchTip { lane });
    lemma_spared(store, before, AddressView::LaneConfig { lane });
    lemma_committed_concat(store, before, rest);
    lemma_operation_writes(
        committed(store, before),
        lane,
        operation.meta,
        operation.state,
        next,
    );
}

/// Accepting a navigation keeps the lane in step with storage.
pub proof fn law_accepting_a_navigation_keeps_step(
    store: Map<AddressView, DurableValueView>,
    lane: Seq<char>,
    operation_id: Seq<char>,
    task_id: Seq<char>,
    started_at: u64,
    config: ConfigView,
    state: LaneRuntimeStateView,
    observed_tip_id: Option<Seq<char>>,
    target_id: Option<Seq<char>>,
    summarize: bool,
    label: Option<Seq<char>>,
    custom_instructions: Option<Seq<char>>,
    target_exists: bool,
    preparation: Option<DurableStructuralPreparationView>,
)
    requires
        in_step(store, lane, state),
    ensures
        keeps_step(
            store,
            lane,
            navigation_acceptance(
                lane,
                operation_id,
                task_id,
                started_at,
                config,
                state,
                observed_tip_id,
                target_id,
                summarize,
                label,
                custom_instructions,
                target_exists,
                preparation,
            ),
        ),
{
    let acceptance = navigation_acceptance(
        lane,
        operation_id,
        task_id,
        started_at,
        config,
        state,
        observed_tip_id,
        target_id,
        summarize,
        label,
        custom_instructions,
        target_exists,
        preparation,
    );
    if let LaneCommandView::Commit { writes, next, .. } = acceptance {
        let before = if summarize {
            seq![
                preparation_write(
                    operation_id,
                    DueCompactionView { task_id, preparation: preparation->Some_0 },
                ),
            ]
        } else {
            Seq::empty()
        };
        lemma_placed_operation_keeps_step(store, lane, state, writes, next, before);
    }
}

} // verus!
