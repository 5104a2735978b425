//! How a run goes from step to step.

use crate::command::{ContinueOperationResultView, LaneCommandView, OperationCommandView};
use crate::drive::boundary::{boundary_plan, countable};
use crate::drive::checkpoint::{
    checkpoint_decision, messages_of, prompt_of, run_start, DueCompactionView, ReservedMessageView,
};
use crate::drive::deferred::{next_poll, poll_intent, source_handle};
use crate::drive::dispatch::procedure_for;
use crate::drive::finish::{run_boundary_end, FollowUpView};
use crate::drive::generation::{generation_check, generation_intent, retry_command};
use crate::drive::reconcile::{aborted_command, reconcile_action};
use crate::drive::recovery::interrupted_response;
use crate::drive::response::configuration_failure;
use crate::drive::terminal::cleanup;
use crate::drive::tools::tool_named;
use crate::lane::settle::{continued, settled};
use crate::laws::response::{goes_on, writes_in};
use crate::model::event::{HarnessEventView, PlannedEventView};
use crate::model::message::{AgentMessageView, AssistantMessageView, DeferredHandleView, StopReason};
use crate::model::session::{
    CheckpointDataView, Continuation, Control, DeferredScopeView, DurableLaneStateView,
    ErrorDetailsView, GenerationContextView, LaneConfigurationView, ModelIdentityView,
    OperationErrorView, OperationIntentView, OperationMetaView, OperationResultRecordView,
    OperationScopeView, OperationStateView, OperationView, ResultBoundaryView, SummaryTaskView,
    TerminalStatus, ToolCallView,
};
use crate::model::storage::{
    AddressView, DurableValueView, EntryView, NewEntryView, NewMessageEntryView, WriteView,
};
use crate::text::decimal;
use crate::transcript::entry_of;
use crate::types::{
    BoundaryPlacementView, CheckpointPlannedView, ConfigView, LaneRuntimeStateView, PendingRowView,
    ProcedureResultView, ToolDescriptorView,
};
use vstd::prelude::*;

verus! {

/// A run starts behind the messages that a hook adds: each is appended under its id
/// behind the one before it, and the first behind the tip. The model is asked to answer
/// the last entry there is.
pub proof fn law_a_run_starts_behind_what_was_added(
    lane: Seq<char>,
    operation_id: Seq<char>,
    tip_id: Option<Seq<char>>,
    current: OperationStateView,
    reserved: Seq<ReservedMessageView>,
    i: int,
)
    requires
        current is Starting,
    ensures
        ({
            let n = reserved.len();
            let trigger = if n == 0 {
                tip_id
            } else {
                Some(reserved.last().entry_id)
            };
            let decided = run_start(lane, operation_id, tip_id, current, reserved);
            &&& decided is Err <==> n == 0 && tip_id is None
            &&& decided matches Ok(command) ==> {
                let writes = writes_in(command);
                &&& goes_on(
                    command,
                    OperationStateView::Checkpoint {
                        scope: current->Starting_scope,
                        continuation: Continuation::NeedAssistant { overflow_recovery_used: false },
                        trigger_entry_id: trigger->Some_0,
                    },
                )
                &&& writes.len() == if n == 0 {
                    0
                } else {
                    n + 1
                }
                &&& 0 <= i < n ==> writes[i] == WriteView::InsertEntry(
                    NewEntryView::Message(
                        NewMessageEntryView {
                            id: reserved[i].entry_id,
                            parent_id: if i == 0 {
                                tip_id
                            } else {
                                Some(reserved[i - 1].entry_id)
                            },
                            custom_type: None,
                            message: reserved[i].message,
                            terminate: None,
                        },
                    ),
                )
                &&& n > 0 ==> writes[n as int] == (WriteView::SetValue {
                    address: AddressView::BranchTip { lane },
                    value: DurableValueView::Tip(trigger),
                })
                &&& command matches OperationCommandView::Commit { lane: Some(patch), result, .. }
                &&& patch.tip_id == Some(trigger)
                &&& patch.configuration is None
                &&& patch.inbox is None
                &&& result == ProcedureResultView::Continue
            }
        }),
{
}

proof fn lemma_messages(ids: Seq<Seq<char>>, entries: Seq<EntryView>)
    ensures
        match messages_of(ids, entries) {
            Ok(messages) => messages.len() == ids.len() && forall|i: int|
                0 <= i < ids.len() ==> (entry_of(entries, #[trigger] ids[i]) matches Some(
                    EntryView::Message(entry),
                ) && entry.message == messages[i]),
            Err(_) => exists|i: int|
                0 <= i < ids.len() && !(entry_of(entries, #[trigger] ids[i]) matches Some(
                    EntryView::Message(_),
                )),
        },
    decreases ids.len(),
{
    if ids.len() > 0 {
        let rest = ids.drop_last();
        lemma_messages(rest, entries);
        let last = ids.len() - 1;
        match messages_of(rest, entries) {
            Err(_) => {
                let i = choose|i: int|
                    0 <= i < rest.len() && !(entry_of(entries, #[trigger] rest[i]) matches Some(
                        EntryView::Message(_),
                    ));
                assert(ids[i] == rest[i]);
            },
            Ok(messages) => {
                if let Ok(all) = messages_of(ids, entries) {
                    assert forall|i: int| 0 <= i < ids.len() implies (entry_of(
                        entries,
                        #[trigger] ids[i],
                    ) matches Some(EntryView::Message(entry)) && entry.message == all[i]) by {
                        if i < last {
                            assert(rest[i] == ids[i]);
                        }
                    }
                } else {
                    assert(!(entry_of(entries, ids[last]) matches Some(EntryView::Message(_))));
                }
            },
        }
    }
}

/// The prompt of a run is what its prompt entries say, one message for each, in order.
/// It cannot be read just if one of them is missing or no message, or the operation is
/// no run.
pub proof fn law_a_run_reads_the_messages_of_its_prompt(
    meta: OperationMetaView,
    entries: Seq<EntryView>,
)
    ensures
        match (meta.intent, prompt_of(meta, entries)) {
            (OperationIntentView::Run { prompt_entry_ids }, Ok(messages)) => messages.len()
                == prompt_entry_ids.len() && forall|i: int|
                0 <= i < messages.len() ==> (entry_of(
                    entries,
                    #[trigger] prompt_entry_ids[i],
                ) matches Some(EntryView::Message(entry)) && entry.message == messages[i]),
            (OperationIntentView::Run { prompt_entry_ids }, Err(_)) => exists|i: int|
                0 <= i < prompt_entry_ids.len() && !(entry_of(
                    entries,
                    #[trigger] prompt_entry_ids[i],
                ) matches Some(EntryView::Message(_))),
            (_, decided) => decided is Err,
        },
{
    if let OperationIntentView::Run { prompt_entry_ids } = meta.intent {
        lemma_messages(prompt_entry_ids, entries);
    }
}

/// A step of a run that has not been made: it answers an entry, with the configuration
/// of the lane and the options and retry policy of the harness as they are now.
pub open spec fn fresh_step(
    config: ConfigView,
    default_delay_ms: u64,
    step_id: Seq<char>,
    state: LaneRuntimeStateView,
    scope: OperationScopeView,
    trigger: Seq<char>,
    overflow_recovery_used: bool,
    leaf: OperationStateView,
) -> bool {
    leaf matches OperationStateView::AssistantReady {
        scope: kept,
        generation_context: context,
        next_attempt,
    } && kept == scope && next_attempt == 1 && context.step_id == step_id
        && context.trigger_entry_id == trigger && context.configuration == state.configuration
        && context.stream_options == config.stream_options && context.overflow_recovery_used
        == overflow_recovery_used && context.retry_policy.base_delay_ms
        == config.retry_policy.base_delay_ms && context.retry_policy.max_agent_delay_ms == (
    match config.retry_policy.max_agent_delay_ms {
        Some(delay_ms) => delay_ms,
        None => default_delay_ms,
    }) && context.retry_policy.max_attempts == if config.retry_policy.enabled {
        (config.retry_policy.max_retries as u32) + 1
    } else {
        1
    }
}

/// Whether a lane takes over what a boundary left of its inbox and where it ended.
pub open spec fn takes_over<T>(
    command: OperationCommandView<T>,
    placement: BoundaryPlacementView,
    tip_id: Option<Seq<char>>,
) -> bool {
    match command {
        OperationCommandView::Commit { lane: Some(patch), .. } => patch.tip_id == Some(tip_id)
            && patch.inbox == Some(placement.inbox) && patch.configuration is None,
        OperationCommandView::Finish { lane: Some(patch), .. } => patch.tip_id == Some(tip_id)
            && patch.inbox == Some(placement.inbox) && patch.configuration is None,
        _ => false,
    }
}

/// What a checkpoint does. It takes in the inbox; follow-ups only count where the run
/// may finish and no compaction is due. What comes in and is read is answered next. Else
/// a compaction that is due is decided on, after which the checkpoint is taken up again.
/// Else the model is asked if the checkpoint needs that. Else the run is about to finish,
/// and nothing is stored.
pub proof fn law_a_checkpoint_answers_compacts_or_finishes(
    lane: Seq<char>,
    operation_id: Seq<char>,
    config: ConfigView,
    default_delay_ms: u64,
    step_id: Seq<char>,
    state: LaneRuntimeStateView,
    current: OperationStateView,
    rows: Seq<PendingRowView>,
    due: Option<DueCompactionView>,
)
    requires
        current is Checkpoint,
        countable(config.retry_policy),
    ensures
        ({
            let scope = current->Checkpoint_scope;
            let continuation = current->Checkpoint_continuation;
            let trigger = current->Checkpoint_trigger_entry_id;
            let taken = boundary_plan(
                config.entry_projectors,
                lane,
                state.inbox,
                scope,
                rows,
                state.tip_id,
                due is None && continuation is MayFinish,
            );
            let decided = checkpoint_decision(
                lane,
                operation_id,
                config,
                default_delay_ms,
                step_id,
                state,
                current,
                rows,
                due,
            );
            match taken {
                Err(message) => decided is Err && decided->Err_0 == message,
                Ok(placement) => decided matches Ok(command) && if placement.trigger_entry_id
                    is Some {
                    &&& command matches OperationCommandView::Commit { operation_state, .. }
                    &&& fresh_step(
                        config,
                        default_delay_ms,
                        step_id,
                        state,
                        scope,
                        placement.trigger_entry_id->Some_0,
                        false,
                        operation_state,
                    )
                    &&& writes_in(command) == placement.writes
                    &&& takes_over(command, placement, placement.tip_id)
                } else if due is Some {
                    &&& goes_on(
                        command,
                        OperationStateView::SummaryDeciding {
                            scope,
                            task: SummaryTaskView {
                                task_id: due->Some_0.task_id,
                                reason: Some("threshold"@),
                                custom_instructions: None,
                                boundary: ResultBoundaryView::ResumeCheckpoint {
                                    resume_after: CheckpointDataView {
                                        continuation,
                                        trigger_entry_id: trigger,
                                    },
                                },
                            },
                        },
                    )
                    &&& writes_in(command) == placement.writes.push(
                        WriteView::SetValue {
                            address: AddressView::OperationPreparation {
                                operation_id,
                                task_id: due->Some_0.task_id,
                            },
                            value: DurableValueView::Preparation(due->Some_0.preparation),
                        },
                    )
                    &&& takes_over(command, placement, placement.tip_id)
                    &&& command matches OperationCommandView::Commit { events, .. }
                    &&& events.len() > 0
                    &&& events.last() == (PlannedEventView::CompactionStarted {
                        lane,
                        run_id: operation_id,
                        reason: "threshold"@,
                    })
                } else {
                    match continuation {
                        Continuation::NeedAssistant { overflow_recovery_used } => {
                            &&& command matches OperationCommandView::Commit {
                                operation_state,
                                ..
                            }
                            &&& fresh_step(
                                config,
                                default_delay_ms,
                                step_id,
                                state,
                                scope,
                                trigger,
                                overflow_recovery_used,
                                operation_state,
                            )
                            &&& writes_in(command) == placement.writes
                            &&& takes_over(command, placement, placement.tip_id)
                        },
                        Continuation::MayFinish { .. } => {
                            &&& command matches OperationCommandView::Return {
                                result: CheckpointPlannedView::FinishPending(pending),
                            }
                            &&& pending.entry_ids.len() == placement.entries.len()
                            &&& forall|i: int|
                                0 <= i < pending.entry_ids.len() ==> #[trigger]
                                pending.entry_ids[i] == placement.entries[i].id()
                        },
                    }
                },
            }
        }),
{
}

/// How a run that may finish goes on or ends. What is queued by then and is read is
/// answered next. Else the follow-up of the hook is, if the hook saw the entries that
/// are appended now: it is appended behind them. Else the run is completed at the tip,
/// and cleaned up. A run that promises a final answer has to have one.
pub proof fn law_a_run_goes_on_or_is_completed(
    lane: Seq<char>,
    operation_id: Seq<char>,
    config: ConfigView,
    default_delay_ms: u64,
    step_id: Seq<char>,
    state: LaneRuntimeStateView,
    current: OperationStateView,
    meta: OperationMetaView,
    rows: Seq<PendingRowView>,
    continuation: Continuation,
    planned_entry_ids: Seq<Seq<char>>,
    before: Seq<HarnessEventView>,
    follow_up: Option<FollowUpView>,
    scratch: Seq<AddressView>,
    ended_at: u64,
)
    requires
        current is Checkpoint,
        countable(config.retry_policy),
    ensures
        ({
            let scope = current->Checkpoint_scope;
            let taken = boundary_plan(
                config.entry_projectors,
                lane,
                state.inbox,
                scope,
                rows,
                state.tip_id,
                true,
            );
            let decided = run_boundary_end(
                lane,
                operation_id,
                config,
                default_delay_ms,
                step_id,
                state,
                current,
                meta,
                rows,
                continuation,
                planned_entry_ids,
                before,
                follow_up,
                scratch,
                ended_at,
            );
            match taken {
                Err(message) => decided is Err && decided->Err_0 == message,
                Ok(placement) => {
                    let seen = placement.entries.len() == planned_entry_ids.len() && forall|
                        i: int,
                    |
                        0 <= i < planned_entry_ids.len() ==> #[trigger] placement.entries[i].id()
                            == planned_entry_ids[i];
                    if placement.trigger_entry_id is Some {
                        &&& decided matches Ok(command)
                        &&& command matches OperationCommandView::Commit { operation_state, .. }
                        &&& fresh_step(
                            config,
                            default_delay_ms,
                            step_id,
                            state,
                            scope,
                            placement.trigger_entry_id->Some_0,
                            false,
                            operation_state,
                        )
                        &&& writes_in(command) == placement.writes
                        &&& takes_over(command, placement, placement.tip_id)
                    } else if seen && follow_up is Some {
                        let id = follow_up->Some_0.entry_id;
                        &&& decided matches Ok(command)
                        &&& command matches OperationCommandView::Commit { operation_state, .. }
                        &&& fresh_step(
                            config,
                            default_delay_ms,
                            step_id,
                            state,
                            scope,
                            id,
                            false,
                            operation_state,
                        )
                        &&& writes_in(command) == placement.writes.push(
                            WriteView::InsertEntry(
                                NewEntryView::Message(
                                    NewMessageEntryView {
                                        id,
                                        parent_id: placement.tip_id,
                                        custom_type: None,
                                        message: follow_up->Some_0.message,
                                        terminate: None,
                                    },
                                ),
                            ),
                        ).push(
                            WriteView::SetValue {
                                address: AddressView::BranchTip { lane },
                                value: DurableValueView::Tip(Some(id)),
                            },
                        )
                        &&& takes_over(command, placement, Some(id))
                    } else if placement.tip_id is None || (continuation == (
                    Continuation::MayFinish { include_final_assistant: true })
                        && scope.latest_assistant_entry_id is None) {
                        decided is Err
                    } else {
                        &&& decided matches Ok(command)
                        &&& command matches OperationCommandView::Finish {
                            writes,
                            record,
                            result,
                            events,
                            ..
                        }
                        &&& record == OperationResultRecordView {
                            operation_id: meta.operation_id,
                            kind: meta.intent,
                            status: TerminalStatus::Completed,
                            error: None,
                            from_tip_id: meta.source_tip_id,
                            tip_id: placement.tip_id,
                            started_at: meta.started_at,
                            ended_at,
                        }
                        &&& result == (ProcedureResultView::Settled { outcome: record })
                        &&& takes_over(command, placement, placement.tip_id)
                        &&& writes == placement.writes + cleanup(operation_id, current, scratch)
                        &&& events.len() > 0
                        &&& events.last() == PlannedEventView::Ready(
                            HarnessEventView::RunEnd {
                                lane,
                                run_id: operation_id,
                                from_tip_id: meta.source_tip_id,
                                tip_id: placement.tip_id,
                                ended_at,
                                status: TerminalStatus::Completed,
                                error: None,
                                recovery: None,
                            },
                        )
                    }
                },
            }
        }),
{
    let scope = current->Checkpoint_scope;
    if let Ok(placement) = boundary_plan(
        config.entry_projectors,
        lane,
        state.inbox,
        scope,
        rows,
        state.tip_id,
        true,
    ) {
        let ids = crate::drive::finish::entry_ids(placement.entries);
        let seen = placement.entries.len() == planned_entry_ids.len() && forall|i: int|
            0 <= i < planned_entry_ids.len() ==> #[trigger] placement.entries[i].id()
                == planned_entry_ids[i];
        if seen {
            assert(ids =~= planned_entry_ids);
        }
        if ids == planned_entry_ids {
            assert forall|i: int| 0 <= i < planned_entry_ids.len() implies
                #[trigger] placement.entries[i].id() == planned_entry_ids[i] by {
                assert(ids[i] == planned_entry_ids[i]);
            }
        }
    }
}

/// A generation starts under the ids reserved for it, as the attempt that was next of
/// the step that was ready. The turn is announced with its first attempt. A wait ends
/// with the attempt that it was for, which is announced. Neither stores anything but the
/// leaf.
pub proof fn law_a_generation_is_the_next_attempt_of_its_step(
    lane: Seq<char>,
    operation_id: Seq<char>,
    ready: OperationStateView,
    waiting: OperationStateView,
    response_entry_id: Seq<char>,
    usage_id: Seq<char>,
    intended_output_limit: u64,
    context_window: u64,
)
    ensures
        ready matches OperationStateView::AssistantReady {
            scope,
            generation_context,
            next_attempt,
        } ==> (generation_intent(
            lane,
            operation_id,
            ready,
            ready,
            response_entry_id,
            usage_id,
            intended_output_limit,
            context_window,
        ) matches OperationCommandView::Commit { writes, operation_state, lane: patch, result, events }
            && operation_state == (OperationStateView::AssistantEffectPending {
            scope,
            generation_context,
            attempt: next_attempt,
            response_entry_id,
            usage_id,
            intended_output_limit,
            context_window,
        }) && result == operation_state && writes.len() == 0 && patch is None && events
            == if next_attempt == 1 {
            seq![
                PlannedEventView::Ready(
                    HarnessEventView::TurnStart {
                        lane,
                        run_id: operation_id,
                        turn_id: generation_context.step_id,
                        recovery: None,
                    },
                ),
            ]
        } else {
            Seq::empty()
        }),
        waiting matches OperationStateView::AssistantRetryWait {
            scope,
            generation_context,
            next_attempt,
            ..
        } ==> (retry_command(lane, operation_id, waiting, waiting)
            matches OperationCommandView::Commit { writes, operation_state, lane: patch, result, events }
            && operation_state == (OperationStateView::AssistantReady {
            scope,
            generation_context,
            next_attempt,
        }) && result == ProcedureResultView::Continue && writes.len() == 0 && patch is None
            && events == seq![
            PlannedEventView::Ready(
                HarnessEventView::RetryStart {
                    lane,
                    run_id: operation_id,
                    step: generation_context.step_id,
                    attempt: next_attempt,
                    recovery: None,
                },
            ),
        ]),
{
}

proof fn lemma_tool_named(tools: Seq<ToolDescriptorView>, name: Seq<char>)
    ensures
        match tool_named(tools, name) {
            Some(tool) => tools.contains(tool) && tool.name == name,
            None => forall|i: int| 0 <= i < tools.len() ==> (#[trigger] tools[i]).name != name,
        },
    decreases tools.len(),
{
    if tools.len() > 0 {
        let rest = tools.drop_last();
        lemma_tool_named(rest, name);
        if let Some(tool) = tool_named(rest, name) {
            assert(tools[rest.index_of(tool)] == tool);
        }
        assert(tools.contains(tools.last())) by {
            assert(tools[tools.len() - 1] == tools.last());
        }
        assert forall|i: int| 0 <= i < rest.len() implies rest[i] == #[trigger] tools[i] by {}
    }
}

/// A generation needs its model and every active tool of its configuration. It gets one
/// tool for each active name, in order. Otherwise the run fails and says what is missing:
/// the model, or exactly the active tools that the process does not have, in order.
pub proof fn law_a_generation_needs_its_model_and_tools(
    context: GenerationContextView,
    model_available: bool,
    tools: Seq<ToolDescriptorView>,
    name: Seq<char>,
)
    ensures
        ({
            let names = context.configuration.active_tool_names;
            let served = forall|i: int|
                0 <= i < names.len() ==> exists|t: int|
                    0 <= t < tools.len() && (#[trigger] tools[t]).name == #[trigger] names[i];
            match generation_check(context, model_available, tools) {
                Ok(given) => model_available && served && given.len() == names.len() && forall|
                    i: int,
                |
                    0 <= i < names.len() ==> (#[trigger] given[i]).name == names[i]
                        && tools.contains(given[i]),
                Err(error) => if !model_available {
                    error.code == "model_unavailable"@ && error.details == Some(
                        ErrorDetailsView::Model(context.configuration.model),
                    )
                } else {
                    &&& !served
                    &&& error.code == "configured_tools_unavailable"@
                    &&& error.details matches Some(ErrorDetailsView::MissingTools(missing))
                    &&& missing.len() > 0
                    &&& missing.contains(name) <==> names.contains(name) && forall|t: int|
                        0 <= t < tools.len() ==> (#[trigger] tools[t]).name != name
                },
            }
        }),
{
    let names = context.configuration.active_tool_names;
    let absent = |name: Seq<char>| tool_named(tools, name) is None;
    let lacking = names.filter(absent);
    assert forall|i: int| 0 <= i < names.len() implies (tool_named(tools, #[trigger] names[i])
        is Some <==> exists|t: int| 0 <= t < tools.len() && (#[trigger] tools[t]).name == names[i])
        by {
        lemma_tool_named(tools, names[i]);
        if let Some(tool) = tool_named(tools, names[i]) {
            assert(tools[tools.index_of(tool)].name == names[i]);
        }
    }
    crate::drive::boundary::lemma_in_filter(names, absent, name);
    lemma_tool_named(tools, name);
    if let Some(tool) = tool_named(tools, name) {
        assert(tools[tools.index_of(tool)].name == name);
    }
    if lacking.len() == 0 {
        assert forall|i: int| 0 <= i < names.len() implies tool_named(tools, #[trigger] names[i])
            is Some by {
            assert(names.contains(names[i]));
            crate::drive::boundary::lemma_in_filter(names, absent, names[i]);
        }
        assert forall|i: int| 0 <= i < names.len() implies (tool_named(
            tools,
            #[trigger] names[i],
        )->Some_0).name == names[i] && tools.contains(tool_named(tools, names[i])->Some_0) by {
            lemma_tool_named(tools, names[i]);
        }
    } else {
        assert(lacking.contains(lacking[0]));
        crate::drive::boundary::lemma_in_filter(names, absent, lacking[0]);
        let i = names.index_of(lacking[0]);
        assert(tool_named(tools, names[i]) is None);
    }
}

/// How a decision on the operation of a lane is carried out. Its own writes come first.
/// A move stores the new leaf, and the lane if its inbox changes; the operation goes on
/// under the same metadata. An end stores the result, and that the lane has no operation
/// and which was its last. The lane takes over what the decision names of it and keeps
/// the rest. Result and events are those of the decision.
pub proof fn law_a_decision_is_carried_out_as_it_says<T>(
    lane: Seq<char>,
    state: LaneRuntimeStateView,
    command: OperationCommandView<T>,
)
    requires
        state.operation is Some,
    ensures
        ({
            let meta = state.operation->Some_0.meta;
            let id = meta.operation_id;
            match (command, settled(lane, state, command)) {
                (
                    OperationCommandView::Return { result },
                    LaneCommandView::Return { result: given },
                ) => given == result,
                (
                    OperationCommandView::Commit {
                        writes,
                        operation_state,
                        lane: patch,
                        result,
                        events,
                    },
                    LaneCommandView::Commit {
                        writes: stored,
                        next,
                        result: given,
                        events: told,
                    },
                ) => {
                    let inbox = match patch {
                        Some(patch) => patch.inbox,
                        None => None,
                    };
                    let leaf = WriteView::SetValue {
                        address: AddressView::OperationState { operation_id: id },
                        value: DurableValueView::State(operation_state),
                    };
                    &&& stored == if inbox is Some {
                        writes.push(leaf).push(
                            WriteView::SetValue {
                                address: AddressView::LaneState { lane },
                                value: DurableValueView::Lane(
                                    DurableLaneStateView {
                                        current_operation_id: Some(id),
                                        last_operation_id: state.last_operation_id,
                                        inbox: inbox->Some_0,
                                    },
                                ),
                            },
                        )
                    } else {
                        writes.push(leaf)
                    }
                    &&& next.operation == Some(OperationView { meta, state: operation_state })
                    &&& next.last_operation_id == state.last_operation_id
                    &&& next.tip_id == (match patch {
                        Some(patch) => match patch.tip_id {
                            Some(tip_id) => tip_id,
                            None => state.tip_id,
                        },
                        None => state.tip_id,
                    })
                    &&& next.configuration == (match patch {
                        Some(patch) => match patch.configuration {
                            Some(configuration) => configuration,
                            None => state.configuration,
                        },
                        None => state.configuration,
                    })
                    &&& next.inbox == (match inbox {
                        Some(inbox) => inbox,
                        None => state.inbox,
                    })
                    &&& given == result
                    &&& told == events
                },
                (
                    OperationCommandView::Finish { writes, record, lane: patch, result, events },
                    LaneCommandView::Commit {
                        writes: stored,
                        next,
                        result: given,
                        events: told,
                    },
                ) => {
                    &&& stored == writes.push(
                        WriteView::SetValue {
                            address: AddressView::OperationResult { operation_id: id },
                            value: DurableValueView::Outcome(record),
                        },
                    ).push(
                        WriteView::SetValue {
                            address: AddressView::LaneState { lane },
                            value: DurableValueView::Lane(
                                DurableLaneStateView {
                                    current_operation_id: None,
                                    last_operation_id: Some(id),
                                    inbox: next.inbox,
                                },
                            ),
                        },
                    )
                    &&& next.operation is None
                    &&& next.last_operation_id == Some(id)
                    &&& next.tip_id == (match patch {
                        Some(patch) => match patch.tip_id {
                            Some(tip_id) => tip_id,
                            None => state.tip_id,
                        },
                        None => state.tip_id,
                    })
                    &&& next.inbox == (match patch {
                        Some(patch) => match patch.inbox {
                            Some(inbox) => inbox,
                            None => state.inbox,
                        },
                        None => state.inbox,
                    })
                    &&& next.configuration == (match patch {
                        Some(patch) => match patch.configuration {
                            Some(configuration) => configuration,
                            None => state.configuration,
                        },
                        None => state.configuration,
                    })
                    &&& given == result
                    &&& told == events
                },
                _ => false,
            }
        }),
{
}

/// A decision that was planned stands while the operation runs, as it is but for the
/// note that it was made. Once the operation was asked to stop, the decision is dropped
/// whole.
pub proof fn law_a_plan_stands_unless_the_operation_was_stopped<T>(
    latest: OperationStateView,
    planned: OperationCommandView<T>,
)
    ensures
        latest.control() is CancelRequested ==> continued(latest, planned) == (
        OperationCommandView::Return::<ContinueOperationResultView<T>> {
            result: ContinueOperationResultView::CancelRequested,
        }),
        latest.control() == Control::Running ==> match (planned, continued(latest, planned)) {
            (
                OperationCommandView::Return { result },
                OperationCommandView::Return {
                    result: ContinueOperationResultView::Result { value },
                },
            ) => value == result,
            (
                OperationCommandView::Commit { writes, operation_state, lane, result, events },
                OperationCommandView::Commit {
                    writes: stored,
                    operation_state: leaf,
                    lane: patch,
                    result: ContinueOperationResultView::Result { value },
                    events: told,
                },
            ) => stored == writes && leaf == operation_state && patch == lane && value == result
                && told == events,
            (
                OperationCommandView::Finish { writes, record, lane, result, events },
                OperationCommandView::Finish {
                    writes: stored,
                    record: outcome,
                    lane: patch,
                    result: ContinueOperationResultView::Result { value },
                    events: told,
                },
            ) => stored == writes && outcome == record && patch == lane && value == result && told
                == events,
            _ => false,
        },
{
}

/// Asking an operation to stop marks its leaf and changes nothing else of it: taking the
/// mark back gives the leaf as it was.
pub proof fn law_a_mark_to_stop_can_be_taken_back(
    leaf: OperationStateView,
    control: Control,
    other: Control,
)
    ensures
        leaf.with_control(control).control() == control,
        leaf.with_control(control).with_control(leaf.control()) == leaf,
        leaf.with_control(control).with_control(other) == leaf.with_control(other),
        leaf.with_control(control).at() == leaf.at(),
{
}

/// The control of an operation is that of the scope in its leaf, and the operation was
/// asked to stop just if that says so. A structural leaf has its task.
pub proof fn law_a_leaf_carries_its_control_and_task(leaf: OperationStateView)
    ensures
        leaf.cancelled() <==> leaf.control() is CancelRequested,
        match leaf {
            OperationStateView::Starting { scope } => leaf.control() == scope.control
                && leaf.scope() == scope,
            OperationStateView::Checkpoint { scope, .. } => leaf.control() == scope.control
                && leaf.scope() == scope,
            OperationStateView::AssistantReady { scope, .. } => leaf.control() == scope.control
                && leaf.scope() == scope,
            OperationStateView::AssistantEffectPending { scope, .. } => leaf.control()
                == scope.control && leaf.scope() == scope,
            OperationStateView::AssistantRetryWait { scope, .. } => leaf.control()
                == scope.control && leaf.scope() == scope,
            OperationStateView::Tools { scope, .. } => leaf.control() == scope.control
                && leaf.scope() == scope,
            OperationStateView::DeferredSuspended { scope } => leaf.control() == scope.control,
            OperationStateView::DeferredEffectPending { scope, .. } => leaf.control()
                == scope.control,
            OperationStateView::SummaryDeciding { scope, task } => leaf.control() == scope.control
                && leaf.scope() == scope && leaf.task() == Some(task),
            OperationStateView::SummaryReady { scope, task, .. } => leaf.control()
                == scope.control && leaf.scope() == scope && leaf.task() == Some(task),
            OperationStateView::SummaryEffectPending { scope, task, .. } => leaf.control()
                == scope.control && leaf.scope() == scope && leaf.task() == Some(task),
            OperationStateView::SummaryRetryWait { scope, task, .. } => leaf.control()
                == scope.control && leaf.scope() == scope && leaf.task() == Some(task),
            OperationStateView::NavigationReadyToCommit { scope, .. } => leaf.control()
                == scope.control && leaf.scope() == scope,
        },
{
}

/// What a leaf is wound down to, once its operation was asked to stop, and what is done
/// about it while it runs.
pub proof fn law_each_leaf_has_its_procedure(leaf: OperationStateView)
    ensures
        leaf.control() is CancelRequested ==> procedure_for(leaf) is Reconcile,
        leaf.control() == Control::Running ==> match leaf {
            OperationStateView::Starting { .. } => procedure_for(leaf) is StartRun,
            OperationStateView::Checkpoint { .. } => procedure_for(leaf) is RunCheckpoint,
            OperationStateView::AssistantReady { .. } => procedure_for(leaf) is RunGeneration,
            OperationStateView::AssistantRetryWait { .. } => procedure_for(leaf) is RunRetryWait,
            OperationStateView::AssistantEffectPending { .. } => procedure_for(leaf)
                is RecoverGeneration,
            OperationStateView::Tools { .. } => procedure_for(leaf) is RunTools,
            OperationStateView::DeferredSuspended { .. } => procedure_for(leaf) is RunDeferred,
            OperationStateView::DeferredEffectPending { .. } => procedure_for(leaf) is RunDeferred,
            OperationStateView::SummaryDeciding { .. } => procedure_for(leaf)
                is RunStructuralDecision,
            OperationStateView::SummaryReady { .. } => procedure_for(leaf)
                is RunStructuralGeneration,
            OperationStateView::SummaryEffectPending { .. } => procedure_for(leaf)
                is RecoverStructuralGeneration,
            OperationStateView::SummaryRetryWait { .. } => procedure_for(leaf)
                is RunStructuralRetryWait,
            OperationStateView::NavigationReadyToCommit { .. } => procedure_for(leaf)
                is CommitNavigation,
        },
        leaf is AssistantEffectPending <==> reconcile_action(leaf) is RecoverEffect,
        leaf is Tools <==> reconcile_action(leaf) is WindDownTools,
        leaf is DeferredSuspended <==> reconcile_action(leaf) is CancelDeferredAndEnd,
        leaf is DeferredEffectPending <==> reconcile_action(leaf) is CancelDeferredAndRecover,
{
}

/// An operation that was asked to stop ends as aborted where its lane is; nothing is
/// appended. An operation that was not asked to stop cannot be ended that way.
pub proof fn law_a_stopped_operation_ends_as_aborted(
    lane: Seq<char>,
    operation_id: Seq<char>,
    tip_id: Option<Seq<char>>,
    current: OperationStateView,
    meta: OperationMetaView,
    scratch: Seq<AddressView>,
    ended_at: u64,
)
    ensures
        ({
            let decided = aborted_command(
                lane,
                operation_id,
                tip_id,
                current,
                meta,
                scratch,
                ended_at,
            );
            &&& current.control() == Control::Running ==> decided is Err
            &&& current.control() is CancelRequested && !(meta.intent is Run) ==> decided is Ok
            &&& current.control() is CancelRequested && current.task() is None ==> decided is Ok
            &&& decided matches Ok(command) ==> {
                &&& command matches OperationCommandView::Finish {
                    writes,
                    record,
                    lane: Some(patch),
                    result,
                    events,
                }
                &&& record == OperationResultRecordView {
                    operation_id: meta.operation_id,
                    kind: meta.intent,
                    status: TerminalStatus::Aborted,
                    error: None,
                    from_tip_id: meta.source_tip_id,
                    tip_id,
                    started_at: meta.started_at,
                    ended_at,
                }
                &&& result == (ProcedureResultView::Settled { outcome: record })
                &&& patch.tip_id == Some(tip_id)
                &&& patch.inbox is None
                &&& patch.configuration is None
                &&& forall|i: int|
                    0 <= i < writes.len() ==> (#[trigger] writes[i]) is DeleteValue || writes[i]
                        is DeleteList
                &&& events.len() > 0
                &&& events.last() == PlannedEventView::Ready(
                    match meta.intent {
                        OperationIntentView::Run { .. } => HarnessEventView::RunEnd {
                            lane,
                            run_id: operation_id,
                            from_tip_id: meta.source_tip_id,
                            tip_id,
                            ended_at,
                            status: TerminalStatus::Aborted,
                            error: None,
                            recovery: None,
                        },
                        OperationIntentView::Compaction { .. } => HarnessEventView::CompactionEnd {
                            lane,
                            run_id: operation_id,
                            reason: "manual"@,
                            ended_at,
                            status: TerminalStatus::Aborted,
                            entry_id: None,
                            error: None,
                            recovery: None,
                        },
                        OperationIntentView::Navigation { .. } => HarnessEventView::NavigationEnd {
                            lane,
                            run_id: operation_id,
                            from_tip_id: meta.source_tip_id,
                            tip_id,
                            ended_at,
                            status: TerminalStatus::Aborted,
                            error: None,
                            recovery: None,
                        },
                    },
                )
            }
        }),
{
}

/// A run whose configuration cannot be served fails with that error where its lane is.
pub proof fn law_a_run_without_its_configuration_fails(
    lane: Seq<char>,
    operation_id: Seq<char>,
    tip_id: Option<Seq<char>>,
    current: OperationStateView,
    meta: OperationMetaView,
    error: OperationErrorView,
    scratch: Seq<AddressView>,
    ended_at: u64,
)
    ensures
        ({
            &&& configuration_failure(
                lane,
                operation_id,
                tip_id,
                current,
                meta,
                error,
                scratch,
                ended_at,
            ) matches OperationCommandView::Finish {
                writes,
                record,
                lane: Some(patch),
                result,
                events,
            }
            &&& record == OperationResultRecordView {
                operation_id: meta.operation_id,
                kind: meta.intent,
                status: TerminalStatus::Failed,
                error: Some(error),
                from_tip_id: meta.source_tip_id,
                tip_id,
                started_at: meta.started_at,
                ended_at,
            }
            &&& result == (ProcedureResultView::Settled { outcome: record })
            &&& patch.tip_id == Some(tip_id)
            &&& patch.inbox is None
            &&& patch.configuration is None
            &&& forall|i: int|
                0 <= i < writes.len() ==> (#[trigger] writes[i]) is DeleteValue || writes[i]
                    is DeleteList
            &&& events == seq![
                PlannedEventView::Ready(
                    HarnessEventView::RunEnd {
                        lane,
                        run_id: operation_id,
                        from_tip_id: meta.source_tip_id,
                        tip_id,
                        ended_at,
                        status: TerminalStatus::Failed,
                        error: Some(error),
                        recovery: None,
                    },
                ),
            ]
        }),
{
}

/// What is cleaned up with an operation: its metadata and leaf, everything that storage
/// holds for it besides, the frames of a response that it collects, and the payloads of
/// results that are staged and not placed. Nothing else is touched.
pub proof fn law_nothing_of_an_operation_is_left_behind(
    operation_id: Seq<char>,
    leaf: OperationStateView,
    scratch: Seq<AddressView>,
    i: int,
    c: int,
)
    ensures
        ({
            let writes = cleanup(operation_id, leaf, scratch);
            &&& writes.contains(
                WriteView::DeleteValue { address: AddressView::OperationMeta { operation_id } },
            )
            &&& writes.contains(
                WriteView::DeleteValue { address: AddressView::OperationState { operation_id } },
            )
            &&& 0 <= i < scratch.len() ==> writes.contains(
                WriteView::DeleteValue { address: scratch[i] },
            )
            &&& match leaf {
                OperationStateView::AssistantEffectPending { response_entry_id, .. } => {
                    writes.contains(
                        WriteView::DeleteList {
                            address: AddressView::PendingAssistantFrames {
                                operation_id,
                                response_entry_id,
                            },
                        },
                    )
                },
                OperationStateView::DeferredEffectPending { response_entry_id, .. } => {
                    writes.contains(
                        WriteView::DeleteList {
                            address: AddressView::PendingAssistantFrames {
                                operation_id,
                                response_entry_id,
                            },
                        },
                    )
                },
                OperationStateView::Tools { batch, .. } => 0 <= c < batch.calls.len() ==> (
                batch.calls[c] matches ToolCallView::OutcomeReady { result_entry_id, .. }
                    ==> writes.contains(
                    WriteView::DeleteValue {
                        address: AddressView::PendingEntry { entry_id: result_entry_id },
                    },
                )),
                _ => true,
            }
            &&& forall|k: int|
                0 <= k < writes.len() ==> (#[trigger] writes[k] matches WriteView::DeleteList { .. })
                    || (writes[k] matches WriteView::DeleteValue { address } && (address == (
                AddressView::OperationMeta { operation_id }) || address == (
                AddressView::OperationState { operation_id }) || scratch.contains(address) || (
                leaf is Tools && address is PendingEntry)))
        }),
{
    let writes = cleanup(operation_id, leaf, scratch);
    assert(writes[0] == (WriteView::DeleteValue {
        address: AddressView::OperationMeta { operation_id },
    }));
    assert(writes[1] == (WriteView::DeleteValue {
        address: AddressView::OperationState { operation_id },
    }));
    if 0 <= i < scratch.len() {
        assert(writes[2 + i] == (WriteView::DeleteValue { address: scratch[i] }));
    }
    let n = scratch.len() as int;
    match leaf {
        OperationStateView::AssistantEffectPending { response_entry_id, .. } => {
            assert(writes[2 + n] is DeleteList);
        },
        OperationStateView::DeferredEffectPending { response_entry_id, .. } => {
            assert(writes[2 + n] is DeleteList);
        },
        OperationStateView::Tools { batch, .. } => {
            if 0 <= c < batch.calls.len() {
                if let ToolCallView::OutcomeReady { result_entry_id, .. } = batch.calls[c] {
                    lemma_staged(batch.calls, c);
                    let staged = crate::drive::terminal::staged_entries(batch.calls);
                    let at = staged.index_of(result_entry_id);
                    assert(writes[2 + n + at] == (WriteView::DeleteValue {
                        address: AddressView::PendingEntry { entry_id: result_entry_id },
                    }));
                }
            }
        },
        _ => {},
    }
    assert forall|k: int| 0 <= k < writes.len() implies (#[trigger] writes[k]
        matches WriteView::DeleteList { .. }) || (writes[k] matches WriteView::DeleteValue {
        address,
    } && (address == (AddressView::OperationMeta { operation_id }) || address == (
    AddressView::OperationState { operation_id }) || scratch.contains(address) || (leaf is Tools
        && address is PendingEntry))) by {
        if 2 <= k < 2 + n {
            assert(writes[k] == (WriteView::DeleteValue { address: scratch[k - 2] }));
        }
    }
}

proof fn lemma_staged(calls: Seq<ToolCallView>, c: int)
    requires
        0 <= c < calls.len(),
        calls[c] is OutcomeReady,
    ensures
        crate::drive::terminal::staged_entries(calls).contains(
            calls[c]->OutcomeReady_result_entry_id,
        ),
    decreases calls.len(),
{
    let rest = calls.drop_last();
    let before = crate::drive::terminal::staged_entries(rest);
    let all = crate::drive::terminal::staged_entries(calls);
    let id = calls[c]->OutcomeReady_result_entry_id;
    if c < rest.len() {
        lemma_staged(rest, c);
        assert(rest[c] == calls[c]);
        assert(all[before.index_of(id)] == id);
    } else if !before.contains(id) {
        assert(all[before.len() as int] == id);
    }
}

/// A poll asks for the answer that was put off, again under the same source and
/// configuration. It goes on under the ids reserved for it, and drops the frames of a
/// poll that was interrupted. A fresh poll is the next one; an interrupted poll is made
/// again under its number.
pub proof fn law_a_poll_asks_for_the_answer_that_was_put_off(
    lane: Seq<char>,
    operation_id: Seq<char>,
    deferred: OperationStateView,
    poll: u64,
    response_entry_id: Seq<char>,
    usage_id: Seq<char>,
    recovery: bool,
)
    requires
        deferred is DeferredSuspended || deferred is DeferredEffectPending,
    ensures
        ({
            let scope = match deferred {
                OperationStateView::DeferredSuspended { scope } => scope,
                OperationStateView::DeferredEffectPending { scope, .. } => scope,
                _ => arbitrary(),
            };
            &&& poll_intent(
                lane,
                operation_id,
                deferred,
                deferred,
                poll,
                response_entry_id,
                usage_id,
                recovery,
            ) matches OperationCommandView::Commit { writes, operation_state, lane: patch, result, events }
            &&& operation_state == (OperationStateView::DeferredEffectPending {
                scope: DeferredScopeView {
                    control: scope.control,
                    settings: scope.settings,
                    latest_assistant_entry_id: scope.latest_assistant_entry_id,
                    step_id: scope.step_id,
                    source_entry_id: scope.source_entry_id,
                    poll,
                    configuration: scope.configuration,
                    stream_options: scope.stream_options,
                },
                response_entry_id,
                usage_id,
            })
            &&& result == operation_state
            &&& patch is None
            &&& writes == match deferred {
                OperationStateView::DeferredEffectPending { response_entry_id, .. } => seq![
                    WriteView::DeleteList {
                        address: AddressView::PendingAssistantFrames {
                            operation_id,
                            response_entry_id,
                        },
                    },
                ],
                _ => Seq::empty(),
            }
            &&& events == seq![
                PlannedEventView::Ready(
                    HarnessEventView::RunResume {
                        lane,
                        run_id: operation_id,
                        recovery: Some(recovery),
                    },
                ),
                PlannedEventView::Ready(
                    HarnessEventView::TurnStart {
                        lane,
                        run_id: operation_id,
                        turn_id: scope.step_id + ":poll:"@ + decimal(poll as nat),
                        recovery: Some(recovery),
                    },
                ),
            ]
            &&& next_poll(deferred) == if deferred is DeferredSuspended {
                scope.poll + 1
            } else {
                scope.poll as int
            }
        }),
{
}

/// A poll takes its handle from the assistant message that put the answer off, if the
/// handle is of the provider, model and interface that were asked.
pub proof fn law_a_poll_uses_the_handle_of_its_source(
    source: Option<EntryView>,
    source_entry_id: Seq<char>,
    configuration: LaneConfigurationView,
    handle: DeferredHandleView,
)
    ensures
        source_handle(source, source_entry_id, configuration) == Ok::<
            DeferredHandleView,
            Seq<char>,
        >(handle) <==> (source matches Some(EntryView::Message(entry)) && (entry.message
            matches AgentMessageView::Assistant(message) && message.stop_reason
            == StopReason::Deferred && message.deferred == Some(handle) && handle.id.len() > 0
            && handle.provider == configuration.model.provider && handle.model_id
            == configuration.model.model_id && handle.api == message.api)),
{
}

/// An interrupted response keeps what came in of it and is an error; its usage is not
/// known. Where nothing came in it is empty, and of the model that was asked.
pub proof fn law_an_interrupted_response_keeps_what_came_in(
    identity: ModelIdentityView,
    partial: Option<AssistantMessageView>,
    cost: serde_json::Value,
    timestamp: u64,
)
    ensures
        ({
            let message = interrupted_response(identity, partial, cost, timestamp);
            &&& message.stop_reason == StopReason::Error
            &&& message.error_message is Some
            &&& message.usage.total_tokens == 0
            &&& message.usage.input == 0
            &&& message.usage.output == 0
            &&& message.usage.cache_read == 0
            &&& message.usage.cache_write == 0
            &&& message.usage.cost == cost
            &&& partial matches Some(partial) ==> message == AssistantMessageView {
                usage: message.usage,
                stop_reason: StopReason::Error,
                error_message: message.error_message,
                ..partial
            }
            &&& partial is None ==> message.content.len() == 0 && message.provider
                == identity.provider && message.model == identity.model_id && message.timestamp
                == timestamp && message.deferred is None
        }),
{
}

} // verus!
