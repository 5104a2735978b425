//! A lane from its first request to a result, with a restart after every commit.

use pi_runtime::command::{LaneCommand, OperationCommand};
use pi_runtime::drive::checkpoint::{
    ReservedMessage, finish_continuation, run_checkpoint, start_run,
};
use pi_runtime::drive::deferred::{
    PollGate, prepare_deferred_poll, publish_poll_intent, read_deferred_source_handle,
};
use pi_runtime::drive::dispatch::{Procedure, dispatch};
use pi_runtime::drive::finish::{FollowUp, finish_run_boundary, read_follow_up};
use pi_runtime::drive::generation::{publish_generation_intent, run_retry_wait};
use pi_runtime::drive::reconcile::{ReconcileAction, publish_aborted_terminal, reconcile_operation};
use pi_runtime::drive::response::{
    intent_context_window, intent_output_limit, intent_response_entry_id, intent_usage_id,
    publish_response, response_overflows,
};
use pi_runtime::drive::retry::{RetryGate, retry_gate};
use pi_runtime::drive::structural::{
    CompactionPreparation, FileOperations, overflow_recoverable, prepare_overflow_compaction,
};
use pi_runtime::drive::tool_placement::{
    PlacementItem, commit_placement, read_placement, read_tool_batch_source, tool_call_for,
    turn_end,
};
use pi_runtime::drive::tools::{
    outcome_from_finalized_call, publish_tool_intent, publish_tool_outcome, run_batch,
};
use pi_runtime::json::Json;
use pi_runtime::lane::accept::Answer;
use pi_runtime::lane::intake::accept_run;
use pi_runtime::lane::queue::{enqueue, request_abort};
use pi_runtime::lane::requests::{RunSettlement, drive_run_result, refuses_run};
use pi_runtime::lane::settle::settle_operation;
use pi_runtime::lane::snapshot::capture_lane_snapshot_inner;
use pi_runtime::model::event::{HarnessEvent, LaneSnapshot, RetryPolicy};
use pi_runtime::model::message::{
    AgentMessage, AgentToolResult, AssistantMessage, ContentBlock, DeferredHandle, StopReason,
    ToolCallBlock, ToolResultContent, ToolResultMessage, Usage, UserContent, UserMessage,
};
use pi_runtime::model::session::{
    CheckpointData, CompactionSettings, Continuation, Control, DurableLaneState, GenerationContext,
    InboxItem, InboxItemKind, LaneConfiguration, ModelIdentity, NormalizedRetryPolicy, Operation,
    OperationError, OperationIntent, OperationMeta, OperationResultRecord, OperationScope,
    OperationState, PendingEntry, QueueMode, ReplayPolicy, ResultBoundary, RunSettings,
    StreamOptions, TerminalStatus, ThinkingLevel, ToolCall, ToolExecution,
};
use pi_runtime::model::storage::{Address, CommitResult, DurableValue, Entry, SessionStats, Write};
use pi_runtime::names::Keyed;
use pi_runtime::reducer::reduce_lane_snapshot;
use pi_runtime::restore::{SessionRows, restore_session};
use pi_runtime::state::is_cancelled;
use pi_runtime::transcript::{emit, materialize_committed_entry};
use pi_runtime::types::{
    BoundaryFinishPending, CheckpointPlanned, Config, DriveOutcome, HarnessError, LaneRuntimeState,
    OperationAdmission, PendingPayload, PendingRow, ProcedureResult, QueueEntry, Resources,
    SystemPrompt, ToolDescriptor,
};

fn text(value: &str) -> String {
    value.to_string()
}

fn json(value: serde_json::Value) -> Json {
    Json { value }
}

fn json_text(value: &str) -> Json {
    json(serde_json::Value::String(value.to_string()))
}

fn json_object(members: &[(&str, serde_json::Value)]) -> Json {
    let mut object = serde_json::Map::new();
    for (key, value) in members {
        object.insert(key.to_string(), value.clone());
    }
    json(serde_json::Value::Object(object))
}

fn null() -> Json {
    json(serde_json::Value::Null)
}

fn model() -> ModelIdentity {
    ModelIdentity { provider: text("acme"), model_id: text("large") }
}

fn configuration() -> LaneConfiguration {
    LaneConfiguration {
        model: model(),
        thinking_level: ThinkingLevel::Low,
        active_tool_names: vec![text("read")],
    }
}

fn compaction_settings() -> CompactionSettings {
    CompactionSettings { enabled: true, reserve_tokens: 100, keep_recent_tokens: 50 }
}

fn settings() -> RunSettings {
    RunSettings {
        compaction: compaction_settings(),
        steering_mode: QueueMode::OneAtATime,
        follow_up_mode: QueueMode::OneAtATime,
        tool_execution: ToolExecution::Parallel,
    }
}

fn scope() -> OperationScope {
    OperationScope {
        control: Control::Running,
        settings: settings(),
        latest_assistant_entry_id: None,
    }
}

fn stream_options() -> StreamOptions {
    StreamOptions {
        deferred: None,
        headers: None,
        timeout_ms: Some(1_000),
        max_retries: None,
        max_retry_delay_ms: None,
    }
}

fn limits() -> NormalizedRetryPolicy {
    NormalizedRetryPolicy { max_attempts: 3, base_delay_ms: 200, max_agent_delay_ms: 5_000 }
}

fn retry_policy() -> RetryPolicy {
    RetryPolicy {
        enabled: true,
        max_retries: 2,
        base_delay_ms: 200,
        max_agent_delay_ms: Some(5_000),
    }
}

fn generation_context() -> GenerationContext {
    GenerationContext {
        step_id: text("step"),
        trigger_entry_id: text("trigger"),
        configuration: configuration(),
        stream_options: stream_options(),
        retry_policy: limits(),
        overflow_recovery_used: false,
    }
}

fn usage(total: u64) -> Usage {
    Usage {
        input: total,
        output: 0,
        cache_read: 0,
        cache_write: 0,
        cache_write_1h: None,
        reasoning: None,
        total_tokens: total,
        cost: null(),
    }
}

fn assistant(stop_reason: StopReason) -> AssistantMessage {
    AssistantMessage {
        content: Vec::new(),
        api: text("chat"),
        provider: text("acme"),
        model: text("large"),
        response_model: None,
        response_id: None,
        provider_thinking_level: None,
        usage: usage(12),
        stop_reason,
        deferred: None,
        error_message: None,
        raw_stop_reason: None,
        end_turn: None,
        timestamp: 5,
    }
}

fn handle() -> DeferredHandle {
    DeferredHandle {
        id: text("job"),
        provider: text("acme"),
        model_id: text("large"),
        api: text("chat"),
    }
}

fn call_block(id: &str, name: &str) -> ToolCallBlock {
    ToolCallBlock { id: text(id), name: text(name), arguments: json_text("given") }
}

fn calling(ids: &[&str]) -> AssistantMessage {
    let mut message = assistant(StopReason::ToolUse);
    message.content.push(ContentBlock::Other(json_text("thought")));
    for id in ids {
        message.content.push(ContentBlock::ToolCall(call_block(id, "read")));
    }
    message
}

fn user(content: &str) -> AgentMessage {
    AgentMessage::User(UserMessage { content: UserContent::Text(text(content)), timestamp: 3 })
}

fn tool_result(tool_call_id: &str, is_error: bool) -> ToolResultMessage {
    ToolResultMessage {
        tool_call_id: text(tool_call_id),
        tool_name: text("read"),
        content: vec![ToolResultContent::Text { text: text("done"), text_signature: None }],
        details: None,
        usage: None,
        added_tool_names: None,
        is_error,
        timestamp: 9,
    }
}

fn shown_result() -> AgentToolResult {
    AgentToolResult {
        content: vec![ToolResultContent::Text { text: text("done"), text_signature: None }],
        details: null(),
        usage: None,
    }
}

fn config() -> Config {
    Config {
        tools: vec![
            ToolDescriptor { name: text("read"), replay: Some(ReplayPolicy::Safe) },
            ToolDescriptor { name: text("write"), replay: None },
        ],
        resources: Resources { skills: Vec::new(), prompt_templates: Vec::new() },
        stream_options: stream_options(),
        retry_policy: retry_policy(),
        compaction: compaction_settings(),
        steering_mode: QueueMode::OneAtATime,
        follow_up_mode: QueueMode::OneAtATime,
        tool_execution: ToolExecution::Parallel,
        system_prompt: Some(SystemPrompt::Static(text("be brief"))),
        entry_projectors: vec![text("note")],
    }
}

fn run_meta() -> OperationMeta {
    OperationMeta {
        operation_id: text("op"),
        lane: text("main"),
        intent: OperationIntent::Run { prompt_entry_ids: vec![text("prompt")] },
        source_tip_id: Some(text("root")),
        started_at: 11,
    }
}

fn idle_lane() -> LaneRuntimeState {
    LaneRuntimeState {
        tip_id: Some(text("root")),
        configuration: configuration(),
        inbox: Vec::new(),
        last_operation_id: None,
        operation: None,
    }
}

fn busy_lane(state: OperationState) -> LaneRuntimeState {
    let mut lane = idle_lane();
    lane.operation = Some(Operation { meta: run_meta(), state });
    lane
}

fn queued(entry_id: &str, kind: InboxItemKind) -> InboxItem {
    InboxItem { entry_id: text(entry_id), kind }
}

fn message_row(entry_id: &str, content: &str) -> PendingRow {
    PendingRow {
        entry_id: text(entry_id),
        payload: PendingPayload::Decoded(PendingEntry::Message { payload: user(content) }),
    }
}

fn custom_row(entry_id: &str, custom_type: &str) -> PendingRow {
    PendingRow {
        entry_id: text(entry_id),
        payload: PendingPayload::Decoded(PendingEntry::Custom {
            custom_type: text(custom_type),
            payload: None,
        }),
    }
}

fn stats(message_count: u64) -> SessionStats {
    SessionStats { message_count, usage: usage(0) }
}

fn files() -> FileOperations {
    FileOperations { read: vec![text("a")], written: vec![text("b")], edited: Vec::new() }
}

fn compaction_plan() -> CompactionPreparation {
    CompactionPreparation {
        messages_to_summarize: vec![user("old")],
        turn_prefix_messages: Vec::new(),
        retained_tail: vec![user("new")],
        is_split_turn: false,
        tokens_before: 900,
        previous_summary: Some(text("before")),
        file_ops: files(),
        settings: compaction_settings(),
    }
}

fn planned_call(source_index: usize, result_entry_id: &str) -> ToolCall {
    ToolCall::Planned { source_index, result_entry_id: text(result_entry_id) }
}

fn running_call(source_index: usize, result_entry_id: &str) -> ToolCall {
    ToolCall::EffectPending {
        source_index,
        result_entry_id: text(result_entry_id),
        replay: ReplayPolicy::Safe,
    }
}

fn staged_call(source_index: usize, result_entry_id: &str, terminate: bool) -> ToolCall {
    ToolCall::OutcomeReady { source_index, result_entry_id: text(result_entry_id), terminate }
}

struct Store {
    values: Vec<(Address, DurableValue)>,
    entries: Vec<Entry>,
    seq: u64,
}

impl Store {
    fn new() -> Store {
        Store { values: Vec::new(), entries: Vec::new(), seq: 0 }
    }

    fn remove(&mut self, address: &Address) {
        self.values.retain(|row| row.0 != *address);
    }

    fn commit(&mut self, writes: &[Write]) -> CommitResult {
        let mut seqs = Vec::new();
        for write in writes {
            self.seq += 1;
            seqs.push(self.seq);
            match write {
                Write::InsertEntry(entry) => {
                    self.entries.push(materialize_committed_entry(entry, self.seq, 77));
                }
                Write::SetValue { address, value } => {
                    self.remove(address);
                    self.values.push((address.clone(), value.clone()));
                }
                Write::DeleteValue { address } => self.remove(address),
                _ => {}
            }
        }
        CommitResult { seqs, timestamp: 77, stats: stats(1) }
    }

    fn holds(&self, address: &Address) -> bool {
        self.values.iter().any(|row| row.0 == *address)
    }

    fn payloads(&self) -> Vec<PendingRow> {
        let mut rows = Vec::new();
        for (address, value) in &self.values {
            if let (Address::PendingEntry { entry_id }, DurableValue::Pending(pending)) =
                (address, value)
            {
                rows.push(PendingRow {
                    entry_id: entry_id.clone(),
                    payload: PendingPayload::Decoded(pending.clone()),
                });
            }
        }
        rows
    }

    fn session(&self) -> SessionRows {
        let mut rows = SessionRows {
            tips: Vec::new(),
            configurations: Vec::new(),
            states: Vec::new(),
            metas: Vec::new(),
            operation_states: Vec::new(),
        };
        for (address, value) in &self.values {
            match (address.clone(), value.clone()) {
                (Address::BranchTip { lane }, DurableValue::Tip(value)) => {
                    rows.tips.push(Keyed { key: lane, value })
                }
                (Address::LaneConfig { lane }, DurableValue::Configuration(value)) => {
                    rows.configurations.push(Keyed { key: lane, value })
                }
                (Address::LaneState { lane }, DurableValue::Lane(value)) => {
                    rows.states.push(Keyed { key: lane, value })
                }
                (Address::OperationMeta { operation_id }, DurableValue::Meta(value)) => {
                    rows.metas.push(Keyed { key: operation_id, value })
                }
                (Address::OperationState { operation_id }, DurableValue::State(value)) => {
                    rows.operation_states.push(Keyed { key: operation_id, value })
                }
                _ => {}
            }
        }
        rows
    }

    fn put(&mut self, lane: &str, state: &LaneRuntimeState) {
        let mut writes = vec![
            Write::SetValue {
                address: Address::BranchTip { lane: text(lane) },
                value: DurableValue::Tip(state.tip_id.clone()),
            },
            Write::SetValue {
                address: Address::LaneConfig { lane: text(lane) },
                value: DurableValue::Configuration(state.configuration.clone()),
            },
        ];
        let mut current_operation_id = None;
        if let Some(operation) = &state.operation {
            let operation_id = operation.meta.operation_id.clone();
            current_operation_id = Some(operation_id.clone());
            writes.push(Write::SetValue {
                address: Address::OperationMeta { operation_id: operation_id.clone() },
                value: DurableValue::Meta(operation.meta.clone()),
            });
            writes.push(Write::SetValue {
                address: Address::OperationState { operation_id },
                value: DurableValue::State(operation.state.clone()),
            });
        }
        writes.push(Write::SetValue {
            address: Address::LaneState { lane: text(lane) },
            value: DurableValue::Lane(DurableLaneState {
                current_operation_id,
                last_operation_id: state.last_operation_id.clone(),
                inbox: state.inbox.clone(),
            }),
        });
        self.commit(&writes);
    }

    fn carry_out<T>(
        &mut self,
        command: LaneCommand<T>,
    ) -> (LaneRuntimeState, T, Vec<HarnessEvent>) {
        match command {
            LaneCommand::Commit { writes, next, result, events } => {
                let commit = self.commit(&writes);
                let restored = restore_session(&self.session()).unwrap();
                assert_eq!(restored.len(), 1);
                assert_eq!(restored[0].key, text("main"));
                assert_eq!(restored[0].value, next);
                (next, result, emit(&events, &commit))
            }
            _ => panic!("nothing was committed"),
        }
    }
}

fn started(store: &mut Store) -> LaneRuntimeState {
    let prompt = vec![ReservedMessage { entry_id: text("prompt"), message: user("hello") }];
    let accepted = accept_run(
        &text("main"),
        &text("op"),
        11,
        &config(),
        idle_lane(),
        &Vec::new(),
        &prompt,
    )
    .unwrap();
    let (state, answer, events) = store.carry_out(accepted);
    assert_eq!(
        answer,
        Answer::Granted {
            value: OperationAdmission {
                operation_id: text("op"),
                kind: text("run"),
                started_at: 11
            }
        }
    );
    assert_eq!(events.len(), 4);
    assert_eq!(
        events[0],
        HarnessEvent::RunStart {
            lane: text("main"),
            run_id: text("op"),
            started_at: 11,
            recovery: None
        }
    );
    assert_eq!(state.tip_id, Some(text("prompt")));
    state
}

fn leaf(state: &LaneRuntimeState) -> OperationState {
    state.operation.as_ref().unwrap().state.clone()
}

fn meta_of(state: &LaneRuntimeState) -> OperationMeta {
    state.operation.as_ref().unwrap().meta.clone()
}

fn ready(store: &mut Store) -> LaneRuntimeState {
    let state = started(store);
    let command =
        start_run(&text("main"), &text("op"), &state, &leaf(&state), &Vec::new()).unwrap();
    let settled = settle_operation(&text("main"), state, command);
    let (state, result, _) = store.carry_out(settled);
    assert_eq!(result, ProcedureResult::Continue);
    assert_eq!(
        leaf(&state),
        OperationState::Checkpoint {
            scope: scope(),
            continuation: Continuation::NeedAssistant { overflow_recovery_used: false },
            trigger_entry_id: text("prompt"),
        }
    );
    let command = run_checkpoint(
        &text("main"),
        &text("op"),
        &config(),
        9_000,
        text("step"),
        &state,
        &leaf(&state),
        &store.payloads(),
        None,
    )
    .unwrap();
    let settled = settle_operation(&text("main"), state, command);
    let (state, result, _) = store.carry_out(settled);
    assert_eq!(result, CheckpointPlanned::Procedure(ProcedureResult::Continue));
    assert_eq!(leaf(&state).at(), "assistant.ready");
    state
}

fn awaiting(store: &mut Store) -> LaneRuntimeState {
    let state = ready(store);
    let command = publish_generation_intent(
        &text("main"),
        &text("op"),
        &leaf(&state),
        &leaf(&state),
        text("answer"),
        text("usage"),
        400,
        8_000,
    );
    let settled = settle_operation(&text("main"), state, command);
    let (state, pending, events) = store.carry_out(settled);
    assert_eq!(pending, leaf(&state));
    assert_eq!(
        events,
        vec![HarnessEvent::TurnStart {
            lane: text("main"),
            run_id: text("op"),
            turn_id: text("step"),
            recovery: None
        }]
    );
    assert_eq!(intent_response_entry_id(&pending), text("answer"));
    assert_eq!(intent_usage_id(&pending), text("usage"));
    assert_eq!(intent_context_window(&pending), Some(8_000));
    assert_eq!(intent_output_limit(&pending), 400);
    state
}

fn respond(
    store: &mut Store,
    state: LaneRuntimeState,
    response: &AssistantMessage,
    call_ids: Vec<String>,
) -> (LaneRuntimeState, ProcedureResult, Vec<HarnessEvent>) {
    let command = publish_response(
        &text("main"),
        &text("op"),
        &leaf(&state),
        &state,
        &leaf(&state),
        &meta_of(&state),
        response,
        false,
        false,
        None,
        true,
        500,
        1_000,
        &call_ids,
        Vec::new(),
        44,
    )
    .unwrap();
    let settled = settle_operation(&text("main"), state, command);
    store.carry_out(settled)
}

fn finish(
    store: &mut Store,
    state: LaneRuntimeState,
    follow_up: Option<FollowUp>,
) -> (LaneRuntimeState, ProcedureResult, Vec<HarnessEvent>) {
    let continuation = finish_continuation(&leaf(&state)).unwrap();
    let command = finish_run_boundary(
        &text("main"),
        &text("op"),
        &config(),
        9_000,
        text("next-step"),
        &state,
        &leaf(&state),
        &meta_of(&state),
        &store.payloads(),
        continuation,
        &Vec::new(),
        Vec::new(),
        follow_up,
        Vec::new(),
        55,
    )
    .unwrap();
    let settled = settle_operation(&text("main"), state, command);
    store.carry_out(settled)
}

#[test]
fn a_run_answers_its_prompt() {
    let mut store = Store::new();
    store.put("main", &idle_lane());
    let state = awaiting(&mut store);
    let (state, result, events) =
        respond(&mut store, state, &assistant(StopReason::Stop), Vec::new());
    assert_eq!(result, ProcedureResult::Continue);
    assert_eq!(state.tip_id, Some(text("answer")));
    assert_eq!(events.len(), 2);
    match &events[0] {
        HarnessEvent::EntryAdded { entry, recovery, .. } => {
            assert_eq!(entry.id(), &text("answer"));
            assert_eq!(*recovery, Some(false));
        }
        other => panic!("{other:?}"),
    }
    let planned = run_checkpoint(
        &text("main"),
        &text("op"),
        &config(),
        9_000,
        text("unused"),
        &state,
        &leaf(&state),
        &store.payloads(),
        None,
    )
    .unwrap();
    assert_eq!(
        planned,
        OperationCommand::Return {
            result: CheckpointPlanned::FinishPending(BoundaryFinishPending {
                entry_ids: Vec::new()
            })
        }
    );
    let (state, result, events) = finish(&mut store, state, None);
    let record = OperationResultRecord {
        operation_id: text("op"),
        kind: OperationIntent::Run { prompt_entry_ids: vec![text("prompt")] },
        status: TerminalStatus::Completed,
        error: None,
        from_tip_id: Some(text("root")),
        tip_id: Some(text("answer")),
        started_at: 11,
        ended_at: 55,
    };
    assert_eq!(result, ProcedureResult::Settled { outcome: record.clone() });
    assert_eq!(state.operation, None);
    assert_eq!(state.last_operation_id, Some(text("op")));
    assert_eq!(events.len(), 1);
    assert!(!store.holds(&Address::OperationMeta { operation_id: text("op") }));
    assert!(!store.holds(&Address::OperationState { operation_id: text("op") }));
    assert!(store.holds(&Address::OperationResult { operation_id: text("op") }));
    assert_eq!(store.entries.len(), 2);
    let driven = Answer::Granted { value: DriveOutcome::Settled { outcome: record.clone() } };
    assert_eq!(
        drive_run_result(&text("op"), driven),
        Ok(Answer::Granted { value: RunSettlement::Settled(record) })
    );
}

#[test]
fn an_error_is_tried_again_and_then_fails_the_run() {
    let mut store = Store::new();
    store.put("main", &idle_lane());
    let mut state = awaiting(&mut store);
    let mut failed = assistant(StopReason::Error);
    failed.error_message = Some(text("overloaded"));
    for attempt in 1..3u32 {
        let (waiting, result, _) = respond(&mut store, state, &failed, Vec::new());
        assert_eq!(result, ProcedureResult::Continue);
        match leaf(&waiting) {
            OperationState::AssistantRetryWait { next_attempt, not_before, error_message, .. } => {
                assert_eq!(next_attempt, attempt + 1);
                assert_eq!(not_before, 1_500);
                assert_eq!(error_message, text("overloaded"));
                assert_eq!(
                    retry_gate(1_400, not_before, true),
                    RetryGate::Sleep { wait_ms: 100 }
                );
                assert_eq!(retry_gate(1_400, not_before, false), RetryGate::Report);
                assert_eq!(retry_gate(1_500, not_before, true), RetryGate::Proceed);
            }
            other => panic!("{other:?}"),
        }
        let again = run_retry_wait(&text("main"), &text("op"), &leaf(&waiting), &leaf(&waiting));
        let settled = settle_operation(&text("main"), waiting, again);
        let (ready, _, events) = store.carry_out(settled);
        assert_eq!(
            events,
            vec![HarnessEvent::RetryStart {
                lane: text("main"),
                run_id: text("op"),
                step: text("step"),
                attempt: attempt + 1,
                recovery: None
            }]
        );
        let command = publish_generation_intent(
            &text("main"),
            &text("op"),
            &leaf(&ready),
            &leaf(&ready),
            text("answer"),
            text("usage"),
            400,
            8_000,
        );
        let settled = settle_operation(&text("main"), ready, command);
        let (pending, _, events) = store.carry_out(settled);
        assert!(events.is_empty());
        state = pending;
    }
    let (state, result, _) = respond(&mut store, state, &failed, Vec::new());
    match result {
        ProcedureResult::Settled { outcome } => {
            assert_eq!(outcome.status, TerminalStatus::Failed);
            assert_eq!(outcome.ended_at, 44);
            assert_eq!(
                outcome.error,
                Some(OperationError {
                    code: text("assistant_error"),
                    message: text("overloaded"),
                    details: None
                })
            );
        }
        other => panic!("{other:?}"),
    }
    assert_eq!(state.operation, None);
}

#[test]
fn a_steer_that_comes_in_is_answered_before_the_run_ends() {
    let mut store = Store::new();
    store.put("main", &idle_lane());
    let state = awaiting(&mut store);
    let rows = vec![message_row("steer", "and then?")];
    let command = enqueue(
        &text("main"),
        state,
        &rows,
        &text("steer"),
        InboxItemKind::Steer,
        user("and then?"),
    )
    .unwrap();
    let (state, entry, _) = store.carry_out(command);
    assert_eq!(entry, QueueEntry { entry_id: text("steer") });
    let (state, _, _) = respond(&mut store, state, &assistant(StopReason::Stop), Vec::new());
    let (state, result, events) = finish(&mut store, state, None);
    assert_eq!(result, ProcedureResult::Continue);
    assert!(state.inbox.is_empty());
    assert_eq!(state.tip_id, Some(text("steer")));
    match leaf(&state) {
        OperationState::AssistantReady { generation_context, next_attempt, .. } => {
            assert_eq!(generation_context.trigger_entry_id, text("steer"));
            assert_eq!(generation_context.step_id, text("next-step"));
            assert_eq!(next_attempt, 1);
        }
        other => panic!("{other:?}"),
    }
    assert_eq!(
        events.last(),
        Some(&HarnessEvent::QueueUpdate {
            lane: text("main"),
            queues: Vec::new(),
            recovery: None
        })
    );
}

#[test]
fn a_follow_up_of_a_hook_goes_on_with_the_run() {
    let mut store = Store::new();
    store.put("main", &idle_lane());
    let state = awaiting(&mut store);
    let (state, _, _) = respond(&mut store, state, &assistant(StopReason::Stop), Vec::new());
    let follow_up = FollowUp { entry_id: text("more"), message: user("go on") };
    let (state, result, _) = finish(&mut store, state, Some(follow_up));
    assert_eq!(result, ProcedureResult::Continue);
    assert_eq!(state.tip_id, Some(text("more")));
    assert_eq!(leaf(&state).at(), "assistant.ready");
}

#[test]
fn tool_calls_run_and_their_results_enter_the_transcript_in_order() {
    let mut store = Store::new();
    store.put("main", &idle_lane());
    let state = awaiting(&mut store);
    let message = calling(&["c1", "c2"]);
    let call_ids = vec![text("r1"), text("r2")];
    let (mut state, _, _) = respond(&mut store, state, &message, call_ids);
    assert_eq!(run_batch(&leaf(&state)).calls, vec![planned_call(1, "r1"), planned_call(2, "r2")]);
    let sources =
        read_tool_batch_source(store.entries.last(), &run_batch(&leaf(&state)).calls).unwrap();
    for (place, id, result_id) in [(2, "c2", "r2"), (1, "c1", "r1")] {
        let planned = planned_call(place, result_id);
        let command = publish_tool_intent(
            &text("main"),
            &text("op"),
            &text("step"),
            &leaf(&state),
            &planned,
            &tool_call_for(&sources, &planned),
            json_text("args"),
            ReplayPolicy::Safe,
            false,
        );
        let settled = settle_operation(&text("main"), state, command);
        let (running, effect, events) = store.carry_out(settled);
        assert_eq!(effect, running_call(place, result_id));
        assert_eq!(events.len(), 1);
        assert!(store.holds(&Address::OperationToolArgs {
            operation_id: text("op"),
            turn_id: text("step"),
            source_index: place
        }));
        let outcome =
            outcome_from_finalized_call(call_block(id, "read"), tool_result(id, false), false);
        let command = publish_tool_outcome(
            &text("main"),
            &text("op"),
            &text("step"),
            &leaf(&running),
            &effect,
            &outcome,
            shown_result(),
            Vec::new(),
            false,
        );
        let settled = settle_operation(&text("main"), running, command);
        let (staged, _, _) = store.carry_out(settled);
        assert!(store.holds(&Address::PendingEntry { entry_id: text(result_id) }));
        state = staged;
        if place == 2 {
            let none = read_placement(
                &sources,
                &store.payloads(),
                &Vec::new(),
                &run_batch(&leaf(&state)).calls,
            );
            assert_eq!(none, Ok(None));
        }
    }
    let read = read_placement(
        &sources,
        &store.payloads(),
        &Vec::new(),
        &run_batch(&leaf(&state)).calls,
    )
    .unwrap()
    .unwrap();
    assert_eq!(
        read.turn_results,
        Some(vec![tool_result("c1", false), tool_result("c2", false)])
    );
    let command = commit_placement(
        &text("main"),
        &state,
        &leaf(&state),
        &read.items,
        &vec![None, None],
        vec![Address::OperationToolArgs {
            operation_id: text("op"),
            turn_id: text("step"),
            source_index: 1,
        }],
    );
    let settled = settle_operation(&text("main"), state, command);
    let (state, complete, _) = store.carry_out(settled);
    assert!(complete);
    assert_eq!(state.tip_id, Some(text("r2")));
    let ids: Vec<String> = store.entries.iter().map(|entry| entry.id().clone()).collect();
    assert_eq!(ids, vec![text("prompt"), text("answer"), text("r1"), text("r2")]);
    assert_eq!(
        leaf(&state),
        OperationState::Checkpoint {
            scope: OperationScope {
                control: Control::Running,
                settings: settings(),
                latest_assistant_entry_id: Some(text("answer")),
            },
            continuation: Continuation::NeedAssistant { overflow_recovery_used: false },
            trigger_entry_id: text("r2"),
        }
    );
    assert!(!store.holds(&Address::PendingEntry { entry_id: text("r1") }));
    let end = turn_end(
        &text("main"),
        &text("op"),
        &text("step"),
        &sources,
        &read.turn_results,
        complete,
        false,
    );
    assert!(matches!(end, Some(HarnessEvent::TurnEnd { .. })));
}

#[test]
fn a_stopped_run_is_wound_down() {
    let mut store = Store::new();
    store.put("main", &idle_lane());
    let state = awaiting(&mut store);
    let stop =
        request_abort(&text("main"), &text("op"), state, &store.payloads(), 7).unwrap();
    let (state, answer, _) = store.carry_out(stop);
    match answer {
        Answer::Granted { value } => {
            assert!(value.newly_requested);
            assert!(value.steer.is_empty());
        }
        other => panic!("{other:?}"),
    }
    assert!(is_cancelled(&leaf(&state)));
    assert_eq!(dispatch(&leaf(&state)), Procedure::Reconcile);
    assert_eq!(reconcile_operation(&leaf(&state)), ReconcileAction::RecoverEffect);
    let command = publish_response(
        &text("main"),
        &text("op"),
        &leaf(&state),
        &state,
        &leaf(&state),
        &meta_of(&state),
        &assistant(StopReason::Stop),
        true,
        false,
        None,
        false,
        0,
        0,
        &Vec::new(),
        Vec::new(),
        60,
    )
    .unwrap();
    let settled = settle_operation(&text("main"), state, command);
    let (state, _, events) = store.carry_out(settled);
    match &events[0] {
        HarnessEvent::EntryAdded { entry: Entry::Message(entry), .. } => match &entry.message {
            AgentMessage::Assistant(message) => {
                assert_eq!(message.stop_reason, StopReason::Aborted);
                assert_eq!(message.error_message, Some(text("Assistant request was cancelled")));
            }
            other => panic!("{other:?}"),
        },
        other => panic!("{other:?}"),
    }
    assert_eq!(reconcile_operation(&leaf(&state)), ReconcileAction::End);
    let command = publish_aborted_terminal(
        &text("main"),
        &text("op"),
        &state,
        &leaf(&state),
        &meta_of(&state),
        Vec::new(),
        61,
    )
    .unwrap();
    let settled = settle_operation(&text("main"), state, command);
    let (state, result, _) = store.carry_out(settled);
    match result {
        ProcedureResult::Settled { outcome } => {
            assert_eq!(outcome.status, TerminalStatus::Aborted);
            assert_eq!(outcome.tip_id, Some(text("answer")));
        }
        other => panic!("{other:?}"),
    }
    assert_eq!(state.operation, None);
}

#[test]
fn stopping_twice_asks_once() {
    let mut store = Store::new();
    store.put("main", &idle_lane());
    let state = awaiting(&mut store);
    let stop = request_abort(&text("main"), &text("op"), state, &Vec::new(), 7).unwrap();
    let (state, _, _) = store.carry_out(stop);
    match request_abort(&text("main"), &text("op"), state, &Vec::new(), 8).unwrap() {
        LaneCommand::Return { result: Answer::Granted { value } } => {
            assert!(!value.newly_requested)
        }
        other => panic!("{other:?}"),
    }
}

#[test]
fn a_deferred_answer_suspends_the_run_until_it_is_polled() {
    let mut store = Store::new();
    store.put("main", &idle_lane());
    let state = awaiting(&mut store);
    let mut later = assistant(StopReason::Deferred);
    later.deferred = Some(handle());
    let (state, _, _) = respond(&mut store, state, &later, Vec::new());
    assert_eq!(dispatch(&leaf(&state)), Procedure::RunDeferred);
    let source = read_deferred_source_handle(
        store.entries.last(),
        &text("answer"),
        &configuration(),
    );
    assert_eq!(source, Ok(handle()));
    assert_eq!(prepare_deferred_poll(&leaf(&state), 0, true), PollGate::Wait);
    assert_eq!(prepare_deferred_poll(&leaf(&state), 1, true), PollGate::Poll { poll: 1 });
    let command = publish_poll_intent(
        &text("main"),
        &text("op"),
        &leaf(&state),
        &leaf(&state),
        1,
        text("polled"),
        text("poll-usage"),
        false,
    );
    let settled = settle_operation(&text("main"), state, command);
    let (state, pending, _) = store.carry_out(settled);
    assert_eq!(pending.at(), "deferred.effect_pending");
    let (state, _, _) = respond(&mut store, state, &assistant(StopReason::Stop), Vec::new());
    assert_eq!(state.tip_id, Some(text("polled")));
    assert_eq!(leaf(&state).at(), "checkpoint");
}

#[test]
fn an_overflow_is_compacted_away_once() {
    let mut store = Store::new();
    store.put("main", &idle_lane());
    let state = awaiting(&mut store);
    assert!(response_overflows(&leaf(&state), false, true));
    assert!(!response_overflows(&leaf(&state), false, false));
    assert!(overflow_recoverable(&leaf(&state)));
    let due = prepare_overflow_compaction(&Some(compaction_plan()), text("task"));
    let command = publish_response(
        &text("main"),
        &text("op"),
        &leaf(&state),
        &state,
        &leaf(&state),
        &meta_of(&state),
        &assistant(StopReason::Length),
        false,
        true,
        due,
        false,
        0,
        0,
        &Vec::new(),
        Vec::new(),
        44,
    )
    .unwrap();
    let settled = settle_operation(&text("main"), state, command);
    let (state, result, _) = store.carry_out(settled);
    assert_eq!(result, ProcedureResult::Continue);
    assert!(store.holds(&Address::OperationPreparation {
        operation_id: text("op"),
        task_id: text("task")
    }));
    match leaf(&state) {
        OperationState::SummaryDeciding { task, .. } => {
            assert_eq!(task.reason, Some(text("overflow")));
            assert_eq!(
                task.boundary,
                ResultBoundary::ResumeCheckpoint {
                    resume_after: CheckpointData {
                        continuation: Continuation::NeedAssistant {
                            overflow_recovery_used: true
                        },
                        trigger_entry_id: text("prompt"),
                    }
                }
            );
        }
        other => panic!("{other:?}"),
    }
}

#[test]
fn a_busy_lane_refuses_another_run() {
    let state = busy_lane(OperationState::Starting { scope: scope() });
    match accept_run(&text("main"), &text("two"), 1, &config(), state, &Vec::new(), &Vec::new())
        .unwrap()
    {
        LaneCommand::Return { result: Answer::Refused { error } } => {
            assert!(refuses_run(&error));
            assert_eq!(
                error,
                HarnessError::LaneBusy {
                    lane: text("main"),
                    operation_id: text("op"),
                    kind: text("run"),
                    message: text("Lane \"main\" already has an active operation"),
                }
            );
        }
        other => panic!("{other:?}"),
    }
}

#[test]
fn a_run_needs_something_to_answer() {
    let mut state = idle_lane();
    state.inbox = vec![queued("w", InboxItemKind::Write)];
    let rows = vec![custom_row("w", "note")];
    match accept_run(&text("main"), &text("op"), 1, &config(), state, &rows, &Vec::new()).unwrap()
    {
        LaneCommand::Return { result: Answer::Refused { error } } => assert_eq!(
            error,
            HarnessError::InvalidMessage {
                lane: text("main"),
                reason: text("empty"),
                message: text("Acceptance must append at least one message"),
            }
        ),
        other => panic!("{other:?}"),
    }
}

#[test]
fn a_hook_asks_for_a_follow_up_by_text() {
    let hook = json_object(&[("followUp", serde_json::Value::String(text("go on")))]);
    assert_eq!(
        read_follow_up(&hook, text("more"), 3),
        Some(FollowUp { entry_id: text("more"), message: user("go on") })
    );
    let silent = json_object(&[("followUp", serde_json::Value::Bool(true))]);
    assert_eq!(read_follow_up(&silent, text("more"), 3), None);
}

fn follow(snapshot: &mut LaneSnapshot, events: &[HarnessEvent], state: &LaneRuntimeState) {
    for event in events {
        assert_eq!(reduce_lane_snapshot(snapshot, event), None);
    }
    assert_eq!(snapshot.tip_id, state.tip_id);
    assert_eq!(snapshot.configuration, state.configuration);
    assert_eq!(
        snapshot.operation.as_ref().map(|operation| operation.id.clone()),
        state.operation.as_ref().map(|operation| operation.meta.operation_id.clone())
    );
}

#[test]
fn an_observer_follows_a_run_by_its_events() {
    let mut store = Store::new();
    store.put("main", &idle_lane());
    let mut snapshot = capture_lane_snapshot_inner(
        &text("main"),
        &idle_lane(),
        &Vec::new(),
        &Vec::new(),
        None,
        stats(1),
        None,
        None,
        &Vec::new(),
        false,
    )
    .unwrap();
    let prompt = vec![ReservedMessage { entry_id: text("prompt"), message: user("hello") }];
    let accepted = accept_run(
        &text("main"),
        &text("op"),
        11,
        &config(),
        idle_lane(),
        &Vec::new(),
        &prompt,
    )
    .unwrap();
    let (state, _, events) = store.carry_out(accepted);
    follow(&mut snapshot, &events, &state);
    assert_eq!(snapshot.operation.as_ref().unwrap().from_tip_id, Some(text("root")));
    let reserved = vec![ReservedMessage { entry_id: text("extra"), message: user("too") }];
    let command = start_run(&text("main"), &text("op"), &state, &leaf(&state), &reserved).unwrap();
    let (state, _, events) = store.carry_out(settle_operation(&text("main"), state, command));
    follow(&mut snapshot, &events, &state);
    assert_eq!(snapshot.tip_id, Some(text("extra")));
    let command = run_checkpoint(
        &text("main"),
        &text("op"),
        &config(),
        9_000,
        text("step"),
        &state,
        &leaf(&state),
        &store.payloads(),
        None,
    )
    .unwrap();
    let (state, _, events) = store.carry_out(settle_operation(&text("main"), state, command));
    follow(&mut snapshot, &events, &state);
    let command = publish_generation_intent(
        &text("main"),
        &text("op"),
        &leaf(&state),
        &leaf(&state),
        text("answer"),
        text("usage"),
        400,
        8_000,
    );
    let (state, _, events) = store.carry_out(settle_operation(&text("main"), state, command));
    follow(&mut snapshot, &events, &state);
    let (state, _, events) =
        respond(&mut store, state, &calling(&["c1"]), vec![text("result")]);
    follow(&mut snapshot, &events, &state);
    let mut message = tool_result("c1", false);
    message.added_tool_names = Some(vec![text("write")]);
    let items = vec![PlacementItem { call: staged_call(1, "result", true), message }];
    let command = commit_placement(
        &text("main"),
        &state,
        &leaf(&state),
        &items,
        &vec![Some(text("spent"))],
        Vec::new(),
    );
    let (state, complete, events) =
        store.carry_out(settle_operation(&text("main"), state, command));
    assert!(complete);
    follow(&mut snapshot, &events, &state);
    assert!(snapshot.configuration.active_tool_names.contains(&text("write")));
    let (state, _, events) = finish(&mut store, state, None);
    follow(&mut snapshot, &events, &state);
    assert_eq!(snapshot.operation, None);
    assert_eq!(snapshot.tip_id, Some(text("result")));
    assert_eq!(snapshot.last_result.unwrap().status, TerminalStatus::Completed);
}
