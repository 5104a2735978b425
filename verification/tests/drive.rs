//! Boundaries, responses and the other steps of a run.

use pi_runtime::command::{LaneCommand, OperationCommand};
use pi_runtime::drive::boundary::{
    assistant_ready_at_boundary, boundary_placement_events, normalized_retry_policy,
    plan_boundary_inbox,
};
use pi_runtime::drive::checkpoint::{
    ReservedMessage, check_injected, continuation_of, finish_continuation, injected_values,
    run_checkpoint, run_prompt, start_run,
};
use pi_runtime::drive::deferred::{
    PollGate, poll_options, prepare_deferred_poll, publish_poll_intent, read_deferred_source_handle,
    recovers_poll, waiting_deferred,
};
use pi_runtime::drive::dispatch::{
    DriveStep, Procedure, current_operation, dispatch, drive_operation, intent_kind,
};
use pi_runtime::drive::finish::{FollowUp, finish_run_boundary};
use pi_runtime::drive::generation::{
    configuration_error, hook_text, prepare_generation, request_session_id, resolve_system_prompt,
    stream_options_patch, transformed_prompt,
};
use pi_runtime::drive::reconcile::{ReconcileAction, reconcile_operation};
use pi_runtime::drive::recovery::{
    announce_recovered, effect_identity, interrupted_assistant_message, zero_usage,
};
use pi_runtime::drive::response::{
    Disposition, ResponseSource, Settlement, deferred_handle_is_valid,
    intent_overflow_recovery_used, intent_response_entry_id, normalize_aborted, normalize_error,
    poll_turn_id, provider_error, publish_configuration_failure, reserve_calls, settle_response,
    tool_call_indices, uuid_v7_timestamp,
};
use pi_runtime::drive::retry::{retry_not_before, retry_terms, waiting_retry};
use pi_runtime::drive::structural::{
    CompactionPreparation, FileOperations, prepare_compaction_threshold,
};
use pi_runtime::drive::terminal::{operation_cleanup_writes, operation_result_record};
use pi_runtime::inbox::read_pending_messages;
use pi_runtime::json::Json;
use pi_runtime::lane::settle::settle_operation;
use pi_runtime::model::event::{HarnessEvent, RetryPolicy};
use pi_runtime::model::message::{
    AgentMessage, AssistantMessage, ContentBlock, DeferredHandle, StopReason, ToolCallBlock, Usage,
    UserContent, UserMessage,
};
use pi_runtime::model::session::{
    CompactionSettings, Continuation, Control, DeferredScope, DurableLaneState, ErrorDetails,
    GenerationContext, InboxItem, InboxItemKind, LaneConfiguration, ModelIdentity,
    NormalizedRetryPolicy, Operation, OperationError, OperationIntent, OperationMeta,
    OperationScope, OperationState, PendingEntry, QueueMode, ReplayPolicy, ResultBoundary,
    RunSettings, StreamOptions, SummaryContext, SummaryTask, TerminalStatus, ThinkingLevel,
    ToolBatch, ToolCall, ToolExecution,
};
use pi_runtime::model::storage::{
    Address, CommitResult, DurableValue, Entry, EntryBase, MessageEntry, NewEntry, SessionStats,
    Write,
};
use pi_runtime::names::Keyed;
use pi_runtime::restore::{SessionRows, restore_session};
use pi_runtime::state::deferred_configuration;
use pi_runtime::transcript::{emit, materialize_committed_entry};
use pi_runtime::types::{
    BoundaryPlacement, Config, DriveOutcome, LaneRuntimeState, PendingPayload, PendingRow,
    ProcedureResult, Resources, SystemPrompt, ToolDescriptor,
};

fn text(value: &str) -> String {
    value.to_string()
}

fn json(value: serde_json::Value) -> Json {
    Json { value }
}

fn json_text(value: &str) -> Json {
    json(serde_json::Value::String(value.to_string()))
}

fn json_object(members: &[(&str, serde_json::Value)]) -> Json {
    let mut object = serde_json::Map::new();
    for (key, value) in members {
        object.insert(key.to_string(), value.clone());
    }
    json(serde_json::Value::Object(object))
}

fn null() -> Json {
    json(serde_json::Value::Null)
}

fn model() -> ModelIdentity {
    ModelIdentity { provider: text("acme"), model_id: text("large") }
}

fn configuration() -> LaneConfiguration {
    LaneConfiguration {
        model: model(),
        thinking_level: ThinkingLevel::Low,
        active_tool_names: vec![text("read")],
    }
}

fn compaction_settings() -> CompactionSettings {
    CompactionSettings { enabled: true, reserve_tokens: 100, keep_recent_tokens: 50 }
}

fn settings() -> RunSettings {
    RunSettings {
        compaction: compaction_settings(),
        steering_mode: QueueMode::OneAtATime,
        follow_up_mode: QueueMode::OneAtATime,
        tool_execution: ToolExecution::Parallel,
    }
}

fn scope() -> OperationScope {
    OperationScope {
        control: Control::Running,
        settings: settings(),
        latest_assistant_entry_id: None,
    }
}

fn stopped_scope() -> OperationScope {
    OperationScope {
        control: Control::CancelRequested { requested_at: 7 },
        settings: settings(),
        latest_assistant_entry_id: None,
    }
}

fn stream_options() -> StreamOptions {
    StreamOptions {
        deferred: None,
        headers: None,
        timeout_ms: Some(1_000),
        max_retries: None,
        max_retry_delay_ms: None,
    }
}

fn undeferred_options() -> StreamOptions {
    let mut options = stream_options();
    options.deferred = Some(json(serde_json::Value::Bool(false)));
    options
}

fn limits() -> NormalizedRetryPolicy {
    NormalizedRetryPolicy { max_attempts: 3, base_delay_ms: 200, max_agent_delay_ms: 5_000 }
}

fn retry_policy() -> RetryPolicy {
    RetryPolicy {
        enabled: true,
        max_retries: 2,
        base_delay_ms: 200,
        max_agent_delay_ms: Some(5_000),
    }
}

fn generation_context() -> GenerationContext {
    GenerationContext {
        step_id: text("step"),
        trigger_entry_id: text("trigger"),
        configuration: configuration(),
        stream_options: stream_options(),
        retry_policy: limits(),
        overflow_recovery_used: false,
    }
}

fn generating(scope: OperationScope, attempt: u32) -> OperationState {
    OperationState::AssistantEffectPending {
        scope,
        generation_context: generation_context(),
        attempt,
        response_entry_id: text("answer"),
        usage_id: text("usage"),
        intended_output_limit: 400,
        context_window: 8_000,
    }
}

fn deferred_scope_of(control: Control) -> DeferredScope {
    DeferredScope {
        control,
        settings: settings(),
        latest_assistant_entry_id: Some(text("handle-entry")),
        step_id: text("step"),
        source_entry_id: text("handle-entry"),
        poll: 4,
        configuration: configuration(),
        stream_options: stream_options(),
    }
}

fn polling(control: Control) -> OperationState {
    OperationState::DeferredEffectPending {
        scope: deferred_scope_of(control),
        response_entry_id: text("polled"),
        usage_id: text("poll-usage"),
    }
}

fn usage(total: u64) -> Usage {
    Usage {
        input: total,
        output: 0,
        cache_read: 0,
        cache_write: 0,
        cache_write_1h: None,
        reasoning: None,
        total_tokens: total,
        cost: null(),
    }
}

fn assistant(stop_reason: StopReason) -> AssistantMessage {
    AssistantMessage {
        content: Vec::new(),
        api: text("chat"),
        provider: text("acme"),
        model: text("large"),
        response_model: None,
        response_id: None,
        provider_thinking_level: None,
        usage: usage(12),
        stop_reason,
        deferred: None,
        error_message: None,
        raw_stop_reason: None,
        end_turn: None,
        timestamp: 5,
    }
}

fn handle() -> DeferredHandle {
    DeferredHandle {
        id: text("job"),
        provider: text("acme"),
        model_id: text("large"),
        api: text("chat"),
    }
}

fn call_block(id: &str, name: &str) -> ToolCallBlock {
    ToolCallBlock { id: text(id), name: text(name), arguments: json_text("given") }
}

fn calling(ids: &[&str]) -> AssistantMessage {
    let mut message = assistant(StopReason::ToolUse);
    message.content.push(ContentBlock::Other(json_text("thought")));
    for id in ids {
        message.content.push(ContentBlock::ToolCall(call_block(id, "read")));
    }
    message
}

fn user(content: &str) -> AgentMessage {
    AgentMessage::User(UserMessage { content: UserContent::Text(text(content)), timestamp: 3 })
}

fn entry_base(id: &str, parent_id: Option<&str>) -> EntryBase {
    EntryBase {
        id: text(id),
        parent_id: match parent_id {
            Some(parent_id) => Some(text(parent_id)),
            None => None,
        },
        seq: 1,
        timestamp: 2,
        custom_type: None,
    }
}

fn message_entry(id: &str, parent_id: Option<&str>, message: AgentMessage) -> Entry {
    Entry::Message(MessageEntry { base: entry_base(id, parent_id), message, terminate: None })
}

fn config() -> Config {
    Config {
        tools: vec![
            ToolDescriptor { name: text("read"), replay: Some(ReplayPolicy::Safe) },
            ToolDescriptor { name: text("write"), replay: None },
        ],
        resources: Resources { skills: Vec::new(), prompt_templates: Vec::new() },
        stream_options: stream_options(),
        retry_policy: retry_policy(),
        compaction: compaction_settings(),
        steering_mode: QueueMode::OneAtATime,
        follow_up_mode: QueueMode::OneAtATime,
        tool_execution: ToolExecution::Parallel,
        system_prompt: Some(SystemPrompt::Static(text("be brief"))),
        entry_projectors: vec![text("note")],
    }
}

fn run_meta() -> OperationMeta {
    OperationMeta {
        operation_id: text("op"),
        lane: text("main"),
        intent: OperationIntent::Run { prompt_entry_ids: vec![text("prompt")] },
        source_tip_id: Some(text("root")),
        started_at: 11,
    }
}

fn idle_lane() -> LaneRuntimeState {
    LaneRuntimeState {
        tip_id: Some(text("root")),
        configuration: configuration(),
        inbox: Vec::new(),
        last_operation_id: None,
        operation: None,
    }
}

fn busy_lane(state: OperationState) -> LaneRuntimeState {
    let mut lane = idle_lane();
    lane.operation = Some(Operation { meta: run_meta(), state });
    lane
}

fn queued(entry_id: &str, kind: InboxItemKind) -> InboxItem {
    InboxItem { entry_id: text(entry_id), kind }
}

fn message_row(entry_id: &str, content: &str) -> PendingRow {
    PendingRow {
        entry_id: text(entry_id),
        payload: PendingPayload::Decoded(PendingEntry::Message { payload: user(content) }),
    }
}

fn custom_row(entry_id: &str, custom_type: &str) -> PendingRow {
    PendingRow {
        entry_id: text(entry_id),
        payload: PendingPayload::Decoded(PendingEntry::Custom {
            custom_type: text(custom_type),
            payload: None,
        }),
    }
}

fn stats(message_count: u64) -> SessionStats {
    SessionStats { message_count, usage: usage(0) }
}

fn commit_of(seqs: &[u64]) -> CommitResult {
    CommitResult { seqs: seqs.to_vec(), timestamp: 77, stats: stats(1) }
}

fn structural_task(boundary: ResultBoundary) -> SummaryTask {
    SummaryTask {
        task_id: text("task"),
        reason: Some(text("manual")),
        custom_instructions: None,
        boundary,
    }
}

fn summary_context_of_task() -> SummaryContext {
    SummaryContext {
        result_entry_id: text("summary"),
        configuration: configuration(),
        stream_options: undeferred_options(),
        retry_policy: limits(),
    }
}

fn summarizing(attempt: u32) -> OperationState {
    OperationState::SummaryEffectPending {
        scope: scope(),
        task: structural_task(ResultBoundary::Finish),
        summary_context: summary_context_of_task(),
        attempt,
        request: None,
        usage_ids: Vec::new(),
    }
}

fn files() -> FileOperations {
    FileOperations { read: vec![text("a")], written: vec![text("b")], edited: Vec::new() }
}

fn compaction_plan() -> CompactionPreparation {
    CompactionPreparation {
        messages_to_summarize: vec![user("old")],
        turn_prefix_messages: Vec::new(),
        retained_tail: vec![user("new")],
        is_split_turn: false,
        tokens_before: 900,
        previous_summary: Some(text("before")),
        file_ops: files(),
        settings: compaction_settings(),
    }
}

fn planned_call(source_index: usize, result_entry_id: &str) -> ToolCall {
    ToolCall::Planned { source_index, result_entry_id: text(result_entry_id) }
}

fn staged_call(source_index: usize, result_entry_id: &str, terminate: bool) -> ToolCall {
    ToolCall::OutcomeReady { source_index, result_entry_id: text(result_entry_id), terminate }
}

fn batch(calls: Vec<ToolCall>) -> ToolBatch {
    ToolBatch {
        assistant_entry_id: text("answer"),
        configuration: configuration(),
        turn_id: text("turn"),
        calls,
    }
}

fn running_tools(calls: Vec<ToolCall>) -> OperationState {
    OperationState::Tools { scope: scope(), batch: batch(calls) }
}

struct Store {
    values: Vec<(Address, DurableValue)>,
    entries: Vec<Entry>,
    seq: u64,
}

impl Store {
    fn new() -> Store {
        Store { values: Vec::new(), entries: Vec::new(), seq: 0 }
    }

    fn remove(&mut self, address: &Address) {
        self.values.retain(|row| row.0 != *address);
    }

    fn commit(&mut self, writes: &[Write]) -> CommitResult {
        let mut seqs = Vec::new();
        for write in writes {
            self.seq += 1;
            seqs.push(self.seq);
            match write {
                Write::InsertEntry(entry) => {
                    self.entries.push(materialize_committed_entry(entry, self.seq, 77));
                }
                Write::SetValue { address, value } => {
                    self.remove(address);
                    self.values.push((address.clone(), value.clone()));
                }
                Write::DeleteValue { address } => self.remove(address),
                _ => {}
            }
        }
        CommitResult { seqs, timestamp: 77, stats: stats(1) }
    }

    fn holds(&self, address: &Address) -> bool {
        self.values.iter().any(|row| row.0 == *address)
    }

    fn payloads(&self) -> Vec<PendingRow> {
        let mut rows = Vec::new();
        for (address, value) in &self.values {
            if let (Address::PendingEntry { entry_id }, DurableValue::Pending(pending)) =
                (address, value)
            {
                rows.push(PendingRow {
                    entry_id: entry_id.clone(),
                    payload: PendingPayload::Decoded(pending.clone()),
                });
            }
        }
        rows
    }

    fn session(&self) -> SessionRows {
        let mut rows = SessionRows {
            tips: Vec::new(),
            configurations: Vec::new(),
            states: Vec::new(),
            metas: Vec::new(),
            operation_states: Vec::new(),
        };
        for (address, value) in &self.values {
            match (address.clone(), value.clone()) {
                (Address::BranchTip { lane }, DurableValue::Tip(value)) => {
                    rows.tips.push(Keyed { key: lane, value })
                }
                (Address::LaneConfig { lane }, DurableValue::Configuration(value)) => {
                    rows.configurations.push(Keyed { key: lane, value })
                }
                (Address::LaneState { lane }, DurableValue::Lane(value)) => {
                    rows.states.push(Keyed { key: lane, value })
                }
                (Address::OperationMeta { operation_id }, DurableValue::Meta(value)) => {
                    rows.metas.push(Keyed { key: operation_id, value })
                }
                (Address::OperationState { operation_id }, DurableValue::State(value)) => {
                    rows.operation_states.push(Keyed { key: operation_id, value })
                }
                _ => {}
            }
        }
        rows
    }

    fn put(&mut self, lane: &str, state: &LaneRuntimeState) {
        let mut writes = vec![
            Write::SetValue {
                address: Address::BranchTip { lane: text(lane) },
                value: DurableValue::Tip(state.tip_id.clone()),
            },
            Write::SetValue {
                address: Address::LaneConfig { lane: text(lane) },
                value: DurableValue::Configuration(state.configuration.clone()),
            },
        ];
        let mut current_operation_id = None;
        if let Some(operation) = &state.operation {
            let operation_id = operation.meta.operation_id.clone();
            current_operation_id = Some(operation_id.clone());
            writes.push(Write::SetValue {
                address: Address::OperationMeta { operation_id: operation_id.clone() },
                value: DurableValue::Meta(operation.meta.clone()),
            });
            writes.push(Write::SetValue {
                address: Address::OperationState { operation_id },
                value: DurableValue::State(operation.state.clone()),
            });
        }
        writes.push(Write::SetValue {
            address: Address::LaneState { lane: text(lane) },
            value: DurableValue::Lane(DurableLaneState {
                current_operation_id,
                last_operation_id: state.last_operation_id.clone(),
                inbox: state.inbox.clone(),
            }),
        });
        self.commit(&writes);
    }

    fn carry_out<T>(
        &mut self,
        command: LaneCommand<T>,
    ) -> (LaneRuntimeState, T, Vec<HarnessEvent>) {
        match command {
            LaneCommand::Commit { writes, next, result, events } => {
                let commit = self.commit(&writes);
                let restored = restore_session(&self.session()).unwrap();
                assert_eq!(restored.len(), 1);
                assert_eq!(restored[0].key, text("main"));
                assert_eq!(restored[0].value, next);
                (next, result, emit(&events, &commit))
            }
            _ => panic!("nothing was committed"),
        }
    }
}

fn checkpoint(continuation: Continuation) -> OperationState {
    OperationState::Checkpoint {
        scope: OperationScope {
            control: Control::Running,
            settings: settings(),
            latest_assistant_entry_id: Some(text("answer")),
        },
        continuation,
        trigger_entry_id: text("trigger"),
    }
}

fn may_finish() -> OperationState {
    checkpoint(Continuation::MayFinish { include_final_assistant: true })
}

fn plan(
    inbox: Vec<InboxItem>,
    rows: &Vec<PendingRow>,
    follow_up: bool,
) -> Result<BoundaryPlacement, String> {
    let mut lane = idle_lane();
    lane.inbox = inbox;
    plan_boundary_inbox(
        &config(),
        &text("main"),
        &lane,
        &scope(),
        rows,
        lane.tip_id.clone(),
        follow_up,
    )
}

fn placed(placement: &BoundaryPlacement) -> Vec<String> {
    placement.entries.iter().map(|entry| entry.id().clone()).collect()
}

#[test]
fn retry_limits_come_from_the_policy() {
    assert_eq!(normalized_retry_policy(&retry_policy(), 9), limits());
    let off = RetryPolicy {
        enabled: false,
        max_retries: 8,
        base_delay_ms: 3,
        max_agent_delay_ms: None,
    };
    assert_eq!(
        normalized_retry_policy(&off, 9),
        NormalizedRetryPolicy { max_attempts: 1, base_delay_ms: 3, max_agent_delay_ms: 9 }
    );
    let ready = assistant_ready_at_boundary(
        &config(),
        9,
        text("step"),
        &idle_lane(),
        scope(),
        text("trigger"),
        false,
    );
    assert_eq!(
        ready,
        OperationState::AssistantReady {
            scope: scope(),
            generation_context: generation_context(),
            next_attempt: 1
        }
    );
}

#[test]
fn a_boundary_takes_the_inbox_in_order() {
    let inbox = vec![
        queued("f1", InboxItemKind::FollowUp),
        queued("w1", InboxItemKind::Write),
        queued("n1", InboxItemKind::NextRun),
        queued("f2", InboxItemKind::FollowUp),
    ];
    let rows = vec![
        message_row("f1", "one"),
        custom_row("w1", "silent"),
        message_row("n1", "next"),
        message_row("f2", "two"),
    ];
    let narrow = plan(inbox.clone(), &rows, false).unwrap();
    assert_eq!(placed(&narrow), vec![text("w1")]);
    assert_eq!(narrow.trigger_entry_id, None);
    assert_eq!(narrow.tip_id, Some(text("w1")));
    let wide = plan(inbox, &rows, true).unwrap();
    assert_eq!(placed(&wide), vec![text("f1"), text("w1")]);
    assert_eq!(wide.trigger_entry_id, Some(text("f1")));
    assert_eq!(
        wide.inbox,
        vec![queued("n1", InboxItemKind::NextRun), queued("f2", InboxItemKind::FollowUp)]
    );
    match &wide.entries[1] {
        NewEntry::Custom(entry) => assert_eq!(entry.parent_id, Some(text("f1"))),
        other => panic!("{other:?}"),
    }
    assert_eq!(wide.writes.len(), 5);
    let events = boundary_placement_events(&wide, &commit_of(&[1, 2, 3, 4, 5]), 0, "main", "op");
    assert_eq!(events.len(), 5);
    assert!(matches!(events[4], HarnessEvent::QueueUpdate { .. }));
}

#[test]
fn what_a_model_reads_triggers_a_step() {
    let inbox = vec![queued("w1", InboxItemKind::Write), queued("f1", InboxItemKind::FollowUp)];
    let rows = vec![custom_row("w1", "note"), message_row("f1", "one")];
    let placement = plan(inbox, &rows, true).unwrap();
    assert_eq!(placed(&placement), vec![text("w1")]);
    assert_eq!(placement.trigger_entry_id, Some(text("w1")));
    let nothing = plan(Vec::new(), &Vec::new(), true).unwrap();
    assert!(nothing.writes.is_empty());
    assert_eq!(nothing.queues, None);
    assert_eq!(nothing.tip_id, Some(text("root")));
}

#[test]
fn a_boundary_needs_its_payloads() {
    let inbox = vec![queued("s1", InboxItemKind::Steer)];
    assert_eq!(
        plan(inbox.clone(), &Vec::new(), false),
        Err(text("Pending Steer entry s1 is missing its payload"))
    );
    assert_eq!(
        plan(inbox, &vec![custom_row("s1", "note")], false),
        Err(text("Queued Steer entry s1 is not a message"))
    );
}

#[test]
fn a_run_reads_its_prompt() {
    let entries = vec![message_entry("prompt", None, user("hello"))];
    assert_eq!(run_prompt(&run_meta(), &entries), Ok(vec![user("hello")]));
    assert!(run_prompt(&run_meta(), &Vec::new()).is_err());
    let pending = AgentMessage::Assistant(assistant(StopReason::Pending));
    assert_eq!(check_injected(&vec![user("a")]), Ok(()));
    assert!(check_injected(&vec![pending]).is_err());
}

#[test]
fn a_run_starts_behind_what_was_injected() {
    let lane = busy_lane(OperationState::Starting { scope: scope() });
    let leaf = OperationState::Starting { scope: scope() };
    let mut store = Store::new();
    store.put("main", &lane);
    let reserved = vec![
        ReservedMessage { entry_id: text("i1"), message: user("one") },
        ReservedMessage { entry_id: text("i2"), message: user("two") },
    ];
    let command = start_run(&text("main"), &text("op"), &lane, &leaf, &reserved).unwrap();
    let settled = settle_operation(&text("main"), lane, command);
    let (state, _, events) = store.carry_out(settled);
    assert_eq!(state.tip_id, Some(text("i2")));
    assert_eq!(events.len(), 6);
    let mut rootless = idle_lane();
    rootless.tip_id = None;
    assert_eq!(
        start_run(&text("main"), &text("op"), &rootless, &leaf, &Vec::new()),
        Err(text("Run start has no trigger entry"))
    );
}

#[test]
fn a_due_compaction_interrupts_a_run() {
    let leaf = may_finish();
    let lane = busy_lane(leaf.clone());
    let mut store = Store::new();
    store.put("main", &lane);
    let due = prepare_compaction_threshold(&Some(compaction_plan()), true, text("task"));
    let command = run_checkpoint(
        &text("main"),
        &text("op"),
        &config(),
        9,
        text("step"),
        &lane,
        &leaf,
        &Vec::new(),
        due,
    )
    .unwrap();
    let settled = settle_operation(&text("main"), lane, command);
    let (state, _, events) = store.carry_out(settled);
    match state.operation.unwrap().state {
        OperationState::SummaryDeciding { task, .. } => {
            assert_eq!(task.reason, Some(text("threshold")));
            assert_eq!(task.task_id, text("task"));
        }
        other => panic!("{other:?}"),
    }
    assert!(matches!(events[0], HarnessEvent::CompactionStart { .. }));
    assert_eq!(
        run_checkpoint(
            &text("main"),
            &text("op"),
            &config(),
            9,
            text("step"),
            &idle_lane(),
            &OperationState::Starting { scope: scope() },
            &Vec::new(),
            prepare_compaction_threshold(&Some(compaction_plan()), true, text("task")),
        ),
        Err(text("Checkpoint threshold requires a checkpoint state"))
    );
}

fn end_of(lane: LaneRuntimeState, leaf: OperationState) -> Result<(), String> {
    match finish_run_boundary(
        &text("main"),
        &text("op"),
        &config(),
        9,
        text("step"),
        &lane,
        &leaf,
        &run_meta(),
        &Vec::new(),
        Continuation::MayFinish { include_final_assistant: true },
        &Vec::new(),
        Vec::new(),
        None,
        Vec::new(),
        5,
    ) {
        Ok(_) => Ok(()),
        Err(message) => Err(message),
    }
}

#[test]
fn a_run_ends_with_a_tip_and_an_answer() {
    assert_eq!(end_of(idle_lane(), may_finish()), Ok(()));
    let mut rootless = idle_lane();
    rootless.tip_id = None;
    assert_eq!(end_of(rootless, may_finish()), Err(text("Completed run has no tip")));
    let unanswered = OperationState::Checkpoint {
        scope: scope(),
        continuation: Continuation::MayFinish { include_final_assistant: true },
        trigger_entry_id: text("trigger"),
    };
    assert_eq!(
        end_of(idle_lane(), unanswered),
        Err(text("Completed run is missing its final assistant"))
    );
}

#[test]
fn only_a_checkpoint_that_may_finish_is_finished() {
    let finishing = Continuation::MayFinish { include_final_assistant: true };
    assert_eq!(finish_continuation(&may_finish()), Ok(finishing));
    let needs = Continuation::NeedAssistant { overflow_recovery_used: true };
    assert!(finish_continuation(&checkpoint(needs)).is_err());
    assert_eq!(continuation_of(&checkpoint(needs)), needs);
}

#[test]
fn an_error_response_is_named() {
    assert_eq!(
        provider_error(ResponseSource::Assistant, &assistant(StopReason::Length)).message,
        text("Assistant request ended with Length")
    );
    assert_eq!(
        provider_error(ResponseSource::Deferred, &assistant(StopReason::Error)).message,
        text("Deferred request ended with Error")
    );
    let failed = normalize_error(&assistant(StopReason::Stop), "broken");
    assert_eq!(failed.stop_reason, StopReason::Error);
    assert_eq!(
        provider_error(ResponseSource::Assistant, &failed),
        OperationError { code: text("assistant_error"), message: text("broken"), details: None }
    );
    let stopped = normalize_aborted(ResponseSource::Deferred, &assistant(StopReason::Stop));
    assert_eq!(stopped.stop_reason, StopReason::Aborted);
    assert_eq!(stopped.error_message, Some(text("Deferred request was cancelled")));
    let kept = normalize_aborted(ResponseSource::Deferred, &failed);
    assert_eq!(kept.error_message, Some(text("broken")));
}

#[test]
fn a_deferred_handle_has_to_fit_the_request() {
    let mut later = assistant(StopReason::Deferred);
    assert!(!deferred_handle_is_valid(&later, &configuration()));
    later.deferred = Some(handle());
    assert!(deferred_handle_is_valid(&later, &configuration()));
    for change in 0..5 {
        let mut wrong = later.clone();
        let mut other = handle();
        match change {
            0 => other.id = text(""),
            1 => other.provider = text("x"),
            2 => other.model_id = text("x"),
            3 => other.api = text("x"),
            _ => wrong.stop_reason = StopReason::Stop,
        }
        wrong.deferred = Some(other);
        assert!(!deferred_handle_is_valid(&wrong, &configuration()));
    }
}

#[test]
fn a_uuid_holds_its_time() {
    assert_eq!(
        uuid_v7_timestamp("0190b3a2-7c4f-7000-8000-000000000000"),
        Ok(0x0190_b3a2_7c4f)
    );
    assert_eq!(uuid_v7_timestamp("FFFFFFFF-FFFF"), Ok(0xffff_ffff_ffff));
    assert_eq!(uuid_v7_timestamp("+0000000-0001"), Ok(1));
    assert_eq!(uuid_v7_timestamp("entry"), Err(text("Invalid reserved UUIDv7 entry")));
    assert_eq!(
        uuid_v7_timestamp("0190b3g2-7c4f"),
        Err(text("Invalid reserved UUIDv7 0190b3g2-7c4f"))
    );
}

#[test]
fn entries_are_reserved_for_the_calls_of_an_answer() {
    let id = "0190b3a2-7c4f-7000-8000-000000000000";
    let response = calling(&["a", "b"]);
    let now = generating(scope(), 1);
    assert_eq!(
        reserve_calls(&now, id, &response, false),
        Ok(vec![0x0190_b3a2_7c4f, 0x0190_b3a2_7c4f])
    );
    assert_eq!(
        reserve_calls(&polling(Control::Running), id, &response, true),
        Ok(vec![0x0190_b3a2_7c4f, 0x0190_b3a2_7c4f])
    );
    assert_eq!(reserve_calls(&now, id, &response, true), Ok(Vec::new()));
    assert_eq!(reserve_calls(&generating(stopped_scope(), 1), id, &response, false), Ok(Vec::new()));
    assert_eq!(
        reserve_calls(&now, "answer", &response, false),
        Err(text("Invalid reserved UUIDv7 answer"))
    );
    assert_eq!(
        reserve_calls(&now, "answer", &assistant(StopReason::Stop), false),
        Ok(Vec::new())
    );
    let mut failed = calling(&["a"]);
    failed.stop_reason = StopReason::Error;
    assert_eq!(reserve_calls(&now, "answer", &failed, false), Ok(Vec::new()));
}

#[test]
fn a_retry_goes_by_the_policy_of_its_effect() {
    assert_eq!(retry_terms(&generating(scope(), 2)), Some((limits(), 2)));
    assert_eq!(retry_terms(&summarizing(3)), Some((limits(), 3)));
    assert_eq!(retry_terms(&polling(Control::Running)), None);
}

#[test]
fn only_a_generation_recovers_from_overflow() {
    let mut used = generating(scope(), 1);
    assert!(!intent_overflow_recovery_used(&used));
    if let OperationState::AssistantEffectPending { generation_context, .. } = &mut used {
        generation_context.overflow_recovery_used = true;
    }
    assert!(intent_overflow_recovery_used(&used));
    assert!(!intent_overflow_recovery_used(&polling(Control::Running)));
}

#[test]
fn an_interrupted_poll_is_taken_up() {
    let suspended =
        OperationState::DeferredSuspended { scope: deferred_scope_of(Control::Running) };
    assert!(!recovers_poll(&suspended));
    assert!(recovers_poll(&polling(Control::Running)));
    assert_eq!(deferred_configuration(&suspended), configuration());
    assert_eq!(deferred_configuration(&polling(Control::Running)), configuration());
}

#[test]
fn the_hook_before_a_run_adds_messages() {
    let values = vec![serde_json::Value::Bool(true), serde_json::Value::String(text("m"))];
    let hook = json_object(&[("messages", serde_json::Value::Array(values))]);
    assert_eq!(
        injected_values(&hook),
        vec![json(serde_json::Value::Bool(true)), json_text("m")]
    );
    let hook = json_object(&[("messages", serde_json::Value::Bool(true))]);
    assert_eq!(injected_values(&hook), Vec::new());
    assert_eq!(injected_values(&null()), Vec::new());
}

#[test]
fn queued_messages_are_read_by_their_ids() {
    let rows = vec![message_row("a", "first"), message_row("b", "second"), custom_row("c", "note")];
    assert_eq!(
        read_pending_messages(&rows, &vec![text("b"), text("a")], "Steer"),
        Ok(vec![(text("b"), user("second")), (text("a"), user("first"))])
    );
    assert!(read_pending_messages(&rows, &vec![text("c")], "Steer").is_err());
    assert!(read_pending_messages(&rows, &vec![text("d")], "Steer").is_err());
}

fn settle(
    current: &OperationState,
    response: &AssistantMessage,
    overflow: bool,
    call_ids: &Vec<String>,
) -> Result<Settlement, String> {
    settle_response(current, &text("answer"), response, overflow, &None, false, 5, call_ids)
}

#[test]
fn a_response_needs_an_effect_that_asked_for_it() {
    let message = assistant(StopReason::Stop);
    assert_eq!(
        settle(&may_finish(), &message, false, &Vec::new()),
        Err(text("Response intent is not an effect-pending state"))
    );
    let aborted = assistant(StopReason::Aborted);
    assert_eq!(
        settle(&generating(scope(), 1), &aborted, false, &Vec::new()),
        Err(text("Assistant response is aborted while durable control is running"))
    );
    assert_eq!(
        settle(&polling(Control::Running), &aborted, false, &Vec::new()),
        Err(text("Deferred response is aborted while durable control is running"))
    );
}

fn failure(settlement: Settlement) -> (AssistantMessage, String) {
    match settlement.disposition {
        Disposition::Failed(error) => (settlement.committed, error.message),
        Disposition::Next(state) => panic!("{state:?}"),
    }
}

#[test]
fn a_response_that_makes_no_sense_fails_the_run() {
    let pending = generating(scope(), 1);
    let overflown =
        settle(&pending, &assistant(StopReason::Length), true, &Vec::new()).unwrap();
    let (committed, message) = failure(overflown);
    assert_eq!(committed.stop_reason, StopReason::Error);
    assert_eq!(message, text("Assistant request exceeded the context window"));
    let later = settle(&pending, &assistant(StopReason::Deferred), false, &Vec::new()).unwrap();
    assert_eq!(failure(later).1, text("Provider returned an invalid deferred handle"));
    let toolless = settle(&pending, &assistant(StopReason::ToolUse), false, &Vec::new()).unwrap();
    assert_eq!(failure(toolless).1, text("Provider reported tool use without any tool calls"));
}

#[test]
fn a_polled_response_goes_on_from_its_poll() {
    let polled = polling(Control::Running);
    let later = settle(&polled, &assistant(StopReason::Deferred), false, &Vec::new()).unwrap();
    match later.disposition {
        Disposition::Next(OperationState::DeferredSuspended { scope }) => {
            assert_eq!(scope.poll, 4);
            assert_eq!(scope.source_entry_id, text("handle-entry"));
            assert_eq!(scope.latest_assistant_entry_id, Some(text("answer")));
        }
        other => panic!("{other:?}"),
    }
    let called = settle(&polled, &calling(&["c1"]), false, &vec![text("r1")]).unwrap();
    match called.disposition {
        Disposition::Next(OperationState::Tools { batch, .. }) => {
            assert_eq!(batch.turn_id, text("step:poll:4"));
            assert_eq!(batch.calls, vec![planned_call(1, "r1")]);
        }
        other => panic!("{other:?}"),
    }
    assert_eq!(poll_turn_id(&text("s"), 120), text("s:poll:120"));
    assert_eq!(tool_call_indices(&calling(&["c1", "c2"]).content), vec![1, 2]);
}

#[test]
fn a_process_has_to_serve_the_configuration() {
    let tools = config().tools;
    assert_eq!(
        prepare_generation(&generation_context(), true, &tools),
        Ok(vec![tools[0].clone()])
    );
    let missing_model = prepare_generation(&generation_context(), false, &tools).err().unwrap();
    assert_eq!(missing_model.code, text("model_unavailable"));
    assert_eq!(missing_model.details, Some(ErrorDetails::Model(model())));
    assert_eq!(missing_model, configuration_error("model_unavailable", ErrorDetails::Model(model())));
    let missing_tool =
        prepare_generation(&generation_context(), true, &Vec::new()).err().unwrap();
    assert_eq!(missing_tool.code, text("configured_tools_unavailable"));
    assert_eq!(
        missing_tool.message,
        text("One or more configured tools are unavailable in this process")
    );
    assert_eq!(missing_tool.details, Some(ErrorDetails::MissingTools(vec![text("read")])));
}

#[test]
fn a_configuration_failure_ends_the_run() {
    let leaf = generating(scope(), 1);
    let lane = busy_lane(leaf.clone());
    let mut store = Store::new();
    store.put("main", &lane);
    let error = configuration_error("model_unavailable", ErrorDetails::Model(model()));
    let command = publish_configuration_failure(
        &text("main"),
        &text("op"),
        &lane,
        &leaf,
        &run_meta(),
        error.clone(),
        Vec::new(),
        8,
    );
    let settled = settle_operation(&text("main"), lane, command);
    let (state, result, events) = store.carry_out(settled);
    match result {
        ProcedureResult::Settled { outcome } => {
            assert_eq!(outcome.status, TerminalStatus::Failed);
            assert_eq!(outcome.error, Some(error));
        }
        other => panic!("{other:?}"),
    }
    assert_eq!(state.operation, None);
    assert_eq!(events.len(), 1);
}

#[test]
fn hooks_change_the_request() {
    let hook = json_object(&[
        ("streamOptions", serde_json::Value::Bool(true)),
        ("systemPrompt", serde_json::Value::String(text("other"))),
    ]);
    assert_eq!(stream_options_patch(&hook), Some(json(serde_json::Value::Bool(true))));
    assert_eq!(stream_options_patch(&json_object(&[("streamOptions", null().value)])), None);
    assert_eq!(stream_options_patch(&null()), None);
    assert_eq!(hook_text(&hook, "systemPrompt"), Some(text("other")));
    assert_eq!(hook_text(&hook, "streamOptions"), None);
    assert_eq!(transformed_prompt(&hook, text("mine")), text("other"));
    assert_eq!(transformed_prompt(&null(), text("mine")), text("mine"));
    assert_eq!(request_session_id(&text("s"), &text("main")), text("s:main"));
    assert_eq!(resolve_system_prompt(&None, text("c")), text(""));
    let fixed = Some(SystemPrompt::Static(text("fixed")));
    assert_eq!(resolve_system_prompt(&fixed, text("c")), text("fixed"));
    assert_eq!(resolve_system_prompt(&Some(SystemPrompt::Dynamic), text("c")), text("c"));
}

#[test]
fn a_poll_needs_a_source_with_a_handle() {
    let read = |message: AgentMessage| {
        let entry = message_entry("handle-entry", None, message);
        read_deferred_source_handle(Some(&entry), &text("handle-entry"), &configuration())
    };
    let missing = Err(text("Deferred source handle-entry is missing its assistant handle"));
    assert_eq!(read(user("hi")), missing);
    assert_eq!(read(AgentMessage::Assistant(assistant(StopReason::Deferred))), missing);
    let mut later = assistant(StopReason::Deferred);
    later.deferred = Some(handle());
    assert_eq!(read(AgentMessage::Assistant(later.clone())), Ok(handle()));
    later.api = text("other");
    assert_eq!(
        read(AgentMessage::Assistant(later)),
        Err(text("Deferred source handle-entry has an invalid handle"))
    );
    assert_eq!(
        read_deferred_source_handle(None, &text("handle-entry"), &configuration()),
        missing
    );
}

#[test]
fn an_interrupted_poll_is_made_again() {
    let polled = polling(Control::Running);
    assert_eq!(prepare_deferred_poll(&polled, 1, true), PollGate::Poll { poll: 4 });
    assert_eq!(prepare_deferred_poll(&polled, 1, false), PollGate::ConfigurationFailure);
    assert_eq!(poll_options(&polled), undeferred_options());
    let command = publish_poll_intent(
        &text("main"),
        &text("op"),
        &polled,
        &polled,
        4,
        text("again"),
        text("again-usage"),
        true,
    );
    match command {
        OperationCommand::Commit { writes, operation_state, .. } => {
            assert_eq!(
                writes,
                vec![Write::DeleteList {
                    address: Address::PendingAssistantFrames {
                        operation_id: text("op"),
                        response_entry_id: text("polled")
                    }
                }]
            );
            assert_eq!(intent_response_entry_id(&operation_state), text("again"));
        }
        other => panic!("{other:?}"),
    }
    assert_eq!(
        waiting_deferred(&text("op"), handle()),
        DriveOutcome::WaitingDeferred { operation_id: text("op"), deferred: handle() }
    );
}

#[test]
fn an_interrupted_response_keeps_what_was_committed() {
    let fresh = interrupted_assistant_message(&model(), None, json_text("free"), 6);
    assert_eq!(fresh.api, text("unknown"));
    assert_eq!(fresh.model, text("large"));
    assert_eq!(fresh.timestamp, 6);
    assert_eq!(fresh.stop_reason, StopReason::Error);
    assert_eq!(fresh.usage, zero_usage(json_text("free")));
    let mut partial = calling(&["c1"]);
    partial.stop_reason = StopReason::Pending;
    let kept = interrupted_assistant_message(&model(), Some(partial.clone()), null(), 6);
    assert_eq!(kept.content, partial.content);
    assert_eq!(kept.usage, zero_usage(null()));
    assert_eq!(kept.error_message, fresh.error_message);
    assert_eq!(effect_identity(&generating(scope(), 1)), Some(model()));
    assert_eq!(effect_identity(&may_finish()), None);
    let events = announce_recovered(&text("main"), &text("op"), &text("answer"), &kept);
    assert_eq!(events.len(), 2);
    assert!(matches!(&events[1], HarnessEvent::MessageEnd { recovery: Some(true), .. }));
}

#[test]
fn a_drive_goes_on_until_it_rests() {
    let before = generating(scope(), 1);
    let after = generating(scope(), 2);
    let go_on = ProcedureResult::Continue;
    assert_eq!(drive_operation(&before, go_on.clone(), &after), DriveStep::Again);
    assert_eq!(
        drive_operation(&before, go_on.clone(), &before),
        DriveStep::Stuck(text("Drive procedure made no progress from assistant.effect_pending"))
    );
    let stopped = generating(stopped_scope(), 1);
    assert_eq!(drive_operation(&stopped, go_on, &stopped), DriveStep::Again);
    let rest = waiting_retry(&text("op"), 9);
    assert_eq!(
        drive_operation(&before, ProcedureResult::Waiting { outcome: rest.clone() }, &before),
        DriveStep::Rest(rest)
    );
    assert_eq!(
        current_operation(&idle_lane(), &text("op")).err(),
        Some(text("Drive op has no matching current operation"))
    );
    assert!(current_operation(&busy_lane(before), &text("op")).is_ok());
}

#[test]
fn each_leaf_has_its_procedure() {
    assert_eq!(dispatch(&OperationState::Starting { scope: scope() }), Procedure::StartRun);
    assert_eq!(dispatch(&may_finish()), Procedure::RunCheckpoint);
    assert_eq!(dispatch(&generating(scope(), 1)), Procedure::RecoverGeneration);
    assert_eq!(dispatch(&generating(stopped_scope(), 1)), Procedure::Reconcile);
    assert_eq!(dispatch(&running_tools(Vec::new())), Procedure::RunTools);
    assert_eq!(dispatch(&summarizing(1)), Procedure::RecoverStructuralGeneration);
    assert_eq!(intent_kind(&run_meta().intent), "run");
}

#[test]
fn a_stopped_operation_is_wound_down_by_its_leaf() {
    let stop = Control::CancelRequested { requested_at: 7 };
    let tools = OperationState::Tools { scope: stopped_scope(), batch: batch(Vec::new()) };
    assert_eq!(reconcile_operation(&tools), ReconcileAction::WindDownTools);
    assert_eq!(
        reconcile_operation(&polling(stop)),
        ReconcileAction::CancelDeferredAndRecover
    );
    let suspended = OperationState::DeferredSuspended { scope: deferred_scope_of(stop) };
    assert_eq!(reconcile_operation(&suspended), ReconcileAction::CancelDeferredAndEnd);
    let ready = OperationState::Starting { scope: stopped_scope() };
    assert_eq!(reconcile_operation(&ready), ReconcileAction::End);
}

#[test]
fn a_retry_waits_from_now_on() {
    assert_eq!(retry_not_before(500, 1_000), 1_500);
    assert_eq!(retry_not_before(u64::MAX, 1), u64::MAX);
}

#[test]
fn nothing_is_left_of_an_operation_but_its_result() {
    let leaf = OperationState::Tools {
        scope: scope(),
        batch: batch(vec![staged_call(1, "r1", false), staged_call(2, "r1", false)]),
    };
    let scratch =
        vec![Address::OperationPreparation { operation_id: text("op"), task_id: text("task") }];
    let writes = operation_cleanup_writes(&text("op"), &leaf, scratch);
    assert_eq!(
        writes,
        vec![
            Write::DeleteValue { address: Address::OperationMeta { operation_id: text("op") } },
            Write::DeleteValue { address: Address::OperationState { operation_id: text("op") } },
            Write::DeleteValue {
                address: Address::OperationPreparation {
                    operation_id: text("op"),
                    task_id: text("task")
                }
            },
            Write::DeleteValue { address: Address::PendingEntry { entry_id: text("r1") } },
        ]
    );
    let frames = operation_cleanup_writes(&text("op"), &generating(scope(), 1), Vec::new());
    assert_eq!(
        frames[2],
        Write::DeleteList {
            address: Address::PendingAssistantFrames {
                operation_id: text("op"),
                response_entry_id: text("answer")
            }
        }
    );
    let record =
        operation_result_record(&run_meta(), TerminalStatus::Declined, None, None, 99);
    assert_eq!(record.from_tip_id, Some(text("root")));
    assert_eq!(record.ended_at, 99);
    assert_eq!(record.kind, run_meta().intent);
}
