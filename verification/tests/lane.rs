//! What a lane accepts, queues, hands out and refuses.

use pi_runtime::command::{ContinueOperationResult, LaneCommand, OperationCommand};
use pi_runtime::drive::finish::FollowUp;
use pi_runtime::drive::retry::waiting_retry;
use pi_runtime::drive::structural::{BranchPreparation, CompactionPreparation, FileOperations};
use pi_runtime::json::Json;
use pi_runtime::lane::accept::{
    Answer, PromptInput, chain_new_entries, check_prompt, classify_prompt, find_skill,
    find_template, input_message, pending_entry_write, select_accepted_inbox, skill_message,
    template_messages,
};
use pi_runtime::lane::claim::{Drive, DriveClaim, LaneImpl};
use pi_runtime::lane::configure::{
    BranchScan, CurrentExecution, Execution, ScanOrder, captured_model, inspect_execution,
    scan_order, scan_start, set_active_tools, set_configuration_identity, set_thinking_level,
    single_limit,
};
use pi_runtime::lane::intake::{accept_compaction, accept_navigation, accept_run, branch_entries};
use pi_runtime::lane::queue::{
    append, cancel_queued, check_append, enqueue, queued_message, record_usage, request_abort,
};
use pi_runtime::lane::requests::{
    Acceptance, RunSettlement, StructuralFault, abort, abort_error, accept,
    continues_after_structural, drive_run_result, drive_structural_admission, refuses_compaction,
    refuses_navigation, resume, skips_continuation,
};
use pi_runtime::lane::settle::{apply_lane_patch, continue_operation, with_cancel_requested};
use pi_runtime::lane::snapshot::{
    StagedOutcome, ToolRead, capture_lane_snapshot_inner, needed_entry, read_staged, show_operation,
    watch,
};
use pi_runtime::model::event::{
    ConfigUpdatePayload, DeferredSnapshot, HarnessEvent, LaneQueuedItem, LaneSnapshotTool,
    RetryPolicy, RetrySnapshot,
};
use pi_runtime::model::message::{
    AgentMessage, AgentToolResult, AssistantMessage, ContentBlock, DeferredHandle, StopReason,
    ToolCallBlock, ToolResultContent, ToolResultMessage, Usage, UserContent, UserMessage,
};
use pi_runtime::model::session::{
    CompactionSettings, Control, DeferredScope, DurableLaneState, GenerationContext, InboxItem,
    InboxItemKind, LaneConfiguration, ModelIdentity, NormalizedRetryPolicy, Operation,
    OperationIntent, OperationMeta, OperationResultRecord, OperationScope, OperationState,
    PendingEntry, QueueMode, ReplayPolicy, ResultBoundary, RunSettings, StreamOptions,
    TerminalStatus, ThinkingLevel, ToolBatch, ToolCall, ToolExecution,
};
use pi_runtime::model::storage::{
    Address, CommitResult, DurableValue, Entry, EntryBase, MessageEntry, NewEntry, SessionStats,
    UsageRow, Write,
};
use pi_runtime::names::Keyed;
use pi_runtime::restore::{SessionRows, restore_session};
use pi_runtime::state::state_control;
use pi_runtime::transcript::{emit, materialize_committed_entry};
use pi_runtime::types::{
    AbortRequest, CancelQueuedKind, Config, DriveOptions, DriveOutcome, HarnessError, LanePatch,
    LaneRuntimeState, OperationAdmission, OperationRequest, PendingPayload, PendingRow,
    ProcedureResult, PromptTemplate, RecordUsageOutcome, Resources, Skill, SystemPrompt,
    ToolDescriptor,
};

fn text(value: &str) -> String {
    value.to_string()
}

fn json(value: serde_json::Value) -> Json {
    Json { value }
}

fn json_text(value: &str) -> Json {
    json(serde_json::Value::String(value.to_string()))
}

fn json_object(members: &[(&str, serde_json::Value)]) -> Json {
    let mut object = serde_json::Map::new();
    for (key, value) in members {
        object.insert(key.to_string(), value.clone());
    }
    json(serde_json::Value::Object(object))
}

fn null() -> Json {
    json(serde_json::Value::Null)
}

fn model() -> ModelIdentity {
    ModelIdentity { provider: text("acme"), model_id: text("large") }
}

fn configuration() -> LaneConfiguration {
    LaneConfiguration {
        model: model(),
        thinking_level: ThinkingLevel::Low,
        active_tool_names: vec![text("read")],
    }
}

fn compaction_settings() -> CompactionSettings {
    CompactionSettings { enabled: true, reserve_tokens: 100, keep_recent_tokens: 50 }
}

fn settings() -> RunSettings {
    RunSettings {
        compaction: compaction_settings(),
        steering_mode: QueueMode::OneAtATime,
        follow_up_mode: QueueMode::OneAtATime,
        tool_execution: ToolExecution::Parallel,
    }
}

fn scope() -> OperationScope {
    OperationScope {
        control: Control::Running,
        settings: settings(),
        latest_assistant_entry_id: None,
    }
}

fn stopped_scope() -> OperationScope {
    OperationScope {
        control: Control::CancelRequested { requested_at: 7 },
        settings: settings(),
        latest_assistant_entry_id: None,
    }
}

fn stream_options() -> StreamOptions {
    StreamOptions {
        deferred: None,
        headers: None,
        timeout_ms: Some(1_000),
        max_retries: None,
        max_retry_delay_ms: None,
    }
}

fn limits() -> NormalizedRetryPolicy {
    NormalizedRetryPolicy { max_attempts: 3, base_delay_ms: 200, max_agent_delay_ms: 5_000 }
}

fn retry_policy() -> RetryPolicy {
    RetryPolicy {
        enabled: true,
        max_retries: 2,
        base_delay_ms: 200,
        max_agent_delay_ms: Some(5_000),
    }
}

fn generation_context() -> GenerationContext {
    GenerationContext {
        step_id: text("step"),
        trigger_entry_id: text("trigger"),
        configuration: configuration(),
        stream_options: stream_options(),
        retry_policy: limits(),
        overflow_recovery_used: false,
    }
}

fn generating(scope: OperationScope, attempt: u32) -> OperationState {
    OperationState::AssistantEffectPending {
        scope,
        generation_context: generation_context(),
        attempt,
        response_entry_id: text("answer"),
        usage_id: text("usage"),
        intended_output_limit: 400,
        context_window: 8_000,
    }
}

fn deferred_scope_of(control: Control) -> DeferredScope {
    DeferredScope {
        control,
        settings: settings(),
        latest_assistant_entry_id: Some(text("handle-entry")),
        step_id: text("step"),
        source_entry_id: text("handle-entry"),
        poll: 4,
        configuration: configuration(),
        stream_options: stream_options(),
    }
}

fn polling(control: Control) -> OperationState {
    OperationState::DeferredEffectPending {
        scope: deferred_scope_of(control),
        response_entry_id: text("polled"),
        usage_id: text("poll-usage"),
    }
}

fn usage(total: u64) -> Usage {
    Usage {
        input: total,
        output: 0,
        cache_read: 0,
        cache_write: 0,
        cache_write_1h: None,
        reasoning: None,
        total_tokens: total,
        cost: null(),
    }
}

fn assistant(stop_reason: StopReason) -> AssistantMessage {
    AssistantMessage {
        content: Vec::new(),
        api: text("chat"),
        provider: text("acme"),
        model: text("large"),
        response_model: None,
        response_id: None,
        provider_thinking_level: None,
        usage: usage(12),
        stop_reason,
        deferred: None,
        error_message: None,
        raw_stop_reason: None,
        end_turn: None,
        timestamp: 5,
    }
}

fn handle() -> DeferredHandle {
    DeferredHandle {
        id: text("job"),
        provider: text("acme"),
        model_id: text("large"),
        api: text("chat"),
    }
}

fn call_block(id: &str, name: &str) -> ToolCallBlock {
    ToolCallBlock { id: text(id), name: text(name), arguments: json_text("given") }
}

fn calling(ids: &[&str]) -> AssistantMessage {
    let mut message = assistant(StopReason::ToolUse);
    message.content.push(ContentBlock::Other(json_text("thought")));
    for id in ids {
        message.content.push(ContentBlock::ToolCall(call_block(id, "read")));
    }
    message
}

fn user(content: &str) -> AgentMessage {
    AgentMessage::User(UserMessage { content: UserContent::Text(text(content)), timestamp: 3 })
}

fn tool_result(tool_call_id: &str, is_error: bool) -> ToolResultMessage {
    ToolResultMessage {
        tool_call_id: text(tool_call_id),
        tool_name: text("read"),
        content: vec![ToolResultContent::Text { text: text("done"), text_signature: None }],
        details: None,
        usage: None,
        added_tool_names: None,
        is_error,
        timestamp: 9,
    }
}

fn shown_result() -> AgentToolResult {
    AgentToolResult {
        content: vec![ToolResultContent::Text { text: text("done"), text_signature: None }],
        details: null(),
        usage: None,
    }
}

fn entry_base(id: &str, parent_id: Option<&str>) -> EntryBase {
    EntryBase {
        id: text(id),
        parent_id: match parent_id {
            Some(parent_id) => Some(text(parent_id)),
            None => None,
        },
        seq: 1,
        timestamp: 2,
        custom_type: None,
    }
}

fn message_entry(id: &str, parent_id: Option<&str>, message: AgentMessage) -> Entry {
    Entry::Message(MessageEntry { base: entry_base(id, parent_id), message, terminate: None })
}

fn config() -> Config {
    Config {
        tools: vec![
            ToolDescriptor { name: text("read"), replay: Some(ReplayPolicy::Safe) },
            ToolDescriptor { name: text("write"), replay: None },
        ],
        resources: Resources { skills: Vec::new(), prompt_templates: Vec::new() },
        stream_options: stream_options(),
        retry_policy: retry_policy(),
        compaction: compaction_settings(),
        steering_mode: QueueMode::OneAtATime,
        follow_up_mode: QueueMode::OneAtATime,
        tool_execution: ToolExecution::Parallel,
        system_prompt: Some(SystemPrompt::Static(text("be brief"))),
        entry_projectors: vec![text("note")],
    }
}

fn run_meta() -> OperationMeta {
    OperationMeta {
        operation_id: text("op"),
        lane: text("main"),
        intent: OperationIntent::Run { prompt_entry_ids: vec![text("prompt")] },
        source_tip_id: Some(text("root")),
        started_at: 11,
    }
}

fn idle_lane() -> LaneRuntimeState {
    LaneRuntimeState {
        tip_id: Some(text("root")),
        configuration: configuration(),
        inbox: Vec::new(),
        last_operation_id: None,
        operation: None,
    }
}

fn busy_lane(state: OperationState) -> LaneRuntimeState {
    let mut lane = idle_lane();
    lane.operation = Some(Operation { meta: run_meta(), state });
    lane
}

fn queued(entry_id: &str, kind: InboxItemKind) -> InboxItem {
    InboxItem { entry_id: text(entry_id), kind }
}

fn message_row(entry_id: &str, content: &str) -> PendingRow {
    PendingRow {
        entry_id: text(entry_id),
        payload: PendingPayload::Decoded(PendingEntry::Message { payload: user(content) }),
    }
}

fn custom_row(entry_id: &str, custom_type: &str) -> PendingRow {
    PendingRow {
        entry_id: text(entry_id),
        payload: PendingPayload::Decoded(PendingEntry::Custom {
            custom_type: text(custom_type),
            payload: None,
        }),
    }
}

fn stats(message_count: u64) -> SessionStats {
    SessionStats { message_count, usage: usage(0) }
}

fn files() -> FileOperations {
    FileOperations { read: vec![text("a")], written: vec![text("b")], edited: Vec::new() }
}

fn compaction_plan() -> CompactionPreparation {
    CompactionPreparation {
        messages_to_summarize: vec![user("old")],
        turn_prefix_messages: Vec::new(),
        retained_tail: vec![user("new")],
        is_split_turn: false,
        tokens_before: 900,
        previous_summary: Some(text("before")),
        file_ops: files(),
        settings: compaction_settings(),
    }
}

fn planned_call(source_index: usize, result_entry_id: &str) -> ToolCall {
    ToolCall::Planned { source_index, result_entry_id: text(result_entry_id) }
}

fn running_call(source_index: usize, result_entry_id: &str) -> ToolCall {
    ToolCall::EffectPending {
        source_index,
        result_entry_id: text(result_entry_id),
        replay: ReplayPolicy::Safe,
    }
}

fn staged_call(source_index: usize, result_entry_id: &str, terminate: bool) -> ToolCall {
    ToolCall::OutcomeReady { source_index, result_entry_id: text(result_entry_id), terminate }
}

fn batch(calls: Vec<ToolCall>) -> ToolBatch {
    ToolBatch {
        assistant_entry_id: text("answer"),
        configuration: configuration(),
        turn_id: text("turn"),
        calls,
    }
}

fn running_tools(calls: Vec<ToolCall>) -> OperationState {
    OperationState::Tools { scope: scope(), batch: batch(calls) }
}

struct Store {
    values: Vec<(Address, DurableValue)>,
    entries: Vec<Entry>,
    seq: u64,
}

impl Store {
    fn new() -> Store {
        Store { values: Vec::new(), entries: Vec::new(), seq: 0 }
    }

    fn remove(&mut self, address: &Address) {
        self.values.retain(|row| row.0 != *address);
    }

    fn commit(&mut self, writes: &[Write]) -> CommitResult {
        let mut seqs = Vec::new();
        for write in writes {
            self.seq += 1;
            seqs.push(self.seq);
            match write {
                Write::InsertEntry(entry) => {
                    self.entries.push(materialize_committed_entry(entry, self.seq, 77));
                }
                Write::SetValue { address, value } => {
                    self.remove(address);
                    self.values.push((address.clone(), value.clone()));
                }
                Write::DeleteValue { address } => self.remove(address),
                _ => {}
            }
        }
        CommitResult { seqs, timestamp: 77, stats: stats(1) }
    }

    fn holds(&self, address: &Address) -> bool {
        self.values.iter().any(|row| row.0 == *address)
    }

    fn payloads(&self) -> Vec<PendingRow> {
        let mut rows = Vec::new();
        for (address, value) in &self.values {
            if let (Address::PendingEntry { entry_id }, DurableValue::Pending(pending)) =
                (address, value)
            {
                rows.push(PendingRow {
                    entry_id: entry_id.clone(),
                    payload: PendingPayload::Decoded(pending.clone()),
                });
            }
        }
        rows
    }

    fn session(&self) -> SessionRows {
        let mut rows = SessionRows {
            tips: Vec::new(),
            configurations: Vec::new(),
            states: Vec::new(),
            metas: Vec::new(),
            operation_states: Vec::new(),
        };
        for (address, value) in &self.values {
            match (address.clone(), value.clone()) {
                (Address::BranchTip { lane }, DurableValue::Tip(value)) => {
                    rows.tips.push(Keyed { key: lane, value })
                }
                (Address::LaneConfig { lane }, DurableValue::Configuration(value)) => {
                    rows.configurations.push(Keyed { key: lane, value })
                }
                (Address::LaneState { lane }, DurableValue::Lane(value)) => {
                    rows.states.push(Keyed { key: lane, value })
                }
                (Address::OperationMeta { operation_id }, DurableValue::Meta(value)) => {
                    rows.metas.push(Keyed { key: operation_id, value })
                }
                (Address::OperationState { operation_id }, DurableValue::State(value)) => {
                    rows.operation_states.push(Keyed { key: operation_id, value })
                }
                _ => {}
            }
        }
        rows
    }

    fn put(&mut self, lane: &str, state: &LaneRuntimeState) {
        let mut writes = vec![
            Write::SetValue {
                address: Address::BranchTip { lane: text(lane) },
                value: DurableValue::Tip(state.tip_id.clone()),
            },
            Write::SetValue {
                address: Address::LaneConfig { lane: text(lane) },
                value: DurableValue::Configuration(state.configuration.clone()),
            },
        ];
        let mut current_operation_id = None;
        if let Some(operation) = &state.operation {
            let operation_id = operation.meta.operation_id.clone();
            current_operation_id = Some(operation_id.clone());
            writes.push(Write::SetValue {
                address: Address::OperationMeta { operation_id: operation_id.clone() },
                value: DurableValue::Meta(operation.meta.clone()),
            });
            writes.push(Write::SetValue {
                address: Address::OperationState { operation_id },
                value: DurableValue::State(operation.state.clone()),
            });
        }
        writes.push(Write::SetValue {
            address: Address::LaneState { lane: text(lane) },
            value: DurableValue::Lane(DurableLaneState {
                current_operation_id,
                last_operation_id: state.last_operation_id.clone(),
                inbox: state.inbox.clone(),
            }),
        });
        self.commit(&writes);
    }

    fn carry_out<T>(
        &mut self,
        command: LaneCommand<T>,
    ) -> (LaneRuntimeState, T, Vec<HarnessEvent>) {
        match command {
            LaneCommand::Commit { writes, next, result, events } => {
                let commit = self.commit(&writes);
                let restored = restore_session(&self.session()).unwrap();
                assert_eq!(restored.len(), 1);
                assert_eq!(restored[0].key, text("main"));
                assert_eq!(restored[0].value, next);
                (next, result, emit(&events, &commit))
            }
            _ => panic!("nothing was committed"),
        }
    }
}

fn item_list(ids: &[(&str, InboxItemKind)]) -> Vec<InboxItem> {
    ids.iter().map(|(id, kind)| queued(id, *kind)).collect()
}

fn ids(items: &[InboxItem]) -> Vec<String> {
    items.iter().map(|item| item.entry_id.clone()).collect()
}

fn refusal<T>(command: LaneCommand<Answer<T>>) -> HarnessError {
    match command {
        LaneCommand::Return { result: Answer::Refused { error } } => error,
        _ => panic!("the request was not refused"),
    }
}

#[test]
fn accepting_takes_writes_and_one_of_each_queue() {
    let inbox = item_list(&[
        ("s1", InboxItemKind::Steer),
        ("w1", InboxItemKind::Write),
        ("f1", InboxItemKind::FollowUp),
        ("s2", InboxItemKind::Steer),
        ("n1", InboxItemKind::NextRun),
        ("n2", InboxItemKind::NextRun),
        ("f2", InboxItemKind::FollowUp),
    ]);
    let (taken, left) =
        select_accepted_inbox(&inbox, QueueMode::OneAtATime, QueueMode::OneAtATime);
    assert_eq!(ids(&taken), vec![text("s1"), text("w1"), text("f1"), text("n1"), text("n2")]);
    assert_eq!(ids(&left), vec![text("s2"), text("f2")]);
    let (taken, left) = select_accepted_inbox(&inbox, QueueMode::All, QueueMode::All);
    assert_eq!(taken.len(), 7);
    assert!(left.is_empty());
}

#[test]
fn entries_are_chained_behind_the_tip() {
    let entries = vec![
        pending_entry_write(text("a"), PendingEntry::Message { payload: user("one") }),
        pending_entry_write(
            text("b"),
            PendingEntry::Custom { custom_type: text("note"), payload: None },
        ),
    ];
    let chain = chain_new_entries(Some(text("tip")), entries);
    match (&chain[0], &chain[1]) {
        (NewEntry::Message(first), NewEntry::Custom(second)) => {
            assert_eq!(first.parent_id, Some(text("tip")));
            assert_eq!(second.parent_id, Some(text("a")));
            assert_eq!(second.custom_type, text("note"));
        }
        other => panic!("{other:?}"),
    }
}

#[test]
fn a_prompt_is_text_or_messages() {
    assert_eq!(classify_prompt(&json_text("hi")), PromptInput::Text(text("hi")));
    let one = json_object(&[("role", serde_json::Value::String(text("user")))]);
    assert_eq!(classify_prompt(&one), PromptInput::One(one.clone()));
    let many = json(serde_json::Value::Array(vec![one.value.clone(), serde_json::Value::Null]));
    assert_eq!(classify_prompt(&many), PromptInput::Many(vec![one, null()]));
}

#[test]
fn text_and_images_make_one_message() {
    assert_eq!(input_message(&text(""), &Vec::new(), 3), None);
    let image = json_object(&[("type", serde_json::Value::String(text("image")))]);
    assert_eq!(
        input_message(&text("look"), &vec![image.clone()], 3),
        Some(AgentMessage::User(UserMessage {
            content: UserContent::Blocks(vec![
                ToolResultContent::Text { text: text("look"), text_signature: None },
                ToolResultContent::Image(image.clone()),
            ]),
            timestamp: 3,
        }))
    );
    assert_eq!(
        input_message(&text(""), &vec![image.clone()], 3),
        Some(AgentMessage::User(UserMessage {
            content: UserContent::Blocks(vec![ToolResultContent::Image(image)]),
            timestamp: 3,
        }))
    );
}

#[test]
fn unknown_skills_and_templates_are_refused() {
    let mut config = config();
    config.resources.skills.push(Skill { name: text("plan"), definition: null() });
    config
        .resources
        .prompt_templates
        .push(PromptTemplate { name: text("fix"), definition: null() });
    assert_eq!(find_skill(&config, &text("plan")).unwrap().name, text("plan"));
    assert_eq!(
        find_skill(&config, &text("fly")).err(),
        Some(HarnessError::UnknownSkill {
            name: text("fly"),
            message: text("Unknown skill: fly")
        })
    );
    assert_eq!(find_template(&config, &text("fix")).unwrap().name, text("fix"));
    assert_eq!(
        find_template(&config, &text("fly")).err(),
        Some(HarnessError::UnknownTemplate {
            name: text("fly"),
            message: text("Unknown prompt template: fly")
        })
    );
}

#[test]
fn a_template_without_content_makes_no_message() {
    assert!(template_messages(text(""), 3).is_empty());
    assert_eq!(template_messages(text("do it"), 3), vec![skill_message(text("do it"), 3)]);
}

#[test]
fn a_pending_assistant_is_no_prompt() {
    let pending = AgentMessage::Assistant(assistant(StopReason::Pending));
    assert_eq!(check_prompt(&text("main"), &vec![user("hi")]), Ok(()));
    assert_eq!(
        check_prompt(&text("main"), &vec![user("hi"), pending.clone()]),
        Err(HarnessError::InvalidMessage {
            lane: text("main"),
            reason: text("pending_assistant"),
            message: text("Cannot accept a pending assistant message"),
        })
    );
    assert_eq!(
        check_append(&text("main"), &PendingEntry::Message { payload: pending }),
        Err(HarnessError::InvalidMessage {
            lane: text("main"),
            reason: text("pending_assistant"),
            message: text("Cannot append a pending assistant message"),
        })
    );
    assert_eq!(check_append(&text("main"), &PendingEntry::Message { payload: user("hi") }), Ok(()));
}

#[test]
fn payloads_that_cannot_be_used_stop_an_acceptance() {
    let mut state = idle_lane();
    state.inbox = vec![queued("s", InboxItemKind::Steer)];
    let accept = |rows: Vec<PendingRow>, state: LaneRuntimeState| {
        accept_run(&text("main"), &text("op"), 1, &config(), state, &rows, &Vec::new())
    };
    assert_eq!(
        accept(Vec::new(), state.clone()),
        Err(text("Pending Steer entry s is missing its payload"))
    );
    assert_eq!(
        accept(vec![custom_row("s", "note")], state.clone()),
        Err(text("Pending Steer entry s is not a message"))
    );
    let pending = PendingRow {
        entry_id: text("s"),
        payload: PendingPayload::Decoded(PendingEntry::Message {
            payload: AgentMessage::Assistant(assistant(StopReason::Pending)),
        }),
    };
    assert_eq!(
        accept(vec![pending], state.clone()),
        Err(text("Pending Steer entry s contains a pending assistant"))
    );
    let broken = PendingRow {
        entry_id: text("s"),
        payload: PendingPayload::Undecodable(text("not JSON")),
    };
    assert_eq!(accept(vec![broken], state), Err(text("not JSON")));
}

#[test]
fn a_compaction_stores_its_preparation() {
    let mut store = Store::new();
    store.put("main", &idle_lane());
    let command = accept_compaction(
        &text("main"),
        &text("op"),
        &text("task"),
        11,
        &config(),
        idle_lane(),
        &Some(text("keep names")),
        &Some(compaction_plan()),
    );
    let (state, answer, events) = store.carry_out(command);
    assert!(matches!(answer, Answer::Granted { .. }));
    assert!(store.holds(&Address::OperationPreparation {
        operation_id: text("op"),
        task_id: text("task")
    }));
    assert_eq!(
        events,
        vec![HarnessEvent::CompactionStart {
            lane: text("main"),
            run_id: text("op"),
            reason: text("manual"),
            started_at: 11,
            recovery: None
        }]
    );
    match state.operation.unwrap().state {
        OperationState::SummaryDeciding { task, .. } => {
            assert_eq!(task.custom_instructions, Some(text("keep names")));
            assert_eq!(task.boundary, ResultBoundary::Finish);
        }
        other => panic!("{other:?}"),
    }
}

#[test]
fn there_may_be_nothing_to_compact() {
    let command = accept_compaction(
        &text("main"),
        &text("op"),
        &text("task"),
        11,
        &config(),
        idle_lane(),
        &None,
        &None,
    );
    let error = refusal(command);
    assert!(refuses_compaction(&error));
    assert!(!refuses_navigation(&error));
    assert_eq!(
        error,
        HarnessError::NothingToCompact {
            lane: text("main"),
            message: text("Lane \"main\" has nothing to compact")
        }
    );
}

fn navigate(
    target_id: Option<&str>,
    summarize: bool,
    label: Option<&str>,
    target_exists: bool,
) -> LaneCommand<Answer<Option<OperationAdmission>>> {
    let branch = BranchPreparation {
        messages: vec![user("left behind")],
        file_ops: files(),
        total_tokens: 40,
    };
    accept_navigation(
        &text("main"),
        &text("op"),
        &text("task"),
        11,
        &config(),
        idle_lane(),
        &Some(text("root")),
        &target_id.map(text),
        summarize,
        &label.map(text),
        &None,
        target_exists,
        &Some(branch),
    )
}

#[test]
fn a_navigation_has_to_lead_somewhere_else() {
    let reasons = [
        (navigate(Some("root"), false, None, true), "current_tip"),
        (navigate(None, false, Some("start"), true), "root_label"),
        (navigate(None, true, None, true), "target_root"),
    ];
    for (command, expected) in reasons {
        let error = refusal(command);
        assert!(refuses_navigation(&error));
        match error {
            HarnessError::InvalidNavigation { reason, .. } => assert_eq!(reason, text(expected)),
            other => panic!("{other:?}"),
        }
    }
    assert_eq!(
        refusal(navigate(Some("gone"), false, None, false)),
        HarnessError::UnknownTarget {
            target_id: text("gone"),
            message: text("Unknown target: gone")
        }
    );
}

#[test]
fn a_navigation_is_accepted_with_or_without_a_summary() {
    let mut store = Store::new();
    store.put("main", &idle_lane());
    let (state, _, _) = store.carry_out(navigate(Some("there"), false, Some("tag"), true));
    match state.operation.unwrap().state {
        OperationState::NavigationReadyToCommit { target_id, label, .. } => {
            assert_eq!(target_id, Some(text("there")));
            assert_eq!(label, Some(text("tag")));
        }
        other => panic!("{other:?}"),
    }
    let mut store = Store::new();
    store.put("main", &idle_lane());
    let (state, _, _) = store.carry_out(navigate(Some("there"), true, None, true));
    match state.operation.unwrap().state {
        OperationState::SummaryDeciding { task, .. } => {
            assert_eq!(task.reason, None);
            assert_eq!(
                task.boundary,
                ResultBoundary::CommitNavigation { target_id: text("there"), label: None }
            );
        }
        other => panic!("{other:?}"),
    }
    assert!(store.holds(&Address::OperationPreparation {
        operation_id: text("op"),
        task_id: text("task")
    }));
}

#[test]
fn a_lane_that_moved_has_to_be_looked_at_again() {
    let command = accept_navigation(
        &text("main"),
        &text("op"),
        &text("task"),
        11,
        &config(),
        idle_lane(),
        &Some(text("earlier")),
        &Some(text("there")),
        false,
        &None,
        &None,
        true,
        &None,
    );
    assert_eq!(command, LaneCommand::Return { result: Answer::Granted { value: None } });
}

#[test]
fn what_a_navigation_leaves_starts_behind_the_meeting_place() {
    let old_path = vec![
        message_entry("c", Some("b"), user("3")),
        message_entry("b", Some("a"), user("2")),
        message_entry("a", None, user("1")),
    ];
    let target_path = vec![
        message_entry("d", Some("a"), user("4")),
        message_entry("a", None, user("1")),
    ];
    let left = branch_entries(&old_path, &target_path);
    let left: Vec<String> = left.iter().map(|entry| entry.id().clone()).collect();
    assert_eq!(left, vec![text("b"), text("c")]);
}

#[test]
fn queued_entries_can_be_taken_back_once() {
    let mut store = Store::new();
    store.put("main", &idle_lane());
    let rows = vec![message_row("q", "later")];
    let command = enqueue(
        &text("main"),
        idle_lane(),
        &rows,
        &text("q"),
        InboxItemKind::NextRun,
        user("later"),
    )
    .unwrap();
    let (state, _, events) = store.carry_out(command);
    assert_eq!(
        events,
        vec![HarnessEvent::QueueUpdate {
            lane: text("main"),
            queues: vec![LaneQueuedItem::Message {
                entry_id: text("q"),
                kind: InboxItemKind::NextRun,
                message: user("later")
            }],
            recovery: None
        }]
    );
    let command =
        cancel_queued(&text("main"), state, &store.payloads(), &text("q"), false).unwrap();
    let (state, kind, _) = store.carry_out(command);
    assert_eq!(kind, CancelQueuedKind::Cancelled);
    assert!(!store.holds(&Address::PendingEntry { entry_id: text("q") }));
    for (consumed, expected) in
        [(false, CancelQueuedKind::NotFound), (true, CancelQueuedKind::AlreadyConsumed)]
    {
        assert_eq!(
            cancel_queued(&text("main"), state.clone(), &Vec::new(), &text("q"), consumed),
            Ok(LaneCommand::Return { result: expected })
        );
    }
}

#[test]
fn queued_input_has_to_say_something() {
    assert_eq!(
        queued_message(&text("main"), &text(""), &Vec::new(), 3),
        Err(HarnessError::InvalidMessage {
            lane: text("main"),
            reason: text("empty"),
            message: text("Queued input must contain text or an image"),
        })
    );
    assert!(queued_message(&text("main"), &text("x"), &Vec::new(), 3).is_ok());
}

#[test]
fn an_idle_lane_appends_behind_its_queued_writes() {
    let mut lane = idle_lane();
    lane.inbox =
        vec![queued("w", InboxItemKind::Write), queued("n", InboxItemKind::NextRun)];
    let mut store = Store::new();
    store.put("main", &lane);
    let rows = vec![custom_row("w", "note"), message_row("n", "next")];
    let command = append(
        &text("main"),
        lane,
        &rows,
        &text("new"),
        PendingEntry::Message { payload: user("now") },
    )
    .unwrap();
    let (state, id, _) = store.carry_out(command);
    assert_eq!(id, text("new"));
    assert_eq!(state.tip_id, Some(text("new")));
    assert_eq!(ids(&state.inbox), vec![text("n")]);
    let placed: Vec<String> = store.entries.iter().map(|entry| entry.id().clone()).collect();
    assert_eq!(placed, vec![text("w"), text("new")]);
}

#[test]
fn a_busy_lane_queues_what_is_appended() {
    let lane = busy_lane(OperationState::Starting { scope: scope() });
    let mut store = Store::new();
    store.put("main", &lane);
    let rows = vec![message_row("new", "now")];
    let command = append(
        &text("main"),
        lane,
        &rows,
        &text("new"),
        PendingEntry::Message { payload: user("now") },
    )
    .unwrap();
    let (state, _, _) = store.carry_out(command);
    assert_eq!(state.tip_id, Some(text("root")));
    assert_eq!(state.inbox, vec![queued("new", InboxItemKind::Write)]);
}

#[test]
fn usage_is_recorded_beside_the_lane() {
    let mut store = Store::new();
    store.put("main", &idle_lane());
    let command = record_usage(idle_lane(), &text("u"), usage(4), None, None);
    let (state, outcome, _) = store.carry_out(command);
    assert_eq!(outcome, RecordUsageOutcome { usage_id: text("u") });
    assert_eq!(state, idle_lane());
}

#[test]
fn a_request_to_stop_gives_back_what_was_queued() {
    let mut lane = busy_lane(generating(scope(), 1));
    lane.inbox = item_list(&[
        ("s", InboxItemKind::Steer),
        ("n", InboxItemKind::NextRun),
        ("f", InboxItemKind::FollowUp),
    ]);
    let rows =
        vec![message_row("s", "left"), message_row("n", "next"), message_row("f", "and")];
    let mut store = Store::new();
    store.put("main", &lane);
    let command = request_abort(&text("main"), &text("op"), lane, &rows, 7).unwrap();
    let (state, answer, events) = store.carry_out(command);
    assert_eq!(
        answer,
        Answer::Granted {
            value: AbortRequest {
                operation_id: text("op"),
                newly_requested: true,
                steer: vec![user("left")],
                follow_up: vec![user("and")],
            }
        }
    );
    assert_eq!(ids(&state.inbox), vec![text("n")]);
    assert_eq!(state.operation.unwrap().state, generating(stopped_scope(), 1));
    assert_eq!(events.len(), 2);
}

#[test]
fn only_the_operation_of_a_lane_can_be_stopped() {
    let lane = busy_lane(generating(scope(), 1));
    let command = request_abort(&text("main"), &text("other"), lane, &Vec::new(), 7).unwrap();
    assert_eq!(
        refusal(command),
        HarnessError::OperationMismatch {
            lane: text("main"),
            expected: text("other"),
            current: Some(text("op")),
            last: None,
            message: text("Operation other does not own lane \"main\""),
        }
    );
}

#[test]
fn settings_of_a_lane_change_with_an_event() {
    let mut store = Store::new();
    store.put("main", &idle_lane());
    let other = ModelIdentity { provider: text("acme"), model_id: text("small") };
    let command = set_configuration_identity(&text("main"), idle_lane(), other.clone());
    let (state, _, events) = store.carry_out(command);
    assert_eq!(state.configuration.model, other);
    assert_eq!(
        events,
        vec![HarnessEvent::ConfigUpdate {
            lane: Some(text("main")),
            payload: ConfigUpdatePayload::Model { value: other, previous: model() },
            recovery: None
        }]
    );
    let command = set_thinking_level(&text("main"), state, ThinkingLevel::High);
    let (state, _, _) = store.carry_out(command);
    assert_eq!(state.configuration.thinking_level, ThinkingLevel::High);
    let command = set_active_tools(&text("main"), state, vec![text("write")]);
    let (state, _, events) = store.carry_out(command);
    assert_eq!(state.configuration.active_tool_names, vec![text("write")]);
    assert_eq!(
        events,
        vec![HarnessEvent::ConfigUpdate {
            lane: Some(text("main")),
            payload: ConfigUpdatePayload::ActiveTools {
                value: vec![text("write")],
                previous: vec![text("read")]
            },
            recovery: None
        }]
    );
}

#[test]
fn an_execution_names_the_model_in_use() {
    let lane = busy_lane(generating(stopped_scope(), 1));
    assert_eq!(
        inspect_execution(&text("main"), &lane),
        Execution {
            lane: text("main"),
            tip_id: Some(text("root")),
            configured_model: model(),
            current: Some(CurrentExecution {
                id: text("op"),
                kind: text("run"),
                status: text("aborting"),
                started_at: 11,
                captured_model: Some(model()),
            }),
            last_operation_id: None,
        }
    );
    assert_eq!(captured_model(&OperationState::Starting { scope: scope() }), None);
    assert_eq!(inspect_execution(&text("main"), &idle_lane()).current, None);
}

#[test]
fn a_scan_starts_at_the_tip_and_goes_back() {
    let query = BranchScan { start: None, order: None, limit: None };
    assert_eq!(scan_start(&query, &idle_lane()), Some(text("root")));
    assert_eq!(scan_order(&query), ScanOrder::NewestFirst);
    let given = BranchScan {
        start: Some(text("x")),
        order: Some(ScanOrder::OldestFirst),
        limit: Some(9),
    };
    assert_eq!(scan_start(&given, &idle_lane()), Some(text("x")));
    assert_eq!(scan_order(&given), ScanOrder::OldestFirst);
    assert_eq!(single_limit(Some(9)), 1);
    assert_eq!(single_limit(Some(0)), 0);
    assert_eq!(single_limit(None), 1);
}

fn options(operation_id: &str) -> DriveOptions {
    DriveOptions {
        operation_id: text(operation_id),
        wait_for_retry: true,
        poll_deferred: true,
    }
}

fn result_record() -> OperationResultRecord {
    OperationResultRecord {
        operation_id: text("done"),
        kind: OperationIntent::Run { prompt_entry_ids: Vec::new() },
        status: TerminalStatus::Completed,
        error: None,
        from_tip_id: None,
        tip_id: None,
        started_at: 1,
        ended_at: 2,
    }
}

#[test]
fn an_operation_has_one_drive() {
    let mut lane = LaneImpl::new(text("main"), busy_lane(generating(scope(), 1)));
    assert_eq!(
        lane.command_drive_claim(&options("op"), true, None),
        Err(text("The operation was aborted"))
    );
    assert_eq!(
        lane.command_drive_claim(&options("op"), false, None),
        Ok(DriveClaim::Observe { installed: true })
    );
    assert_eq!(lane.active_drive.as_ref().unwrap().deferred_permits, 1);
    assert_eq!(lane.generation, 1);
    assert_eq!(
        lane.command_drive_claim(&options("op"), false, None),
        Ok(DriveClaim::Observe { installed: false })
    );
    assert_eq!(
        lane.command_drive_claim(&options("done"), false, Some(result_record())),
        Ok(DriveClaim::Settled { outcome: result_record() })
    );
    match lane.command_drive_claim(&options("gone"), false, None) {
        Ok(DriveClaim::Mismatch { error }) => {
            assert!(matches!(error, HarnessError::OperationMismatch { .. }))
        }
        other => panic!("{other:?}"),
    }
    lane.state.operation.as_mut().unwrap().meta.operation_id = text("next");
    assert_eq!(
        lane.command_drive_claim(&options("next"), false, None),
        Ok(DriveClaim::Occupied)
    );
    assert!(lane.is_driving(&text("op")));
    assert!(!lane.is_driving(&text("next")));
    lane.release_drive(&text("next"));
    assert!(lane.active_drive.is_some());
    lane.release_drive(&text("op"));
    assert!(lane.active_drive.is_none());
}

#[test]
fn a_drive_ends_with_an_outcome_or_an_error() {
    let mut drive = Drive::new(&options("op"));
    assert_eq!(drive.completion(), Ok(None));
    drive.use_permit();
    assert_eq!(drive.deferred_permits, 0);
    let outcome = DriveOutcome::Settled { outcome: result_record() };
    drive.settle(outcome.clone());
    assert_eq!(drive.completion(), Ok(Some(outcome)));
    drive.fail(text("broken"));
    assert_eq!(drive.completion(), Err(text("broken")));
    assert!(!drive.close_signal);
    drive.close_gate(text("closed"));
    assert!(drive.close_signal);
    assert_eq!(drive.completion(), Err(text("closed")));
}

#[test]
fn a_sealed_lane_keeps_its_first_error() {
    let mut lane = LaneImpl::new(text("main"), busy_lane(generating(scope(), 1)));
    assert_eq!(lane.assert_open(), Ok(()));
    lane.command_drive_claim(&options("op"), false, None).unwrap();
    lane.seal(text("first"));
    lane.seal(text("second"));
    assert_eq!(lane.assert_open(), Err(text("first")));
    assert_eq!(lane.command(), Err(text("first")));
    assert_eq!(lane.active_drive.as_ref().unwrap().completion(), Err(text("second")));
    assert!(lane.active_drive.as_ref().unwrap().close_signal);
}

#[test]
fn an_idle_lane_can_be_held() {
    let mut lane = LaneImpl::new(text("main"), idle_lane());
    assert!(lane.wait_for_idle());
    assert_eq!(lane.command(), Ok(true));
    assert!(lane.run_when_idle(5));
    assert_eq!(lane.idle_owner, Some(5));
    assert_eq!(lane.command(), Ok(false));
    lane.release_idle(6);
    assert_eq!(lane.idle_owner, Some(5));
    lane.release_idle(5);
    assert_eq!(lane.idle_owner, None);
    lane.run_command(busy_lane(OperationState::Starting { scope: scope() }));
    assert!(!lane.wait_for_idle());
    assert!(!lane.run_when_idle(7));
    let before = lane.generation;
    lane.signal_state_change();
    assert_eq!(lane.generation, before + 1);
}

#[test]
fn a_request_gets_an_id_and_a_way() {
    let named = OperationRequest::Compaction {
        operation_id: Some(text("mine")),
        custom_instructions: None,
    };
    assert_eq!(accept(&named, text("fresh")), (text("mine"), Acceptance::Compaction));
    let prompt = OperationRequest::Prompt {
        operation_id: None,
        prompt: json_text("hi"),
        images: None,
    };
    assert_eq!(accept(&prompt, text("fresh")), (text("fresh"), Acceptance::Run));
    let navigation = OperationRequest::Navigation {
        operation_id: None,
        target_id: None,
        summarize: false,
        label: None,
        custom_instructions: None,
    };
    assert_eq!(accept(&navigation, text("fresh")).1, Acceptance::Navigation);
}

#[test]
fn a_drive_that_rests_answers_its_request() {
    let closed = HarnessError::Closed { message: text("over") };
    assert_eq!(
        drive_run_result(&text("op"), Answer::Refused { error: closed.clone() }),
        Ok(Answer::Refused { error: closed.clone() })
    );
    let lost = HarnessError::NoActiveOperation { lane: text("main"), message: text("gone") };
    assert_eq!(
        drive_run_result(&text("op"), Answer::Refused { error: lost.clone() }),
        Err(text("Accepted run op no longer matches its lane"))
    );
    let deferred =
        DriveOutcome::WaitingDeferred { operation_id: text("op"), deferred: handle() };
    assert_eq!(
        drive_run_result(&text("op"), Answer::Granted { value: deferred.clone() }),
        Ok(Answer::Granted {
            value: RunSettlement::Suspended { operation_id: text("op"), deferred: handle() }
        })
    );
    assert_eq!(
        drive_run_result(&text("op"), Answer::Granted { value: waiting_retry(&text("op"), 5) }),
        Err(text("Run op returned an unwaited retry"))
    );
    let admission = OperationAdmission {
        operation_id: text("op"),
        kind: text("compaction"),
        started_at: 1,
    };
    assert_eq!(
        drive_structural_admission(&admission, Answer::Refused { error: lost }),
        Err(StructuralFault::Mismatch(text(
            "Accepted compaction op no longer matches its lane"
        )))
    );
    assert_eq!(
        drive_structural_admission(&admission, Answer::Refused { error: closed.clone() }),
        Ok(Answer::Refused { error: closed })
    );
    assert_eq!(
        drive_structural_admission(&admission, Answer::Granted { value: deferred.clone() }),
        Err(StructuralFault::Unsettled(deferred))
    );
    let settled = DriveOutcome::Settled { outcome: result_record() };
    assert_eq!(
        drive_structural_admission(&admission, Answer::Granted { value: settled }),
        Ok(Answer::Granted { value: result_record() })
    );
}

#[test]
fn a_run_follows_a_structural_operation_that_was_not_aborted() {
    assert!(continues_after_structural(&result_record()));
    let mut aborted = result_record();
    aborted.status = TerminalStatus::Aborted;
    assert!(!continues_after_structural(&aborted));
    let busy = HarnessError::LaneBusy {
        lane: text("main"),
        operation_id: text("op"),
        kind: text("run"),
        message: text("busy"),
    };
    assert!(skips_continuation(&busy));
    let unknown = HarnessError::UnknownSkill { name: text("x"), message: text("x") };
    assert!(!skips_continuation(&unknown));
}

#[test]
fn there_has_to_be_an_operation_to_resume_or_abort() {
    let lane = busy_lane(generating(scope(), 1));
    assert_eq!(resume(&text("main"), &lane), Ok(text("op")));
    assert_eq!(abort(&text("main"), &lane), Ok(text("op")));
    assert_eq!(
        resume(&text("a\"b"), &idle_lane()),
        Err(HarnessError::NothingToResume {
            lane: text("a\"b"),
            message: text("Lane \"a\\\"b\" has no active operation to resume"),
        })
    );
    assert_eq!(
        abort(&text("main"), &idle_lane()),
        Err(HarnessError::NoActiveOperation {
            lane: text("main"),
            message: text("Lane \"main\" has no active operation"),
        })
    );
    let closed = HarnessError::Closed { message: text("over") };
    assert_eq!(abort_error(&text("op"), closed.clone()), closed);
    let lost = HarnessError::NothingToResume { lane: text("main"), message: text("gone") };
    assert_eq!(
        abort_error(&text("op"), lost),
        HarnessError::Closed {
            message: text("Cancelled operation op no longer matches its lane")
        }
    );
}

#[test]
fn a_decision_stands_only_while_the_operation_runs() {
    let planned = OperationCommand::Return { result: ProcedureResult::Continue };
    assert_eq!(
        continue_operation(&generating(stopped_scope(), 1), planned),
        OperationCommand::Return { result: ContinueOperationResult::CancelRequested }
    );
    let planned = OperationCommand::Return { result: ProcedureResult::Continue };
    assert_eq!(
        continue_operation(&generating(scope(), 1), planned),
        OperationCommand::Return {
            result: ContinueOperationResult::Result { value: ProcedureResult::Continue }
        }
    );
}

#[test]
fn a_patch_leaves_what_it_does_not_name() {
    let patched = apply_lane_patch(
        idle_lane(),
        Some(LanePatch { tip_id: None, configuration: None, inbox: Some(Vec::new()) }),
    );
    assert_eq!(patched, idle_lane());
    let moved = apply_lane_patch(
        idle_lane(),
        Some(LanePatch { tip_id: Some(Some(text("x"))), configuration: None, inbox: None }),
    );
    assert_eq!(moved.tip_id, Some(text("x")));
    assert_eq!(apply_lane_patch(idle_lane(), None), idle_lane());
}

#[test]
fn cancelling_keeps_the_leaf() {
    let stopped = with_cancel_requested(generating(scope(), 2), 7);
    assert_eq!(stopped, generating(stopped_scope(), 2));
    let polled = with_cancel_requested(polling(Control::Running), 7);
    assert_eq!(polled, polling(Control::CancelRequested { requested_at: 7 }));
    assert_eq!(state_control(&polled), Control::CancelRequested { requested_at: 7 });
}

#[test]
fn a_snapshot_shows_the_transcript_from_the_oldest_entry() {
    let scanned = vec![
        message_entry("b", Some("a"), user("2")),
        message_entry("a", None, user("1")),
    ];
    let snapshot = capture_lane_snapshot_inner(
        &text("main"),
        &idle_lane(),
        &scanned,
        &Vec::new(),
        None,
        stats(2),
        None,
        None,
        &Vec::new(),
        false,
    )
    .unwrap();
    let order: Vec<String> = snapshot.transcript.iter().map(|e| e.id().clone()).collect();
    assert_eq!(order, vec![text("a"), text("b")]);
    let mut rootless = idle_lane();
    rootless.tip_id = None;
    let snapshot = capture_lane_snapshot_inner(
        &text("main"),
        &rootless,
        &scanned,
        &Vec::new(),
        None,
        stats(2),
        None,
        None,
        &Vec::new(),
        true,
    )
    .unwrap();
    assert!(snapshot.transcript.is_empty());
    assert!(snapshot.faulted);
    let mut done = idle_lane();
    done.last_operation_id = Some(text("op"));
    assert_eq!(
        capture_lane_snapshot_inner(
            &text("main"),
            &done,
            &scanned,
            &Vec::new(),
            None,
            stats(2),
            None,
            None,
            &Vec::new(),
            false
        ),
        Err(text("Lane \"main\" is missing result op"))
    );
}

fn no_read() -> ToolRead {
    ToolRead { args: None, checkpoint: None, staged: None }
}

#[test]
fn a_snapshot_shows_running_and_settled_tools() {
    let entry =
        message_entry("answer", None, AgentMessage::Assistant(calling(&["c1", "c2", "c3"])));
    let lane = busy_lane(running_tools(vec![
        running_call(1, "r1"),
        staged_call(2, "r2", false),
        planned_call(3, "r3"),
    ]));
    let operation = lane.operation.unwrap();
    assert_eq!(needed_entry(&operation.state), Some(text("answer")));
    let reads = vec![
        ToolRead {
            args: Some(json_text("stored")),
            checkpoint: Some(shown_result()),
            ..no_read()
        },
        ToolRead {
            staged: Some(StagedOutcome {
                message: tool_result("c2", true),
                shown: shown_result(),
            }),
            ..no_read()
        },
        no_read(),
    ];
    let shown = show_operation(&operation, Some(&entry), None, &reads).unwrap();
    assert_eq!(shown.status, text("open"));
    assert_eq!(
        shown.running_tools,
        vec![
            LaneSnapshotTool::Running {
                tool_call_id: text("c1"),
                tool_name: text("read"),
                args: json_text("stored"),
                result: Some(shown_result()),
            },
            LaneSnapshotTool::Settled {
                tool_call_id: text("c2"),
                tool_name: text("read"),
                args: json_text("given"),
                result: shown_result(),
                is_error: true,
            },
        ]
    );
    let lane = busy_lane(running_tools(vec![running_call(0, "r1")]));
    assert_eq!(
        show_operation(&lane.operation.unwrap(), Some(&entry), None, &vec![no_read()]),
        Err(text("Tool call source index 0 does not name a tool-call block"))
    );
}

#[test]
fn a_snapshot_shows_what_an_operation_waits_for() {
    let waiting = OperationState::AssistantRetryWait {
        scope: scope(),
        generation_context: generation_context(),
        next_attempt: 2,
        not_before: 99,
        error_message: text("busy"),
    };
    let operation = Operation { meta: run_meta(), state: waiting };
    let shown = show_operation(&operation, None, None, &Vec::new()).unwrap();
    assert_eq!(
        shown.retry,
        Some(RetrySnapshot { attempt: 2, max_attempts: 3, next_attempt_at: 99 })
    );
    let mut later = assistant(StopReason::Deferred);
    later.deferred = Some(handle());
    let entry = message_entry("handle-entry", None, AgentMessage::Assistant(later));
    let operation = Operation { meta: run_meta(), state: polling(Control::Running) };
    let partial = Some(assistant(StopReason::Pending));
    let shown = show_operation(&operation, Some(&entry), partial.clone(), &Vec::new()).unwrap();
    assert_eq!(shown.deferred, Some(DeferredSnapshot { handle: handle(), poll: 4 }));
    assert_eq!(shown.streaming_message, partial);
}

#[test]
fn an_observer_hears_of_its_lane_the_harness_and_usage() {
    let own = HarnessEvent::RunResume { lane: text("main"), run_id: text("op"), recovery: None };
    let other = HarnessEvent::RunResume { lane: text("two"), run_id: text("op"), recovery: None };
    let spent = HarnessEvent::Usage {
        lane: text("two"),
        row: UsageRow {
            id: text("u"),
            seq: 0,
            usage: usage(1),
            entry_id: None,
            adjustment: false,
            details: None,
        },
        totals: usage(1),
    };
    let fault = HarnessEvent::Fault { lane: None, message: text("down") };
    assert!(watch(&text("main"), &own));
    assert!(!watch(&text("main"), &other));
    assert!(watch(&text("main"), &spent));
    assert!(watch(&text("main"), &fault));
}

#[test]
fn a_snapshot_shows_the_operation_and_the_queues_of_its_lane() {
    let mut lane = busy_lane(generating(stopped_scope(), 2));
    lane.inbox = vec![queued("s1", InboxItemKind::Steer)];
    let rows = vec![message_row("s1", "wait")];
    let partial = Some(assistant(StopReason::Pending));
    let capture = |lane: &LaneRuntimeState, rows: &Vec<PendingRow>| {
        capture_lane_snapshot_inner(
            &text("main"),
            lane,
            &Vec::new(),
            rows,
            None,
            stats(2),
            None,
            partial.clone(),
            &Vec::new(),
            false,
        )
    };
    let snapshot = capture(&lane, &rows).unwrap();
    let shown = snapshot.operation.unwrap();
    assert_eq!(shown.id, text("op"));
    assert_eq!(shown.status, text("aborting"));
    assert_eq!(shown.retry, None);
    assert_eq!(shown.streaming_message, partial);
    assert_eq!(
        snapshot.queues,
        vec![LaneQueuedItem::Message {
            entry_id: text("s1"),
            kind: InboxItemKind::Steer,
            message: user("wait"),
        }]
    );
    assert!(capture(&lane, &Vec::new()).is_err());
    lane.operation = None;
    assert_eq!(capture(&lane, &rows).unwrap().operation, None);
    let tools = busy_lane(running_tools(vec![running_call(0, "r1")]));
    let entry = message_entry("answer", None, AgentMessage::Assistant(calling(&["c1"])));
    assert_eq!(
        capture_lane_snapshot_inner(
            &text("main"),
            &tools,
            &Vec::new(),
            &Vec::new(),
            None,
            stats(2),
            Some(&entry),
            None,
            &vec![no_read()],
            false,
        ),
        Err(text("Tool call source index 0 does not name a tool-call block"))
    );
}

#[test]
fn only_a_staged_tool_result_is_read() {
    let result = tool_result("c1", false);
    let entry = PendingEntry::Message { payload: AgentMessage::ToolResult(result.clone()) };
    assert_eq!(read_staged(Some(entry)), Some(result));
    assert_eq!(read_staged(Some(PendingEntry::Message { payload: user("x") })), None);
    assert_eq!(read_staged(None), None);
}
