//! Compactions, branch summaries and navigations.

use pi_runtime::command::{LaneCommand, OperationCommand};
use pi_runtime::drive::checkpoint::ReservedMessage;
use pi_runtime::drive::structural::{
    BranchPreparation, CompactionPreparation, FileOperations, branch_preparation,
    checkpoint_trigger, commit_navigation, compaction_check_due, compaction_preparation,
    durable_branch_preparation, durable_compaction_preparation, durable_file_operations,
    file_operations, find_on_path, overflow_recoverable, prepare_compaction_threshold,
    threshold_applies,
};
use pi_runtime::drive::structural_run::{
    AttemptPreparation, AttemptVerdict, BranchSummaryResult, CompactResult, DecisionHook,
    HookVerdict, StructuralAttempt, StructuralOutcome, SummaryError, SummaryErrorCode,
    branch_attempt, compaction_attempt, compaction_reason, decision_hook, model_unavailable,
    operation_error, outcome_usage, publish_attempt_intent, publish_attempt_result,
    publish_structural_outcome, publish_structural_ready, publish_wait, read_attempt_preparation,
    read_structural_preparation, read_verdict, records_hook_usage, recover_structural_generation,
    run_structural_retry_wait, summary_context, summary_context_for, summary_kind,
};
use pi_runtime::json::Json;
use pi_runtime::lane::intake::{accept_navigation, accept_run};
use pi_runtime::lane::settle::settle_operation;
use pi_runtime::model::event::{HarnessEvent, RetryPolicy};
use pi_runtime::model::message::{AgentMessage, Usage, UserContent, UserMessage};
use pi_runtime::model::session::{
    CheckpointData, CompactionSettings, Continuation, Control, DurableFileOperations,
    DurableLaneState, LaneConfiguration, ModelIdentity, NormalizedRetryPolicy, Operation,
    OperationIntent, OperationMeta, OperationScope, OperationState, PendingEntry, QueueMode,
    ReplayPolicy, ResultBoundary, RunSettings, StreamOptions, SummaryContext, SummaryTask,
    TerminalStatus, ThinkingLevel, ToolExecution,
};
use pi_runtime::model::storage::{
    Address, CommitResult, CompactionEntry, DurableValue, Entry, EntryBase, MessageEntry,
    SessionStats, Write,
};
use pi_runtime::names::Keyed;
use pi_runtime::restore::{SessionRows, restore_session};
use pi_runtime::transcript::{emit, materialize_committed_entry};
use pi_runtime::types::{
    Config, LaneRuntimeState, PendingPayload, PendingRow, ProcedureResult, Resources, SystemPrompt,
    ToolDescriptor,
};

fn text(value: &str) -> String {
    value.to_string()
}

fn json(value: serde_json::Value) -> Json {
    Json { value }
}

fn json_text(value: &str) -> Json {
    json(serde_json::Value::String(value.to_string()))
}

fn json_object(members: &[(&str, serde_json::Value)]) -> Json {
    let mut object = serde_json::Map::new();
    for (key, value) in members {
        object.insert(key.to_string(), value.clone());
    }
    json(serde_json::Value::Object(object))
}

fn null() -> Json {
    json(serde_json::Value::Null)
}

fn model() -> ModelIdentity {
    ModelIdentity { provider: text("acme"), model_id: text("large") }
}

fn configuration() -> LaneConfiguration {
    LaneConfiguration {
        model: model(),
        thinking_level: ThinkingLevel::Low,
        active_tool_names: vec![text("read")],
    }
}

fn compaction_settings() -> CompactionSettings {
    CompactionSettings { enabled: true, reserve_tokens: 100, keep_recent_tokens: 50 }
}

fn settings() -> RunSettings {
    RunSettings {
        compaction: compaction_settings(),
        steering_mode: QueueMode::OneAtATime,
        follow_up_mode: QueueMode::OneAtATime,
        tool_execution: ToolExecution::Parallel,
    }
}

fn scope() -> OperationScope {
    OperationScope {
        control: Control::Running,
        settings: settings(),
        latest_assistant_entry_id: None,
    }
}

fn stream_options() -> StreamOptions {
    StreamOptions {
        deferred: None,
        headers: None,
        timeout_ms: Some(1_000),
        max_retries: None,
        max_retry_delay_ms: None,
    }
}

fn undeferred_options() -> StreamOptions {
    let mut options = stream_options();
    options.deferred = Some(json(serde_json::Value::Bool(false)));
    options
}

fn limits() -> NormalizedRetryPolicy {
    NormalizedRetryPolicy { max_attempts: 3, base_delay_ms: 200, max_agent_delay_ms: 5_000 }
}

fn retry_policy() -> RetryPolicy {
    RetryPolicy {
        enabled: true,
        max_retries: 2,
        base_delay_ms: 200,
        max_agent_delay_ms: Some(5_000),
    }
}

fn usage(total: u64) -> Usage {
    Usage {
        input: total,
        output: 0,
        cache_read: 0,
        cache_write: 0,
        cache_write_1h: None,
        reasoning: None,
        total_tokens: total,
        cost: null(),
    }
}

fn user(content: &str) -> AgentMessage {
    AgentMessage::User(UserMessage { content: UserContent::Text(text(content)), timestamp: 3 })
}

fn entry_base(id: &str, parent_id: Option<&str>) -> EntryBase {
    EntryBase {
        id: text(id),
        parent_id: match parent_id {
            Some(parent_id) => Some(text(parent_id)),
            None => None,
        },
        seq: 1,
        timestamp: 2,
        custom_type: None,
    }
}

fn message_entry(id: &str, parent_id: Option<&str>, message: AgentMessage) -> Entry {
    Entry::Message(MessageEntry { base: entry_base(id, parent_id), message, terminate: None })
}

fn config() -> Config {
    Config {
        tools: vec![
            ToolDescriptor { name: text("read"), replay: Some(ReplayPolicy::Safe) },
            ToolDescriptor { name: text("write"), replay: None },
        ],
        resources: Resources { skills: Vec::new(), prompt_templates: Vec::new() },
        stream_options: stream_options(),
        retry_policy: retry_policy(),
        compaction: compaction_settings(),
        steering_mode: QueueMode::OneAtATime,
        follow_up_mode: QueueMode::OneAtATime,
        tool_execution: ToolExecution::Parallel,
        system_prompt: Some(SystemPrompt::Static(text("be brief"))),
        entry_projectors: vec![text("note")],
    }
}

fn run_meta() -> OperationMeta {
    OperationMeta {
        operation_id: text("op"),
        lane: text("main"),
        intent: OperationIntent::Run { prompt_entry_ids: vec![text("prompt")] },
        source_tip_id: Some(text("root")),
        started_at: 11,
    }
}

fn idle_lane() -> LaneRuntimeState {
    LaneRuntimeState {
        tip_id: Some(text("root")),
        configuration: configuration(),
        inbox: Vec::new(),
        last_operation_id: None,
        operation: None,
    }
}

fn stats(message_count: u64) -> SessionStats {
    SessionStats { message_count, usage: usage(0) }
}

fn structural_task(boundary: ResultBoundary) -> SummaryTask {
    SummaryTask {
        task_id: text("task"),
        reason: Some(text("manual")),
        custom_instructions: None,
        boundary,
    }
}

fn summary_context_of_task() -> SummaryContext {
    SummaryContext {
        result_entry_id: text("summary"),
        configuration: configuration(),
        stream_options: undeferred_options(),
        retry_policy: limits(),
    }
}

fn summarizing(attempt: u32) -> OperationState {
    OperationState::SummaryEffectPending {
        scope: scope(),
        task: structural_task(ResultBoundary::Finish),
        summary_context: summary_context_of_task(),
        attempt,
        request: None,
        usage_ids: Vec::new(),
    }
}

fn files() -> FileOperations {
    FileOperations { read: vec![text("a")], written: vec![text("b")], edited: Vec::new() }
}

fn compaction_plan() -> CompactionPreparation {
    CompactionPreparation {
        messages_to_summarize: vec![user("old")],
        turn_prefix_messages: Vec::new(),
        retained_tail: vec![user("new")],
        is_split_turn: false,
        tokens_before: 900,
        previous_summary: Some(text("before")),
        file_ops: files(),
        settings: compaction_settings(),
    }
}

struct Store {
    values: Vec<(Address, DurableValue)>,
    entries: Vec<Entry>,
    seq: u64,
}

impl Store {
    fn new() -> Store {
        Store { values: Vec::new(), entries: Vec::new(), seq: 0 }
    }

    fn remove(&mut self, address: &Address) {
        self.values.retain(|row| row.0 != *address);
    }

    fn commit(&mut self, writes: &[Write]) -> CommitResult {
        let mut seqs = Vec::new();
        for write in writes {
            self.seq += 1;
            seqs.push(self.seq);
            match write {
                Write::InsertEntry(entry) => {
                    self.entries.push(materialize_committed_entry(entry, self.seq, 77));
                }
                Write::SetValue { address, value } => {
                    self.remove(address);
                    self.values.push((address.clone(), value.clone()));
                }
                Write::DeleteValue { address } => self.remove(address),
                _ => {}
            }
        }
        CommitResult { seqs, timestamp: 77, stats: stats(1) }
    }

    fn holds(&self, address: &Address) -> bool {
        self.values.iter().any(|row| row.0 == *address)
    }

    fn payloads(&self) -> Vec<PendingRow> {
        let mut rows = Vec::new();
        for (address, value) in &self.values {
            if let (Address::PendingEntry { entry_id }, DurableValue::Pending(pending)) =
                (address, value)
            {
                rows.push(PendingRow {
                    entry_id: entry_id.clone(),
                    payload: PendingPayload::Decoded(pending.clone()),
                });
            }
        }
        rows
    }

    fn session(&self) -> SessionRows {
        let mut rows = SessionRows {
            tips: Vec::new(),
            configurations: Vec::new(),
            states: Vec::new(),
            metas: Vec::new(),
            operation_states: Vec::new(),
        };
        for (address, value) in &self.values {
            match (address.clone(), value.clone()) {
                (Address::BranchTip { lane }, DurableValue::Tip(value)) => {
                    rows.tips.push(Keyed { key: lane, value })
                }
                (Address::LaneConfig { lane }, DurableValue::Configuration(value)) => {
                    rows.configurations.push(Keyed { key: lane, value })
                }
                (Address::LaneState { lane }, DurableValue::Lane(value)) => {
                    rows.states.push(Keyed { key: lane, value })
                }
                (Address::OperationMeta { operation_id }, DurableValue::Meta(value)) => {
                    rows.metas.push(Keyed { key: operation_id, value })
                }
                (Address::OperationState { operation_id }, DurableValue::State(value)) => {
                    rows.operation_states.push(Keyed { key: operation_id, value })
                }
                _ => {}
            }
        }
        rows
    }

    fn put(&mut self, lane: &str, state: &LaneRuntimeState) {
        let mut writes = vec![
            Write::SetValue {
                address: Address::BranchTip { lane: text(lane) },
                value: DurableValue::Tip(state.tip_id.clone()),
            },
            Write::SetValue {
                address: Address::LaneConfig { lane: text(lane) },
                value: DurableValue::Configuration(state.configuration.clone()),
            },
        ];
        let mut current_operation_id = None;
        if let Some(operation) = &state.operation {
            let operation_id = operation.meta.operation_id.clone();
            current_operation_id = Some(operation_id.clone());
            writes.push(Write::SetValue {
                address: Address::OperationMeta { operation_id: operation_id.clone() },
                value: DurableValue::Meta(operation.meta.clone()),
            });
            writes.push(Write::SetValue {
                address: Address::OperationState { operation_id },
                value: DurableValue::State(operation.state.clone()),
            });
        }
        writes.push(Write::SetValue {
            address: Address::LaneState { lane: text(lane) },
            value: DurableValue::Lane(DurableLaneState {
                current_operation_id,
                last_operation_id: state.last_operation_id.clone(),
                inbox: state.inbox.clone(),
            }),
        });
        self.commit(&writes);
    }

    fn carry_out<T>(
        &mut self,
        command: LaneCommand<T>,
    ) -> (LaneRuntimeState, T, Vec<HarnessEvent>) {
        match command {
            LaneCommand::Commit { writes, next, result, events } => {
                let commit = self.commit(&writes);
                let restored = restore_session(&self.session()).unwrap();
                assert_eq!(restored.len(), 1);
                assert_eq!(restored[0].key, text("main"));
                assert_eq!(restored[0].value, next);
                (next, result, emit(&events, &commit))
            }
            _ => panic!("nothing was committed"),
        }
    }
}

fn compaction_meta() -> OperationMeta {
    OperationMeta {
        intent: OperationIntent::Compaction { custom_instructions: None },
        ..run_meta()
    }
}

fn compacting(state: OperationState) -> LaneRuntimeState {
    let mut lane = idle_lane();
    lane.operation = Some(Operation { meta: compaction_meta(), state });
    lane
}

fn compaction_result(usage: Option<Usage>) -> CompactResult {
    CompactResult {
        summary: text("short"),
        retained_tail: vec![user("new")],
        tokens_before: 900,
        details: json_text("details"),
        usage,
    }
}

fn deciding() -> OperationState {
    OperationState::SummaryDeciding {
        scope: scope(),
        task: structural_task(ResultBoundary::Finish),
    }
}

fn branch_task() -> SummaryTask {
    let mut task = structural_task(ResultBoundary::CommitNavigation {
        target_id: text("there"),
        label: Some(text("tag")),
    });
    task.reason = None;
    task
}

#[test]
fn a_preparation_survives_storage() {
    let stored = durable_compaction_preparation(&compaction_plan());
    assert_eq!(compaction_preparation(&stored), Some(compaction_plan()));
    assert_eq!(branch_preparation(&stored), None);
    let branch =
        BranchPreparation { messages: vec![user("x")], file_ops: files(), total_tokens: 7 };
    let stored = durable_branch_preparation(&branch);
    assert_eq!(compaction_preparation(&stored), None);
    assert_eq!(
        branch_preparation(&stored),
        Some(BranchPreparation {
            messages: vec![user("x")],
            file_ops: files(),
            total_tokens: 7
        })
    );
}

#[test]
fn file_names_are_read_once() {
    let read = file_operations(&DurableFileOperations {
        read: vec![text("a"), text("b"), text("a")],
        written: Vec::new(),
        edited: vec![text("c")],
    });
    assert_eq!(read.read.len(), 2);
    assert!(read.read.contains(&text("a")) && read.read.contains(&text("b")));
    assert_eq!(durable_file_operations(&read).edited, vec![text("c")]);
}

#[test]
fn a_compaction_is_due_behind_the_last_one() {
    let compaction = |id: &str| {
        Entry::Compaction(CompactionEntry {
            base: entry_base(id, None),
            summary: text("s"),
            retained_tail: Vec::new(),
            tokens_before: 1,
            details: None,
            usage: None,
            from_hook: false,
        })
    };
    let path = |ids: &[&str]| -> Vec<Entry> {
        ids.iter()
            .map(|id| {
                if id.starts_with('c') {
                    compaction(id)
                } else {
                    message_entry(id, None, user("x"))
                }
            })
            .collect()
    };
    assert_eq!(compaction_check_due(&path(&["a", "t"]), &text("t")), Ok(true));
    assert_eq!(compaction_check_due(&path(&["c1", "t"]), &text("t")), Ok(true));
    assert_eq!(compaction_check_due(&path(&["t", "c1"]), &text("t")), Ok(false));
    assert_eq!(compaction_check_due(&path(&["c1", "a"]), &text("t")), Ok(false));
    assert_eq!(
        compaction_check_due(&path(&["a"]), &text("t")),
        Err(text("Checkpoint trigger is missing from its Branch"))
    );
    assert_eq!(find_on_path(&path(&["a", "b"]), &text("b")), Some(1));
}

#[test]
fn a_threshold_needs_a_checkpoint_and_a_model() {
    let leaf = OperationState::Checkpoint {
        scope: scope(),
        continuation: Continuation::NeedAssistant { overflow_recovery_used: false },
        trigger_entry_id: text("t"),
    };
    assert!(threshold_applies(&leaf, true));
    assert!(!threshold_applies(&leaf, false));
    assert!(!threshold_applies(&deciding(), true));
    assert_eq!(checkpoint_trigger(&leaf), text("t"));
    assert_eq!(checkpoint_trigger(&deciding()), text(""));
    assert_eq!(
        prepare_compaction_threshold(&Some(compaction_plan()), false, text("task")),
        None
    );
    assert_eq!(prepare_compaction_threshold(&None, true, text("task")), None);
    assert!(!overflow_recoverable(&leaf));
}

fn go(
    target_id: Option<&str>,
    label: Option<&str>,
    exists: bool,
) -> Result<OperationCommand<ProcedureResult>, String> {
    let mut meta = run_meta();
    meta.intent = OperationIntent::Navigation {
        target_id: target_id.map(text),
        summarize: false,
        label: label.map(text),
        custom_instructions: None,
    };
    let leaf = OperationState::NavigationReadyToCommit {
        scope: scope(),
        target_id: target_id.map(text),
        label: label.map(text),
    };
    commit_navigation(
        &text("main"),
        &text("op"),
        target_id.map(text),
        label.map(text),
        exists,
        &leaf,
        &meta,
        Vec::new(),
        30,
    )
}

#[test]
fn a_navigation_moves_the_tip_and_labels_its_target() {
    let mut lane = idle_lane();
    lane.operation = Some(Operation {
        meta: OperationMeta {
            intent: OperationIntent::Navigation {
                target_id: Some(text("there")),
                summarize: false,
                label: Some(text("tag")),
                custom_instructions: None,
            },
            ..run_meta()
        },
        state: OperationState::NavigationReadyToCommit {
            scope: scope(),
            target_id: Some(text("there")),
            label: Some(text("tag")),
        },
    });
    let mut store = Store::new();
    store.put("main", &lane);
    let command = go(Some("there"), Some("tag"), true).unwrap();
    let settled = settle_operation(&text("main"), lane, command);
    let (state, result, events) = store.carry_out(settled);
    assert_eq!(state.tip_id, Some(text("there")));
    assert!(store.holds(&Address::EntryLabel { entry_id: text("there") }));
    assert!(matches!(result, ProcedureResult::Settled { .. }));
    assert!(matches!(&events[0], HarnessEvent::NavigationEnd { ended_at: 30, .. }));
}

#[test]
fn a_navigation_that_went_stale_is_refused() {
    assert_eq!(
        go(Some("gone"), None, false),
        Err(text("Navigation target gone is missing"))
    );
    assert_eq!(
        go(Some("root"), None, true),
        Err(text("Navigation target must differ from its source tip"))
    );
    assert_eq!(
        go(None, Some("tag"), true),
        Err(text("Root navigation cannot set a label"))
    );
}

#[test]
fn a_structural_task_is_tried_until_its_attempts_are_used_up() {
    let mut store = Store::new();
    let lane = compacting(deciding());
    store.put("main", &lane);
    let command =
        publish_structural_ready(&config(), 9, text("summary"), &lane, &deciding());
    let settled = settle_operation(&text("main"), lane, command);
    let (mut lane, _, _) = store.carry_out(settled);
    for attempt in 1..3u32 {
        let leaf = lane.operation.as_ref().unwrap().state.clone();
        assert_eq!(leaf.at(), "summary.ready");
        let command = publish_attempt_intent(&leaf);
        let settled = settle_operation(&text("main"), lane, command);
        let (running, effect, _) = store.carry_out(settled);
        assert_eq!(effect, summarizing(attempt));
        assert_eq!(summary_context_for(&effect), summary_context_of_task());
        let waiting = match recover_structural_generation(&effect, 500, 1_000) {
            AttemptVerdict::Wait(waiting) => waiting,
            other => panic!("{other:?}"),
        };
        assert_eq!(
            waiting,
            OperationState::SummaryRetryWait {
                scope: scope(),
                task: structural_task(ResultBoundary::Finish),
                summary_context: summary_context_of_task(),
                next_attempt: attempt + 1,
                not_before: 1_500,
                error_message: text(
                    "Structural summary attempt was interrupted and its external outcome is unknown"
                ),
            }
        );
        let command = publish_wait(waiting.clone());
        let settled = settle_operation(&text("main"), running, command);
        let (rested, _, _) = store.carry_out(settled);
        let command = run_structural_retry_wait(&waiting, &waiting);
        let settled = settle_operation(&text("main"), rested, command);
        let (ready, _, _) = store.carry_out(settled);
        lane = ready;
    }
    let error = operation_error("bad", "broken", None);
    let attempt = StructuralAttempt::Error { error: error.clone(), retryable: true };
    assert_eq!(
        publish_attempt_result(&summarizing(3), attempt, 500, 1_000),
        AttemptVerdict::Publish(StructuralOutcome::Failed { error: error.clone() })
    );
    let attempt = StructuralAttempt::Error { error: error.clone(), retryable: false };
    assert_eq!(
        publish_attempt_result(&summarizing(1), attempt, 500, 1_000),
        AttemptVerdict::Publish(StructuralOutcome::Failed { error })
    );
    let done = StructuralAttempt::Compaction { result: compaction_result(None) };
    assert_eq!(
        publish_attempt_result(&summarizing(1), done, 500, 1_000),
        AttemptVerdict::Publish(StructuralOutcome::Compaction {
            result_entry_id: text("summary"),
            result: compaction_result(None),
            from_hook: false,
        })
    );
}

fn publish(
    lane: &LaneRuntimeState,
    outcome: &StructuralOutcome,
    hook_usage_id: Option<&str>,
) -> Result<OperationCommand<ProcedureResult>, String> {
    let operation = lane.operation.as_ref().unwrap();
    publish_structural_outcome(
        &text("main"),
        &text("op"),
        lane,
        &operation.state,
        &operation.meta,
        outcome,
        hook_usage_id.map(text),
        Vec::new(),
        40,
    )
}

#[test]
fn a_compaction_enters_the_transcript() {
    let lane = compacting(summarizing(1));
    let mut store = Store::new();
    store.put("main", &lane);
    let outcome = StructuralOutcome::Compaction {
        result_entry_id: text("summary"),
        result: compaction_result(Some(usage(3))),
        from_hook: true,
    };
    assert!(records_hook_usage(&outcome));
    assert_eq!(outcome_usage(&outcome), Some(usage(3)));
    let command = publish(&lane, &outcome, Some("hook-usage")).unwrap();
    let settled = settle_operation(&text("main"), lane, command);
    let (state, result, events) = store.carry_out(settled);
    assert_eq!(state.tip_id, Some(text("summary")));
    assert_eq!(store.entries.len(), 1);
    match result {
        ProcedureResult::Settled { outcome } => {
            assert_eq!(outcome.status, TerminalStatus::Completed);
            assert_eq!(outcome.tip_id, Some(text("summary")));
        }
        other => panic!("{other:?}"),
    }
    match &events[0] {
        HarnessEvent::CompactionEnd { reason, entry_id, .. } => {
            assert_eq!(*reason, text("manual"));
            assert_eq!(*entry_id, None);
        }
        other => panic!("{other:?}"),
    }
}

#[test]
fn a_declined_or_failed_task_leaves_the_tip() {
    for (outcome, status) in [
        (StructuralOutcome::Declined, TerminalStatus::Declined),
        (
            StructuralOutcome::Failed { error: model_unavailable(&model()) },
            TerminalStatus::Failed,
        ),
    ] {
        let lane = compacting(deciding());
        let mut store = Store::new();
        store.put("main", &lane);
        let command = publish(&lane, &outcome, None).unwrap();
        let settled = settle_operation(&text("main"), lane, command);
        let (state, result, _) = store.carry_out(settled);
        assert_eq!(state.tip_id, Some(text("root")));
        assert!(store.entries.is_empty());
        match result {
            ProcedureResult::Settled { outcome } => assert_eq!(outcome.status, status),
            other => panic!("{other:?}"),
        }
    }
}

#[test]
fn an_outcome_has_to_fit_its_task() {
    let compacted = StructuralOutcome::Compaction {
        result_entry_id: text("summary"),
        result: compaction_result(None),
        from_hook: false,
    };
    let branch = OperationState::SummaryDeciding { scope: scope(), task: branch_task() };
    assert_eq!(
        publish(&compacting(branch), &compacted, None),
        Err(text("Structural compaction result does not match branch_summary task task"))
    );
    let summarized = StructuralOutcome::BranchSummary {
        result_entry_id: text("summary"),
        result: BranchSummaryResult {
            summary: text("short"),
            read_files: vec![text("a")],
            modified_files: Vec::new(),
            usage: None,
        },
        from_hook: false,
    };
    assert_eq!(
        publish(&compacting(deciding()), &summarized, None),
        Err(text("Structural branch_summary result does not match compaction task task"))
    );
    let resume_after = CheckpointData {
        continuation: Continuation::NeedAssistant { overflow_recovery_used: false },
        trigger_entry_id: text("trigger"),
    };
    let mut task = structural_task(ResultBoundary::ResumeCheckpoint { resume_after });
    task.reason = None;
    let unreasoned = OperationState::SummaryDeciding { scope: scope(), task };
    assert_eq!(
        publish(&compacting(unreasoned), &compacted, None),
        Err(text("In-run compaction task task is missing its reason"))
    );
    let branch = OperationState::SummaryDeciding { scope: scope(), task: branch_task() };
    match publish(&compacting(branch), &summarized, None).unwrap() {
        OperationCommand::Finish { record, lane, .. } => {
            assert_eq!(record.tip_id, Some(text("summary")));
            assert_eq!(lane.unwrap().tip_id, Some(Some(text("summary"))));
        }
        other => panic!("{other:?}"),
    }
}

#[test]
fn a_task_is_of_a_kind_and_has_a_reason() {
    assert_eq!(summary_kind(&branch_task()), "branch_summary");
    let mut task = structural_task(ResultBoundary::Finish);
    assert_eq!(summary_kind(&task), "compaction");
    assert_eq!(compaction_reason(&task), text("manual"));
    task.reason = None;
    assert_eq!(compaction_reason(&task), text("manual"));
    task.reason = Some(text("overflow"));
    assert_eq!(compaction_reason(&task), text("overflow"));
}

#[test]
fn a_hook_declines_or_offers_a_result() {
    let task = structural_task(ResultBoundary::Finish);
    let decline = json_object(&[
        ("decline", serde_json::Value::Bool(true)),
        ("compaction", serde_json::Value::Null),
    ]);
    assert_eq!(read_verdict(&task, &decline), (HookVerdict::Decline, None));
    let offer = json_object(&[
        ("decline", serde_json::Value::Bool(false)),
        ("compaction", serde_json::Value::String(text("mine"))),
    ]);
    assert_eq!(read_verdict(&task, &offer), (HookVerdict::Offer, Some(json_text("mine"))));
    assert_eq!(read_verdict(&branch_task(), &offer), (HookVerdict::Proceed, None));
    assert_eq!(read_verdict(&task, &null()), (HookVerdict::Proceed, None));
}

#[test]
fn an_attempt_works_on_the_stored_preparation() {
    let task = structural_task(ResultBoundary::Finish);
    let stored = || durable_compaction_preparation(&compaction_plan());
    assert_eq!(
        read_attempt_preparation(&task, &task, Some(stored())),
        Ok(AttemptPreparation::Compaction(compaction_plan()))
    );
    let invalid = Err(text("Structural task task has invalid durable preparation"));
    assert_eq!(read_attempt_preparation(&task, &task, None), invalid);
    assert_eq!(
        read_attempt_preparation(&branch_task(), &branch_task(), Some(stored())),
        invalid
    );
    assert_eq!(read_structural_preparation(&task, &task, Some(stored())), Ok(stored()));
    assert!(read_structural_preparation(&task, &branch_task(), Some(stored())).is_err());
}

#[test]
fn a_summary_is_never_deferred() {
    let mut config = config();
    config.stream_options.deferred = Some(json_text("later"));
    let context = summary_context(&config, 9, text("summary"), configuration());
    assert_eq!(context.stream_options, undeferred_options());
    assert_eq!(context.retry_policy, limits());
    assert_eq!(context.result_entry_id, text("summary"));
}

#[test]
fn a_hook_decides_about_a_task() {
    assert_eq!(decision_hook(&branch_task()), Ok(DecisionHook::BeforeNavigation));
    let mut task = structural_task(ResultBoundary::Finish);
    task.reason = None;
    assert_eq!(
        decision_hook(&task),
        Ok(DecisionHook::BeforeCompaction { reason: text("manual") })
    );
    let resume_after = CheckpointData {
        continuation: Continuation::NeedAssistant { overflow_recovery_used: false },
        trigger_entry_id: text("trigger"),
    };
    let mut task = structural_task(ResultBoundary::ResumeCheckpoint { resume_after });
    task.reason = Some(text("threshold"));
    assert_eq!(
        decision_hook(&task),
        Ok(DecisionHook::BeforeCompaction { reason: text("threshold") })
    );
    task.reason = None;
    assert_eq!(
        decision_hook(&task),
        Err(format!("In-run compaction task {} is missing its reason", task.task_id))
    );
}

#[test]
fn a_summary_that_was_not_made_says_why() {
    let failed = |code: SummaryErrorCode, last_retryable: Option<bool>| {
        let error = SummaryError { code, message: text("no") };
        compaction_attempt(Err(error), last_retryable)
    };
    let expected = |code: &str, retryable: bool| StructuralAttempt::Error {
        error: operation_error(code, "no", None),
        retryable,
    };
    assert_eq!(failed(SummaryErrorCode::Aborted, None), expected("aborted", false));
    assert_eq!(
        failed(SummaryErrorCode::SummarizationFailed, Some(true)),
        expected("summarization_failed", true)
    );
    assert_eq!(
        failed(SummaryErrorCode::SummarizationFailed, Some(false)),
        expected("summarization_failed", false)
    );
    let result = compaction_result(None);
    assert_eq!(
        compaction_attempt(Ok(compaction_result(None)), Some(true)),
        StructuralAttempt::Compaction { result }
    );
    let error = SummaryError { code: SummaryErrorCode::Aborted, message: text("no") };
    assert_eq!(branch_attempt(Err(error), Some(true)), expected("aborted", true));
}

#[test]
fn a_navigation_to_the_root_moves_the_lane_there() {
    let mut lane = idle_lane();
    assert_eq!(lane.tip_id, Some(text("root")));
    let meta = OperationMeta {
        intent: OperationIntent::Navigation {
            target_id: None,
            summarize: false,
            label: None,
            custom_instructions: None,
        },
        ..run_meta()
    };
    let leaf = OperationState::NavigationReadyToCommit {
        scope: scope(),
        target_id: None,
        label: None,
    };
    lane.operation = Some(Operation { meta: meta.clone(), state: leaf });
    let mut store = Store::new();
    store.put("main", &lane);
    let command = go(None, None, false).unwrap();
    let settled = settle_operation(&text("main"), lane, command);
    let (state, result, events) = store.carry_out(settled);
    assert_eq!(state.tip_id, None);
    assert_eq!(state.operation, None);
    assert_eq!(state.last_operation_id, Some(text("op")));
    let restored = restore_session(&store.session()).unwrap();
    assert_eq!(restored[0].value.tip_id, None);
    match result {
        ProcedureResult::Settled { outcome } => {
            assert_eq!(outcome.status, TerminalStatus::Completed);
            assert_eq!(outcome.from_tip_id, meta.source_tip_id);
            assert_eq!(outcome.tip_id, None);
        }
        other => panic!("{other:?}"),
    }
    assert_eq!(
        events,
        vec![HarnessEvent::NavigationEnd {
            lane: text("main"),
            run_id: text("op"),
            from_tip_id: meta.source_tip_id,
            tip_id: None,
            ended_at: 30,
            status: TerminalStatus::Completed,
            error: None,
            recovery: None,
        }]
    );
    let prompt = vec![ReservedMessage { entry_id: text("prompt"), message: user("hello") }];
    let accepted = accept_run(
        &text("main"),
        &text("next"),
        31,
        &config(),
        state,
        &Vec::new(),
        &prompt,
    )
    .unwrap();
    store.carry_out(accepted);
    match &store.entries[0] {
        Entry::Message(entry) => assert_eq!(entry.base.parent_id, None),
        other => panic!("{other:?}"),
    }
}

#[test]
fn an_accepted_navigation_ends_with_its_summary() {
    let mut store = Store::new();
    store.put("main", &idle_lane());
    let preparation = Some(BranchPreparation {
        messages: vec![user("x")],
        file_ops: files(),
        total_tokens: 7,
    });
    let accepted = accept_navigation(
        &text("main"),
        &text("op"),
        &text("task"),
        11,
        &config(),
        idle_lane(),
        &Some(text("root")),
        &Some(text("there")),
        true,
        &Some(text("tag")),
        &None,
        true,
        &preparation,
    );
    let (lane, _, _) = store.carry_out(accepted);
    let outcome = StructuralOutcome::BranchSummary {
        result_entry_id: text("summary"),
        result: BranchSummaryResult {
            summary: text("short"),
            read_files: Vec::new(),
            modified_files: Vec::new(),
            usage: None,
        },
        from_hook: true,
    };
    let command = publish(&lane, &outcome, None).unwrap();
    let (state, result, events) =
        store.carry_out(settle_operation(&text("main"), lane, command));
    assert_eq!(state.tip_id, Some(text("summary")));
    assert_eq!(state.operation, None);
    match result {
        ProcedureResult::Settled { outcome } => {
            assert_eq!(outcome.status, TerminalStatus::Completed);
        }
        other => panic!("{other:?}"),
    }
    match &events[0] {
        HarnessEvent::NavigationEnd { from_tip_id, tip_id, .. } => {
            assert_eq!(*from_tip_id, Some(text("root")));
            assert_eq!(*tip_id, Some(text("summary")));
        }
        other => panic!("{other:?}"),
    }
}
