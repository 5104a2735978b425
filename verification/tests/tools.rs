//! Tool calls: how they run, what becomes of them and where their results go.

use pi_runtime::command::LaneCommand;
use pi_runtime::drive::tool_placement::{
    PlacementItem, announce_results, commit_placement, next_config_contains, read_placement,
    read_tool_batch_source, tool_call_for, turn_end, with_tool_batch,
};
use pi_runtime::drive::tools::{
    CallAction, ToolOutcome, aborted_outcome, announce_batch, call_action, can_replay,
    clear_replay_checkpoint, current_batch, durable_terminate, find_tool, interrupted_outcome,
    is_recovery, is_truncated, replace_call, replay_policy, run_batch, run_tools, select_tools,
    set_memo, stopped_outcome, tool_patch, truncated_outcome, validate_memo_name,
};
use pi_runtime::json::Json;
use pi_runtime::lane::settle::settle_operation;
use pi_runtime::model::event::{HarnessEvent, RetryPolicy};
use pi_runtime::model::message::{
    AgentMessage, AgentToolResult, AssistantMessage, ContentBlock, StopReason, ToolCallBlock,
    ToolResultContent, ToolResultMessage, Usage,
};
use pi_runtime::model::session::{
    CompactionSettings, Continuation, Control, DurableLaneState, LaneConfiguration, ModelIdentity,
    Operation, OperationIntent, OperationMeta, OperationScope, OperationState, PendingEntry,
    QueueMode, ReplayPolicy, RunSettings, StreamOptions, ThinkingLevel, ToolBatch, ToolCall,
    ToolExecution,
};
use pi_runtime::model::storage::{
    Address, CommitResult, DurableValue, Entry, EntryBase, MessageEntry, SessionStats, Write,
};
use pi_runtime::names::Keyed;
use pi_runtime::restore::{SessionRows, restore_session};
use pi_runtime::transcript::{emit, materialize_committed_entry};
use pi_runtime::types::{
    Config, LaneRuntimeState, PendingPayload, PendingRow, Resources, SystemPrompt, ToolDescriptor,
};

fn text(value: &str) -> String {
    value.to_string()
}

fn json(value: serde_json::Value) -> Json {
    Json { value }
}

fn json_text(value: &str) -> Json {
    json(serde_json::Value::String(value.to_string()))
}

fn null() -> Json {
    json(serde_json::Value::Null)
}

fn model() -> ModelIdentity {
    ModelIdentity { provider: text("acme"), model_id: text("large") }
}

fn configuration() -> LaneConfiguration {
    LaneConfiguration {
        model: model(),
        thinking_level: ThinkingLevel::Low,
        active_tool_names: vec![text("read")],
    }
}

fn compaction_settings() -> CompactionSettings {
    CompactionSettings { enabled: true, reserve_tokens: 100, keep_recent_tokens: 50 }
}

fn settings() -> RunSettings {
    RunSettings {
        compaction: compaction_settings(),
        steering_mode: QueueMode::OneAtATime,
        follow_up_mode: QueueMode::OneAtATime,
        tool_execution: ToolExecution::Parallel,
    }
}

fn scope() -> OperationScope {
    OperationScope {
        control: Control::Running,
        settings: settings(),
        latest_assistant_entry_id: None,
    }
}

fn stopped_scope() -> OperationScope {
    OperationScope {
        control: Control::CancelRequested { requested_at: 7 },
        settings: settings(),
        latest_assistant_entry_id: None,
    }
}

fn stream_options() -> StreamOptions {
    StreamOptions {
        deferred: None,
        headers: None,
        timeout_ms: Some(1_000),
        max_retries: None,
        max_retry_delay_ms: None,
    }
}

fn retry_policy() -> RetryPolicy {
    RetryPolicy {
        enabled: true,
        max_retries: 2,
        base_delay_ms: 200,
        max_agent_delay_ms: Some(5_000),
    }
}

fn usage(total: u64) -> Usage {
    Usage {
        input: total,
        output: 0,
        cache_read: 0,
        cache_write: 0,
        cache_write_1h: None,
        reasoning: None,
        total_tokens: total,
        cost: null(),
    }
}

fn assistant(stop_reason: StopReason) -> AssistantMessage {
    AssistantMessage {
        content: Vec::new(),
        api: text("chat"),
        provider: text("acme"),
        model: text("large"),
        response_model: None,
        response_id: None,
        provider_thinking_level: None,
        usage: usage(12),
        stop_reason,
        deferred: None,
        error_message: None,
        raw_stop_reason: None,
        end_turn: None,
        timestamp: 5,
    }
}

fn call_block(id: &str, name: &str) -> ToolCallBlock {
    ToolCallBlock { id: text(id), name: text(name), arguments: json_text("given") }
}

fn calling(ids: &[&str]) -> AssistantMessage {
    let mut message = assistant(StopReason::ToolUse);
    message.content.push(ContentBlock::Other(json_text("thought")));
    for id in ids {
        message.content.push(ContentBlock::ToolCall(call_block(id, "read")));
    }
    message
}

fn tool_result(tool_call_id: &str, is_error: bool) -> ToolResultMessage {
    ToolResultMessage {
        tool_call_id: text(tool_call_id),
        tool_name: text("read"),
        content: vec![ToolResultContent::Text { text: text("done"), text_signature: None }],
        details: None,
        usage: None,
        added_tool_names: None,
        is_error,
        timestamp: 9,
    }
}

fn shown_result() -> AgentToolResult {
    AgentToolResult {
        content: vec![ToolResultContent::Text { text: text("done"), text_signature: None }],
        details: null(),
        usage: None,
    }
}

fn entry_base(id: &str, parent_id: Option<&str>) -> EntryBase {
    EntryBase {
        id: text(id),
        parent_id: match parent_id {
            Some(parent_id) => Some(text(parent_id)),
            None => None,
        },
        seq: 1,
        timestamp: 2,
        custom_type: None,
    }
}

fn message_entry(id: &str, parent_id: Option<&str>, message: AgentMessage) -> Entry {
    Entry::Message(MessageEntry { base: entry_base(id, parent_id), message, terminate: None })
}

fn config() -> Config {
    Config {
        tools: vec![
            ToolDescriptor { name: text("read"), replay: Some(ReplayPolicy::Safe) },
            ToolDescriptor { name: text("write"), replay: None },
        ],
        resources: Resources { skills: Vec::new(), prompt_templates: Vec::new() },
        stream_options: stream_options(),
        retry_policy: retry_policy(),
        compaction: compaction_settings(),
        steering_mode: QueueMode::OneAtATime,
        follow_up_mode: QueueMode::OneAtATime,
        tool_execution: ToolExecution::Parallel,
        system_prompt: Some(SystemPrompt::Static(text("be brief"))),
        entry_projectors: vec![text("note")],
    }
}

fn run_meta() -> OperationMeta {
    OperationMeta {
        operation_id: text("op"),
        lane: text("main"),
        intent: OperationIntent::Run { prompt_entry_ids: vec![text("prompt")] },
        source_tip_id: Some(text("root")),
        started_at: 11,
    }
}

fn idle_lane() -> LaneRuntimeState {
    LaneRuntimeState {
        tip_id: Some(text("root")),
        configuration: configuration(),
        inbox: Vec::new(),
        last_operation_id: None,
        operation: None,
    }
}

fn busy_lane(state: OperationState) -> LaneRuntimeState {
    let mut lane = idle_lane();
    lane.operation = Some(Operation { meta: run_meta(), state });
    lane
}

fn stats(message_count: u64) -> SessionStats {
    SessionStats { message_count, usage: usage(0) }
}

fn planned_call(source_index: usize, result_entry_id: &str) -> ToolCall {
    ToolCall::Planned { source_index, result_entry_id: text(result_entry_id) }
}

fn running_call(source_index: usize, result_entry_id: &str) -> ToolCall {
    ToolCall::EffectPending {
        source_index,
        result_entry_id: text(result_entry_id),
        replay: ReplayPolicy::Safe,
    }
}

fn staged_call(source_index: usize, result_entry_id: &str, terminate: bool) -> ToolCall {
    ToolCall::OutcomeReady { source_index, result_entry_id: text(result_entry_id), terminate }
}

fn done_call(source_index: usize, result_entry_id: &str, terminate: bool) -> ToolCall {
    ToolCall::Completed { source_index, result_entry_id: text(result_entry_id), terminate }
}

fn batch(calls: Vec<ToolCall>) -> ToolBatch {
    ToolBatch {
        assistant_entry_id: text("answer"),
        configuration: configuration(),
        turn_id: text("turn"),
        calls,
    }
}

fn running_tools(calls: Vec<ToolCall>) -> OperationState {
    OperationState::Tools { scope: scope(), batch: batch(calls) }
}

struct Store {
    values: Vec<(Address, DurableValue)>,
    entries: Vec<Entry>,
    seq: u64,
}

impl Store {
    fn new() -> Store {
        Store { values: Vec::new(), entries: Vec::new(), seq: 0 }
    }

    fn remove(&mut self, address: &Address) {
        self.values.retain(|row| row.0 != *address);
    }

    fn commit(&mut self, writes: &[Write]) -> CommitResult {
        let mut seqs = Vec::new();
        for write in writes {
            self.seq += 1;
            seqs.push(self.seq);
            match write {
                Write::InsertEntry(entry) => {
                    self.entries.push(materialize_committed_entry(entry, self.seq, 77));
                }
                Write::SetValue { address, value } => {
                    self.remove(address);
                    self.values.push((address.clone(), value.clone()));
                }
                Write::DeleteValue { address } => self.remove(address),
                _ => {}
            }
        }
        CommitResult { seqs, timestamp: 77, stats: stats(1) }
    }

    fn holds(&self, address: &Address) -> bool {
        self.values.iter().any(|row| row.0 == *address)
    }

    fn payloads(&self) -> Vec<PendingRow> {
        let mut rows = Vec::new();
        for (address, value) in &self.values {
            if let (Address::PendingEntry { entry_id }, DurableValue::Pending(pending)) =
                (address, value)
            {
                rows.push(PendingRow {
                    entry_id: entry_id.clone(),
                    payload: PendingPayload::Decoded(pending.clone()),
                });
            }
        }
        rows
    }

    fn session(&self) -> SessionRows {
        let mut rows = SessionRows {
            tips: Vec::new(),
            configurations: Vec::new(),
            states: Vec::new(),
            metas: Vec::new(),
            operation_states: Vec::new(),
        };
        for (address, value) in &self.values {
            match (address.clone(), value.clone()) {
                (Address::BranchTip { lane }, DurableValue::Tip(value)) => {
                    rows.tips.push(Keyed { key: lane, value })
                }
                (Address::LaneConfig { lane }, DurableValue::Configuration(value)) => {
                    rows.configurations.push(Keyed { key: lane, value })
                }
                (Address::LaneState { lane }, DurableValue::Lane(value)) => {
                    rows.states.push(Keyed { key: lane, value })
                }
                (Address::OperationMeta { operation_id }, DurableValue::Meta(value)) => {
                    rows.metas.push(Keyed { key: operation_id, value })
                }
                (Address::OperationState { operation_id }, DurableValue::State(value)) => {
                    rows.operation_states.push(Keyed { key: operation_id, value })
                }
                _ => {}
            }
        }
        rows
    }

    fn put(&mut self, lane: &str, state: &LaneRuntimeState) {
        let mut writes = vec![
            Write::SetValue {
                address: Address::BranchTip { lane: text(lane) },
                value: DurableValue::Tip(state.tip_id.clone()),
            },
            Write::SetValue {
                address: Address::LaneConfig { lane: text(lane) },
                value: DurableValue::Configuration(state.configuration.clone()),
            },
        ];
        let mut current_operation_id = None;
        if let Some(operation) = &state.operation {
            let operation_id = operation.meta.operation_id.clone();
            current_operation_id = Some(operation_id.clone());
            writes.push(Write::SetValue {
                address: Address::OperationMeta { operation_id: operation_id.clone() },
                value: DurableValue::Meta(operation.meta.clone()),
            });
            writes.push(Write::SetValue {
                address: Address::OperationState { operation_id },
                value: DurableValue::State(operation.state.clone()),
            });
        }
        writes.push(Write::SetValue {
            address: Address::LaneState { lane: text(lane) },
            value: DurableValue::Lane(DurableLaneState {
                current_operation_id,
                last_operation_id: state.last_operation_id.clone(),
                inbox: state.inbox.clone(),
            }),
        });
        self.commit(&writes);
    }

    fn carry_out<T>(
        &mut self,
        command: LaneCommand<T>,
    ) -> (LaneRuntimeState, T, Vec<HarnessEvent>) {
        match command {
            LaneCommand::Commit { writes, next, result, events } => {
                let commit = self.commit(&writes);
                let restored = restore_session(&self.session()).unwrap();
                assert_eq!(restored.len(), 1);
                assert_eq!(restored[0].key, text("main"));
                assert_eq!(restored[0].value, next);
                (next, result, emit(&events, &commit))
            }
            _ => panic!("nothing was committed"),
        }
    }
}

fn assistant_entry(ids: &[&str]) -> Entry {
    message_entry("answer", Some("root"), AgentMessage::Assistant(calling(ids)))
}

fn staged_row(entry_id: &str, message: ToolResultMessage) -> PendingRow {
    PendingRow {
        entry_id: text(entry_id),
        payload: PendingPayload::Decoded(PendingEntry::Message {
            payload: AgentMessage::ToolResult(message),
        }),
    }
}

#[test]
fn outcomes_without_a_result_say_why() {
    let call = || call_block("c1", "re\"ad");
    let said = |outcome: ToolOutcome| {
        assert!(outcome.message.is_error);
        assert!(!outcome.terminate);
        assert_eq!(outcome.message.tool_call_id, text("c1"));
        assert_eq!(outcome.message.timestamp, 9);
        match outcome.message.content.last().unwrap() {
            ToolResultContent::Text { text, .. } => text.clone(),
            other => panic!("{other:?}"),
        }
    };
    assert_eq!(
        said(aborted_outcome(call(), 9)),
        text("Tool execution was cancelled before completion.")
    );
    assert_eq!(
        said(truncated_outcome(call(), 9)),
        text(
            "Tool call \"re\\\"ad\" was not executed because the assistant response hit the output token limit, so its arguments may be truncated. Re-issue the tool call with complete arguments."
        )
    );
    let marker = said(interrupted_outcome(call(), None, 9));
    assert!(marker.starts_with("[Tool execution was interrupted."));
    let progress = AgentToolResult { details: json_text("half"), ..shown_result() };
    let outcome = interrupted_outcome(call(), Some(progress), 9);
    assert_eq!(outcome.message.content.len(), 2);
    assert_eq!(outcome.message.details, Some(json_text("half")));
    assert_eq!(said(outcome), marker);
    let outcome = interrupted_outcome(call(), Some(shown_result()), 9);
    assert_eq!(outcome.message.details, None);
}

#[test]
fn memo_names_are_plain() {
    assert_eq!(validate_memo_name("seen"), Ok(()));
    assert_eq!(
        validate_memo_name(""),
        Err(text("Tool invocation memo name must not be empty"))
    );
    assert_eq!(
        validate_memo_name("a:b"),
        Err(text("Tool invocation memo name must not contain ':'"))
    );
}

#[test]
fn a_memo_is_set_and_removed_beside_the_lane() {
    let lane = busy_lane(running_tools(vec![running_call(1, "r1")]));
    let address = Address::OperationToolMemo {
        operation_id: text("op"),
        result_entry_id: text("r1"),
        name: text("seen"),
    };
    let mut store = Store::new();
    store.put("main", &lane);
    let command = set_memo(
        &text("op"),
        &text("r1"),
        &text("seen"),
        Some(json_text("x")),
        lane.clone(),
    );
    let (state, _, _) = store.carry_out(command);
    assert_eq!(state, lane);
    assert!(store.holds(&address));
    store.carry_out(set_memo(&text("op"), &text("r1"), &text("seen"), None, lane));
    assert!(!store.holds(&address));
}

#[test]
fn a_call_is_started_recovered_or_given_up() {
    assert_eq!(call_action(&planned_call(1, "r1"), false), CallAction::Start);
    assert_eq!(call_action(&planned_call(1, "r1"), true), CallAction::Abort);
    assert_eq!(call_action(&running_call(1, "r1"), false), CallAction::Recover);
    assert_eq!(call_action(&running_call(1, "r1"), true), CallAction::Interrupt);
    assert_eq!(call_action(&staged_call(1, "r1", false), true), CallAction::Skip);
    assert_eq!(call_action(&done_call(1, "r1", false), false), CallAction::Skip);
}

#[test]
fn a_safe_call_can_run_again() {
    let safe = ToolDescriptor { name: text("read"), replay: Some(ReplayPolicy::Safe) };
    let never = ToolDescriptor { name: text("read"), replay: None };
    assert_eq!(replay_policy(&safe), ReplayPolicy::Safe);
    assert_eq!(replay_policy(&never), ReplayPolicy::Never);
    let call = running_call(1, "r1");
    assert!(can_replay(&call, Some(&safe), false));
    assert!(!can_replay(&call, Some(&safe), true));
    assert!(!can_replay(&call, None, false));
    let once = ToolCall::EffectPending {
        source_index: 1,
        result_entry_id: text("r1"),
        replay: ReplayPolicy::Never,
    };
    assert!(!can_replay(&once, Some(&safe), false));
}

#[test]
fn a_replay_needs_stored_arguments() {
    let lane = busy_lane(running_tools(vec![running_call(1, "r1")]));
    let replay = |stored: Option<Json>| {
        clear_replay_checkpoint(
            &text("main"),
            &text("op"),
            &text("turn"),
            lane.clone(),
            &running_call(1, "r1"),
            &call_block("c1", "read"),
            stored,
        )
    };
    assert_eq!(replay(None), Err(text("Tool call r1 is missing persisted arguments")));
    let mut store = Store::new();
    store.put("main", &lane);
    let (state, args, events) = store.carry_out(replay(Some(json_text("kept"))).unwrap());
    assert_eq!(state, lane);
    assert_eq!(args, json_text("kept"));
    match &events[0] {
        HarnessEvent::ToolStart { args, recovery, .. } => {
            assert_eq!(*args, json_text("kept"));
            assert_eq!(*recovery, Some(true));
        }
        other => panic!("{other:?}"),
    }
}

#[test]
fn a_batch_reads_its_calls_from_the_answer() {
    let entry = assistant_entry(&["c1", "c2"]);
    let calls = vec![planned_call(1, "r1"), planned_call(2, "r2")];
    let sources = read_tool_batch_source(Some(&entry), &calls).unwrap();
    assert_eq!(tool_call_for(&sources, &calls[1]), call_block("c2", "read"));
    assert!(!is_truncated(&sources));
    assert!(read_tool_batch_source(None, &calls).is_err());
    assert!(read_tool_batch_source(Some(&entry), &vec![planned_call(0, "r0")]).is_err());
    assert!(read_tool_batch_source(Some(&entry), &vec![planned_call(7, "r7")]).is_err());
}

#[test]
fn a_batch_runs_with_its_active_tools() {
    let run = running_tools(vec![planned_call(1, "r1")]);
    let plan = run_tools(&run, &run, &config());
    assert_eq!(plan.execution, ToolExecution::Parallel);
    assert_eq!(
        plan.tools,
        vec![ToolDescriptor { name: text("read"), replay: Some(ReplayPolicy::Safe) }]
    );
    assert_eq!(
        select_tools(&config().tools, &vec![text("write"), text("read")]),
        config().tools
    );
    assert_eq!(find_tool(&config().tools, &text("write")).unwrap().name, text("write"));
    assert!(find_tool(&config().tools, &text("none")).is_none());
    assert!(!is_recovery(&vec![planned_call(1, "r1"), done_call(2, "r2", false)]));
    assert!(is_recovery(&vec![running_call(1, "r1")]));
}

#[test]
fn a_call_is_replaced_in_its_batch() {
    let before = batch(vec![planned_call(1, "r1"), planned_call(2, "r2")]);
    let after = replace_call(&before, &running_call(2, "r2"));
    assert_eq!(after.calls, vec![planned_call(1, "r1"), running_call(2, "r2")]);
    let other = replace_call(&before, &running_call(2, "r9"));
    assert_eq!(other.calls, before.calls);
    let run = running_tools(vec![planned_call(1, "r1")]);
    let moved = with_tool_batch(&run, after.clone());
    assert_eq!(run_batch(&moved), after);
    assert_eq!(current_batch(&busy_lane(run.clone())), Some(run));
    assert_eq!(current_batch(&idle_lane()), None);
}

#[test]
fn a_stopped_run_does_not_end_early() {
    let stopped = OperationState::Tools { scope: stopped_scope(), batch: batch(Vec::new()) };
    assert!(!durable_terminate(&stopped, true));
    let run = running_tools(Vec::new());
    assert!(durable_terminate(&run, true));
    assert!(!durable_terminate(&run, false));
}

#[test]
fn results_wait_for_the_calls_before_them() {
    let entry = assistant_entry(&["c1", "c2", "c3"]);
    let calls = vec![
        done_call(1, "r1", false),
        staged_call(2, "r2", false),
        planned_call(3, "r3"),
    ];
    let sources = read_tool_batch_source(Some(&entry), &calls).unwrap();
    let rows = vec![staged_row("r2", tool_result("c2", false))];
    let read = read_placement(&sources, &rows, &Vec::new(), &calls).unwrap().unwrap();
    assert_eq!(
        read.items,
        vec![PlacementItem {
            call: staged_call(2, "r2", false),
            message: tool_result("c2", false)
        }]
    );
    assert_eq!(read.turn_results, None);
    assert_eq!(
        read_placement(&sources, &Vec::new(), &Vec::new(), &calls),
        Err(text("Tool call r2 is missing its staged result"))
    );
    let wrong = vec![staged_row("r2", tool_result("c9", false))];
    assert_eq!(
        read_placement(&sources, &wrong, &Vec::new(), &calls),
        Err(text("Tool call r2 has a mismatched staged result"))
    );
    let last = vec![done_call(1, "r1", false), staged_call(2, "r2", false)];
    assert_eq!(
        read_placement(&sources, &rows, &Vec::new(), &last),
        Err(text("completed tool result missing"))
    );
    let placed = vec![message_entry(
        "r1",
        None,
        AgentMessage::ToolResult(tool_result("c1", true)),
    )];
    let read = read_placement(&sources, &rows, &placed, &last).unwrap().unwrap();
    assert_eq!(
        read.turn_results,
        Some(vec![tool_result("c1", true), tool_result("c2", false)])
    );
}

#[test]
fn a_result_activates_tools_and_records_usage() {
    let run = running_tools(vec![staged_call(1, "r1", true)]);
    let lane = busy_lane(run.clone());
    let mut store = Store::new();
    store.put("main", &lane);
    let mut message = tool_result("c1", false);
    message.added_tool_names = Some(vec![text("write"), text("read"), text("write")]);
    message.usage = Some(usage(6));
    assert!(next_config_contains(&lane, &Vec::new(), &text("read")));
    assert!(!next_config_contains(&lane, &Vec::new(), &text("write")));
    let items = vec![PlacementItem { call: staged_call(1, "r1", true), message }];
    let command = commit_placement(
        &text("main"),
        &lane,
        &run,
        &items,
        &vec![Some(text("u1"))],
        Vec::new(),
    );
    let settled = settle_operation(&text("main"), lane, command);
    let (state, complete, events) = store.carry_out(settled);
    assert!(complete);
    assert_eq!(state.configuration.active_tool_names, vec![text("read"), text("write")]);
    assert!(events.iter().any(|event| matches!(event, HarnessEvent::Usage { .. })));
    assert!(events.iter().any(|event| matches!(event, HarnessEvent::ConfigUpdate { .. })));
    match state.operation.unwrap().state {
        OperationState::Checkpoint { continuation, trigger_entry_id, .. } => {
            assert_eq!(
                continuation,
                Continuation::MayFinish { include_final_assistant: false }
            );
            assert_eq!(trigger_entry_id, text("r1"));
        }
        other => panic!("{other:?}"),
    }
    match &store.entries[0] {
        Entry::Message(entry) => assert_eq!(entry.terminate, Some(true)),
        other => panic!("{other:?}"),
    }
}

#[test]
fn results_are_announced_and_end_their_turn() {
    let entry = assistant_entry(&["c1"]);
    let calls = vec![staged_call(1, "r1", false)];
    let sources = read_tool_batch_source(Some(&entry), &calls).unwrap();
    let items =
        vec![PlacementItem { call: calls[0].clone(), message: tool_result("c1", false) }];
    let events = announce_results(&text("main"), &text("op"), &items, true);
    assert_eq!(events.len(), 2);
    assert!(matches!(&events[0], HarnessEvent::MessageStart { recovery: Some(true), .. }));
    let results = Some(vec![tool_result("c1", false)]);
    let end = |complete: bool| {
        turn_end(
            &text("main"),
            &text("op"),
            &text("turn"),
            &sources,
            &results,
            complete,
            false,
        )
    };
    assert_eq!(end(false), None);
    match end(true) {
        Some(HarnessEvent::TurnEnd { message, tool_results, .. }) => {
            assert_eq!(message, calling(&["c1"]));
            assert_eq!(tool_results, vec![tool_result("c1", false)]);
        }
        other => panic!("{other:?}"),
    }
}

#[test]
fn a_call_that_is_stopped_says_how() {
    let call = call_block("c1", "read");
    assert_eq!(stopped_outcome(call.clone(), false, 9), aborted_outcome(call.clone(), 9));
    assert_eq!(
        stopped_outcome(call.clone(), true, 9),
        interrupted_outcome(call, None, 9)
    );
    assert_eq!(tool_patch(null()), None);
    assert_eq!(tool_patch(json_text("p")), Some(json_text("p")));
}

#[test]
fn a_batch_that_is_taken_up_again_is_announced() {
    let fresh = batch(vec![planned_call(0, "r0"), done_call(1, "r1", false)]);
    assert_eq!(announce_batch(&text("main"), &text("op"), &fresh), None);
    let again = batch(vec![running_call(0, "r0"), planned_call(1, "r1")]);
    assert_eq!(
        announce_batch(&text("main"), &text("op"), &again),
        Some(HarnessEvent::TurnStart {
            lane: text("main"),
            run_id: text("op"),
            turn_id: again.turn_id.clone(),
            recovery: Some(true),
        })
    );
}
