//! What observers see: events, snapshots and progress.

use pi_runtime::command::LaneCommand;
use pi_runtime::drive::lifecycle::{
    ResponseObserver, publish_update, replaced_messages, replaced_payload, replaced_response,
};
use pi_runtime::json::Json;
use pi_runtime::lane::snapshot::oldest_first;
use pi_runtime::model::event::{
    HarnessEvent, LaneOperationSnapshot, LaneSnapshot, LaneSnapshotTool, PlannedEvent, RetryPolicy,
};
use pi_runtime::model::message::{
    AgentMessage, AgentToolResult, AssistantMessage, StopReason, ToolCallBlock, ToolResultContent,
    Usage, UserContent, UserMessage,
};
use pi_runtime::model::session::{
    CompactionSettings, Control, DurableLaneState, GenerationContext, LaneConfiguration,
    ModelIdentity, NormalizedRetryPolicy, Operation, OperationIntent, OperationMeta, OperationScope,
    OperationState, PendingEntry, QueueMode, ReplayPolicy, RunSettings, StreamOptions,
    TerminalStatus, ThinkingLevel, ToolBatch, ToolCall, ToolExecution,
};
use pi_runtime::model::storage::{
    Address, CommitResult, CompactionEntry, CustomEntry, DurableValue, Entry, EntryBase,
    MessageEntry, NewCustomEntry, NewEntry, NewMessageEntry, SessionStats, UsageRow, Write,
};
use pi_runtime::names::Keyed;
use pi_runtime::progress::{
    FRAME_PAGE, OpenProgress, next_frame_page, owns_response, owns_tool, write_frame,
    write_tool_output,
};
use pi_runtime::reducer::{matching_operation, reduce_lane_snapshot, upsert_tool};
use pi_runtime::restore::{SessionRows, restore_session};
use pi_runtime::text::decimal_text;
use pi_runtime::transcript::{
    chain_entries, committed_entry_events, emit, entry_lifecycle_events, find_entry,
    materialize_committed_entry,
};
use pi_runtime::types::{LaneRuntimeState, PendingPayload, PendingRow};

fn text(value: &str) -> String {
    value.to_string()
}

fn json(value: serde_json::Value) -> Json {
    Json { value }
}

fn json_text(value: &str) -> Json {
    json(serde_json::Value::String(value.to_string()))
}

fn json_object(members: &[(&str, serde_json::Value)]) -> Json {
    let mut object = serde_json::Map::new();
    for (key, value) in members {
        object.insert(key.to_string(), value.clone());
    }
    json(serde_json::Value::Object(object))
}

fn null() -> Json {
    json(serde_json::Value::Null)
}

fn model() -> ModelIdentity {
    ModelIdentity { provider: text("acme"), model_id: text("large") }
}

fn configuration() -> LaneConfiguration {
    LaneConfiguration {
        model: model(),
        thinking_level: ThinkingLevel::Low,
        active_tool_names: vec![text("read")],
    }
}

fn compaction_settings() -> CompactionSettings {
    CompactionSettings { enabled: true, reserve_tokens: 100, keep_recent_tokens: 50 }
}

fn settings() -> RunSettings {
    RunSettings {
        compaction: compaction_settings(),
        steering_mode: QueueMode::OneAtATime,
        follow_up_mode: QueueMode::OneAtATime,
        tool_execution: ToolExecution::Parallel,
    }
}

fn scope() -> OperationScope {
    OperationScope {
        control: Control::Running,
        settings: settings(),
        latest_assistant_entry_id: None,
    }
}

fn stream_options() -> StreamOptions {
    StreamOptions {
        deferred: None,
        headers: None,
        timeout_ms: Some(1_000),
        max_retries: None,
        max_retry_delay_ms: None,
    }
}

fn limits() -> NormalizedRetryPolicy {
    NormalizedRetryPolicy { max_attempts: 3, base_delay_ms: 200, max_agent_delay_ms: 5_000 }
}

fn retry_policy() -> RetryPolicy {
    RetryPolicy {
        enabled: true,
        max_retries: 2,
        base_delay_ms: 200,
        max_agent_delay_ms: Some(5_000),
    }
}

fn generation_context() -> GenerationContext {
    GenerationContext {
        step_id: text("step"),
        trigger_entry_id: text("trigger"),
        configuration: configuration(),
        stream_options: stream_options(),
        retry_policy: limits(),
        overflow_recovery_used: false,
    }
}

fn generating(scope: OperationScope, attempt: u32) -> OperationState {
    OperationState::AssistantEffectPending {
        scope,
        generation_context: generation_context(),
        attempt,
        response_entry_id: text("answer"),
        usage_id: text("usage"),
        intended_output_limit: 400,
        context_window: 8_000,
    }
}

fn usage(total: u64) -> Usage {
    Usage {
        input: total,
        output: 0,
        cache_read: 0,
        cache_write: 0,
        cache_write_1h: None,
        reasoning: None,
        total_tokens: total,
        cost: null(),
    }
}

fn assistant(stop_reason: StopReason) -> AssistantMessage {
    AssistantMessage {
        content: Vec::new(),
        api: text("chat"),
        provider: text("acme"),
        model: text("large"),
        response_model: None,
        response_id: None,
        provider_thinking_level: None,
        usage: usage(12),
        stop_reason,
        deferred: None,
        error_message: None,
        raw_stop_reason: None,
        end_turn: None,
        timestamp: 5,
    }
}

fn call_block(id: &str, name: &str) -> ToolCallBlock {
    ToolCallBlock { id: text(id), name: text(name), arguments: json_text("given") }
}

fn user(content: &str) -> AgentMessage {
    AgentMessage::User(UserMessage { content: UserContent::Text(text(content)), timestamp: 3 })
}

fn shown_result() -> AgentToolResult {
    AgentToolResult {
        content: vec![ToolResultContent::Text { text: text("done"), text_signature: None }],
        details: null(),
        usage: None,
    }
}

fn entry_base(id: &str, parent_id: Option<&str>) -> EntryBase {
    EntryBase {
        id: text(id),
        parent_id: match parent_id {
            Some(parent_id) => Some(text(parent_id)),
            None => None,
        },
        seq: 1,
        timestamp: 2,
        custom_type: None,
    }
}

fn message_entry(id: &str, parent_id: Option<&str>, message: AgentMessage) -> Entry {
    Entry::Message(MessageEntry { base: entry_base(id, parent_id), message, terminate: None })
}

fn run_meta() -> OperationMeta {
    OperationMeta {
        operation_id: text("op"),
        lane: text("main"),
        intent: OperationIntent::Run { prompt_entry_ids: vec![text("prompt")] },
        source_tip_id: Some(text("root")),
        started_at: 11,
    }
}

fn idle_lane() -> LaneRuntimeState {
    LaneRuntimeState {
        tip_id: Some(text("root")),
        configuration: configuration(),
        inbox: Vec::new(),
        last_operation_id: None,
        operation: None,
    }
}

fn busy_lane(state: OperationState) -> LaneRuntimeState {
    let mut lane = idle_lane();
    lane.operation = Some(Operation { meta: run_meta(), state });
    lane
}

fn stats(message_count: u64) -> SessionStats {
    SessionStats { message_count, usage: usage(0) }
}

fn commit_of(seqs: &[u64]) -> CommitResult {
    CommitResult { seqs: seqs.to_vec(), timestamp: 77, stats: stats(1) }
}

fn planned_call(source_index: usize, result_entry_id: &str) -> ToolCall {
    ToolCall::Planned { source_index, result_entry_id: text(result_entry_id) }
}

fn running_call(source_index: usize, result_entry_id: &str) -> ToolCall {
    ToolCall::EffectPending {
        source_index,
        result_entry_id: text(result_entry_id),
        replay: ReplayPolicy::Safe,
    }
}

fn batch(calls: Vec<ToolCall>) -> ToolBatch {
    ToolBatch {
        assistant_entry_id: text("answer"),
        configuration: configuration(),
        turn_id: text("turn"),
        calls,
    }
}

fn running_tools(calls: Vec<ToolCall>) -> OperationState {
    OperationState::Tools { scope: scope(), batch: batch(calls) }
}

fn lane_snapshot(operation: Option<LaneOperationSnapshot>) -> LaneSnapshot {
    LaneSnapshot {
        lane: text("main"),
        transcript: Vec::new(),
        tip_id: None,
        last_result: None,
        configuration: configuration(),
        stats: stats(0),
        operation,
        queues: Vec::new(),
        faulted: false,
    }
}

fn open_run() -> LaneOperationSnapshot {
    LaneOperationSnapshot {
        id: text("op"),
        kind: text("run"),
        started_at: 11,
        from_tip_id: None,
        status: text("open"),
        retry: None,
        deferred: None,
        streaming_message: None,
        running_tools: Vec::new(),
    }
}

struct Store {
    values: Vec<(Address, DurableValue)>,
    entries: Vec<Entry>,
    seq: u64,
}

impl Store {
    fn new() -> Store {
        Store { values: Vec::new(), entries: Vec::new(), seq: 0 }
    }

    fn remove(&mut self, address: &Address) {
        self.values.retain(|row| row.0 != *address);
    }

    fn commit(&mut self, writes: &[Write]) -> CommitResult {
        let mut seqs = Vec::new();
        for write in writes {
            self.seq += 1;
            seqs.push(self.seq);
            match write {
                Write::InsertEntry(entry) => {
                    self.entries.push(materialize_committed_entry(entry, self.seq, 77));
                }
                Write::SetValue { address, value } => {
                    self.remove(address);
                    self.values.push((address.clone(), value.clone()));
                }
                Write::DeleteValue { address } => self.remove(address),
                _ => {}
            }
        }
        CommitResult { seqs, timestamp: 77, stats: stats(1) }
    }

    fn holds(&self, address: &Address) -> bool {
        self.values.iter().any(|row| row.0 == *address)
    }

    fn payloads(&self) -> Vec<PendingRow> {
        let mut rows = Vec::new();
        for (address, value) in &self.values {
            if let (Address::PendingEntry { entry_id }, DurableValue::Pending(pending)) =
                (address, value)
            {
                rows.push(PendingRow {
                    entry_id: entry_id.clone(),
                    payload: PendingPayload::Decoded(pending.clone()),
                });
            }
        }
        rows
    }

    fn session(&self) -> SessionRows {
        let mut rows = SessionRows {
            tips: Vec::new(),
            configurations: Vec::new(),
            states: Vec::new(),
            metas: Vec::new(),
            operation_states: Vec::new(),
        };
        for (address, value) in &self.values {
            match (address.clone(), value.clone()) {
                (Address::BranchTip { lane }, DurableValue::Tip(value)) => {
                    rows.tips.push(Keyed { key: lane, value })
                }
                (Address::LaneConfig { lane }, DurableValue::Configuration(value)) => {
                    rows.configurations.push(Keyed { key: lane, value })
                }
                (Address::LaneState { lane }, DurableValue::Lane(value)) => {
                    rows.states.push(Keyed { key: lane, value })
                }
                (Address::OperationMeta { operation_id }, DurableValue::Meta(value)) => {
                    rows.metas.push(Keyed { key: operation_id, value })
                }
                (Address::OperationState { operation_id }, DurableValue::State(value)) => {
                    rows.operation_states.push(Keyed { key: operation_id, value })
                }
                _ => {}
            }
        }
        rows
    }

    fn put(&mut self, lane: &str, state: &LaneRuntimeState) {
        let mut writes = vec![
            Write::SetValue {
                address: Address::BranchTip { lane: text(lane) },
                value: DurableValue::Tip(state.tip_id.clone()),
            },
            Write::SetValue {
                address: Address::LaneConfig { lane: text(lane) },
                value: DurableValue::Configuration(state.configuration.clone()),
            },
        ];
        let mut current_operation_id = None;
        if let Some(operation) = &state.operation {
            let operation_id = operation.meta.operation_id.clone();
            current_operation_id = Some(operation_id.clone());
            writes.push(Write::SetValue {
                address: Address::OperationMeta { operation_id: operation_id.clone() },
                value: DurableValue::Meta(operation.meta.clone()),
            });
            writes.push(Write::SetValue {
                address: Address::OperationState { operation_id },
                value: DurableValue::State(operation.state.clone()),
            });
        }
        writes.push(Write::SetValue {
            address: Address::LaneState { lane: text(lane) },
            value: DurableValue::Lane(DurableLaneState {
                current_operation_id,
                last_operation_id: state.last_operation_id.clone(),
                inbox: state.inbox.clone(),
            }),
        });
        self.commit(&writes);
    }

    fn carry_out<T>(
        &mut self,
        command: LaneCommand<T>,
    ) -> (LaneRuntimeState, T, Vec<HarnessEvent>) {
        match command {
            LaneCommand::Commit { writes, next, result, events } => {
                let commit = self.commit(&writes);
                let restored = restore_session(&self.session()).unwrap();
                assert_eq!(restored.len(), 1);
                assert_eq!(restored[0].key, text("main"));
                assert_eq!(restored[0].value, next);
                (next, result, emit(&events, &commit))
            }
            _ => panic!("nothing was committed"),
        }
    }
}

fn appended(id: &str, parent_id: Option<&str>) -> NewEntry {
    NewEntry::Message(NewMessageEntry {
        id: text(id),
        parent_id: parent_id.map(text),
        custom_type: None,
        message: user("hi"),
        terminate: None,
    })
}

fn usage_row(id: &str) -> UsageRow {
    UsageRow {
        id: text(id),
        seq: 0,
        usage: usage(8),
        entry_id: None,
        adjustment: false,
        details: None,
    }
}

#[test]
fn a_committed_entry_gets_its_place_in_the_log() {
    let entry = materialize_committed_entry(&appended("a", Some("root")), 5, 77);
    assert_eq!(
        entry,
        Entry::Message(MessageEntry {
            base: EntryBase {
                id: text("a"),
                parent_id: Some(text("root")),
                seq: 5,
                timestamp: 77,
                custom_type: None,
            },
            message: user("hi"),
            terminate: None,
        })
    );
    let custom = NewEntry::Custom(NewCustomEntry {
        id: text("c"),
        parent_id: None,
        custom_type: text("note"),
        data: Some(json_text("x")),
    });
    match materialize_committed_entry(&custom, 6, 78) {
        Entry::Custom(custom) => {
            assert_eq!(custom.base.custom_type, Some(text("note")));
            assert_eq!(custom.data, Some(json_text("x")));
        }
        other => panic!("{other:?}"),
    }
}

#[test]
fn a_message_is_announced_from_start_to_entry() {
    let commit = commit_of(&[3, 4]);
    let entries = vec![appended("a", None), appended("b", Some("a"))];
    let events = committed_entry_events(&entries, &commit, "main", Some("op"), 0);
    assert_eq!(events.len(), 6);
    assert_eq!(
        events[0],
        HarnessEvent::MessageStart {
            lane: text("main"),
            run_id: Some(text("op")),
            message: user("hi"),
            recovery: None
        }
    );
    assert_eq!(
        events[1],
        HarnessEvent::MessageEnd {
            lane: text("main"),
            run_id: Some(text("op")),
            message: user("hi"),
            entry_id: Some(text("a")),
            recovery: None
        }
    );
    match &events[5] {
        HarnessEvent::EntryAdded { entry: Entry::Message(entry), .. } => {
            assert_eq!(entry.base.id, text("b"));
            assert_eq!(entry.base.seq, 4);
            assert_eq!(entry.base.timestamp, 77);
        }
        other => panic!("{other:?}"),
    }
}

#[test]
fn planned_events_take_their_numbers_from_the_commit() {
    let plan = vec![
        PlannedEvent::Ready(HarnessEvent::RunResume {
            lane: text("main"),
            run_id: text("op"),
            recovery: None,
        }),
        PlannedEvent::Ledger { row: usage_row("u"), write_index: 1, lane: text("main") },
        PlannedEvent::Added {
            entry: appended("a", None),
            write_index: 0,
            lane: text("main"),
            recovery: Some(true),
        },
        PlannedEvent::CompactionStarted {
            lane: text("main"),
            run_id: text("op"),
            reason: text("threshold"),
        },
        PlannedEvent::Lifecycle {
            entry: appended("b", None),
            write_index: 9,
            lane: text("main"),
            run_id: None,
        },
    ];
    let events = emit(&plan, &commit_of(&[3, 4]));
    assert_eq!(events.len(), 7);
    match &events[1] {
        HarnessEvent::Usage { row, totals, .. } => {
            assert_eq!(row.seq, 4);
            assert_eq!(*totals, usage(0));
        }
        other => panic!("{other:?}"),
    }
    match &events[3] {
        HarnessEvent::CompactionStart { started_at, reason, .. } => {
            assert_eq!(*started_at, 77);
            assert_eq!(*reason, text("threshold"));
        }
        other => panic!("{other:?}"),
    }
    match &events[6] {
        HarnessEvent::EntryAdded { entry: Entry::Message(entry), .. } => {
            assert_eq!(entry.base.seq, 0)
        }
        other => panic!("{other:?}"),
    }
}

#[test]
fn json_entries_are_chained() {
    let id = |id: &str| ("id", serde_json::Value::String(text(id)));
    let items = vec![
        json_object(&[id("a")]),
        json_object(&[("note", serde_json::Value::Bool(true))]),
        json_object(&[id("c"), ("parentId", serde_json::Value::String(text("old")))]),
        json_text("plain"),
    ];
    let chain = chain_entries(Some(text("tip")), &items);
    assert_eq!(chain[0].value.get("parentId").and_then(|v| v.as_str()), Some("tip"));
    assert_eq!(chain[0].value.get("id").and_then(|v| v.as_str()), Some("a"));
    assert_eq!(chain[1].value.get("parentId").and_then(|v| v.as_str()), Some("a"));
    assert_eq!(chain[2].value.get("parentId").and_then(|v| v.as_str()), Some("a"));
    assert_eq!(chain[3], json_text("plain"));
    let rootless = chain_entries(None, &vec![json_object(&[id("a")])]);
    assert_eq!(rootless[0].value.get("parentId"), Some(&serde_json::Value::Null));
}

#[test]
fn a_snapshot_follows_a_run() {
    let mut snapshot = lane_snapshot(None);
    let start = HarnessEvent::RunStart {
        lane: text("main"),
        run_id: text("op"),
        started_at: 11,
        recovery: None,
    };
    assert_eq!(reduce_lane_snapshot(&mut snapshot, &start), None);
    assert_eq!(snapshot.operation, Some(open_run()));
    let added = HarnessEvent::EntryAdded {
        lane: text("main"),
        entry: message_entry("a", None, user("hi")),
        recovery: None,
    };
    assert_eq!(reduce_lane_snapshot(&mut snapshot, &added), None);
    assert_eq!(snapshot.tip_id, Some(text("a")));
    assert_eq!(snapshot.transcript.len(), 1);
    assert_eq!(snapshot.stats.message_count, 1);
    let end = HarnessEvent::RunEnd {
        lane: text("main"),
        run_id: text("op"),
        from_tip_id: None,
        tip_id: Some(text("a")),
        ended_at: 20,
        status: TerminalStatus::Completed,
        error: None,
        recovery: None,
    };
    reduce_lane_snapshot(&mut snapshot, &end);
    assert_eq!(snapshot.operation, None);
}

#[test]
fn events_of_other_lanes_change_only_usage() {
    let mut snapshot = lane_snapshot(Some(open_run()));
    let before = snapshot.clone();
    let foreign = HarnessEvent::RunStart {
        lane: text("two"),
        run_id: text("x"),
        started_at: 1,
        recovery: None,
    };
    assert_eq!(reduce_lane_snapshot(&mut snapshot, &foreign), None);
    assert_eq!(snapshot, before);
    let spent =
        HarnessEvent::Usage { lane: text("two"), row: usage_row("u"), totals: usage(8) };
    reduce_lane_snapshot(&mut snapshot, &spent);
    assert_eq!(snapshot.stats.usage, usage(8));
    assert_eq!(snapshot.operation, before.operation);
}

#[test]
fn a_tool_is_shown_once() {
    let mut snapshot = lane_snapshot(Some(open_run()));
    let start = HarnessEvent::ToolStart {
        lane: text("main"),
        run_id: text("op"),
        turn_id: text("turn"),
        tool_call_id: text("c1"),
        tool_name: text("read"),
        args: json_text("args"),
        recovery: None,
    };
    reduce_lane_snapshot(&mut snapshot, &start);
    reduce_lane_snapshot(&mut snapshot, &start);
    let end = HarnessEvent::ToolEnd {
        lane: text("main"),
        run_id: text("op"),
        turn_id: text("turn"),
        tool_call_id: text("c1"),
        tool_name: text("read"),
        result: shown_result(),
        is_error: false,
        terminate: false,
        recovery: None,
    };
    reduce_lane_snapshot(&mut snapshot, &end);
    assert_eq!(
        snapshot.operation.unwrap().running_tools,
        vec![LaneSnapshotTool::Settled {
            tool_call_id: text("c1"),
            tool_name: text("read"),
            args: json_text("args"),
            result: shown_result(),
            is_error: false,
        }]
    );
}

#[test]
fn a_tool_is_replaced_or_appended() {
    let running = |id: &str| LaneSnapshotTool::Running {
        tool_call_id: text(id),
        tool_name: text("read"),
        args: null(),
        result: None,
    };
    let mut operation = open_run();
    upsert_tool(&mut operation, running("a"));
    upsert_tool(&mut operation, running("b"));
    upsert_tool(&mut operation, running("a"));
    assert_eq!(operation.running_tools, vec![running("a"), running("b")]);
}

#[test]
fn a_snapshot_matches_events_by_operation() {
    let mut snapshot = lane_snapshot(Some(open_run()));
    assert!(matching_operation(&mut snapshot, &text("op")).is_some());
    assert!(matching_operation(&mut snapshot, &text("other")).is_none());
}

#[test]
fn progress_is_stored_while_it_is_awaited() {
    let lane = busy_lane(generating(scope(), 1));
    assert!(owns_response(&lane, &text("answer")));
    assert!(!owns_response(&lane, &text("other")));
    let mut store = Store::new();
    store.put("main", &lane);
    let command = write_frame(lane.clone(), &text("op"), &text("answer"), json_text("frame"));
    match &command {
        LaneCommand::Commit { writes, .. } => assert_eq!(
            *writes,
            vec![Write::AppendList {
                address: Address::PendingAssistantFrames {
                    operation_id: text("op"),
                    response_entry_id: text("answer")
                },
                value: json_text("frame"),
            }]
        ),
        other => panic!("{other:?}"),
    }
    let (state, _, _) = store.carry_out(command);
    assert_eq!(state, lane);
    assert_eq!(
        write_frame(lane, &text("op"), &text("late"), json_text("frame")),
        LaneCommand::Return { result: () }
    );
}

#[test]
fn tool_output_is_stored_while_the_tool_runs() {
    let lane = busy_lane(running_tools(vec![running_call(1, "r1"), planned_call(2, "r2")]));
    assert!(owns_tool(&lane, &text("turn"), 1, &text("r1")));
    assert!(!owns_tool(&lane, &text("turn"), 2, &text("r2")));
    assert!(!owns_tool(&lane, &text("other"), 1, &text("r1")));
    let mut store = Store::new();
    store.put("main", &lane);
    let command = write_tool_output(
        lane,
        &text("op"),
        &text("turn"),
        1,
        &text("r1"),
        shown_result(),
    );
    store.carry_out(command);
    assert!(store.holds(&Address::PendingToolOutput {
        operation_id: text("op"),
        result_entry_id: text("r1")
    }));
}

#[test]
fn frames_are_read_in_pages() {
    assert_eq!(FRAME_PAGE, 1_000);
    assert_eq!(next_frame_page(1_000, 3_000), Some(3_000));
    assert_eq!(next_frame_page(999, 3_999), None);
}

#[test]
fn a_channel_holds_the_latest_item_until_it_is_sealed() {
    let mut channel: OpenProgress<u32> = OpenProgress::open_progress();
    assert_eq!(channel.drain(), None);
    channel.write(1);
    channel.write(2);
    channel.seal();
    channel.write(3);
    assert_eq!(channel.drain(), Some(2));
    channel.write(4);
    assert_eq!(channel.drain(), None);
}

#[test]
fn a_response_is_shown_while_it_comes_in() {
    let observer = ResponseObserver {
        lane_name: text("main"),
        run_id: text("op"),
        recovery: false,
        response_entry_id: text("answer"),
    };
    let pending = assistant(StopReason::Pending);
    assert_eq!(
        observer.start(pending.clone()),
        HarnessEvent::MessageStart {
            lane: text("main"),
            run_id: Some(text("op")),
            message: AgentMessage::Assistant(pending.clone()),
            recovery: Some(false),
        }
    );
    let ended = observer.end(assistant(StopReason::Stop));
    assert_eq!(
        ended,
        HarnessEvent::MessageEnd {
            lane: text("main"),
            run_id: Some(text("op")),
            message: AgentMessage::Assistant(assistant(StopReason::Stop)),
            entry_id: Some(text("answer")),
            recovery: Some(false),
        }
    );
    let mut snapshot = lane_snapshot(Some(open_run()));
    let event = observer.update(pending.clone(), json_text("delta"), Some(json_text("frame")));
    assert_eq!(reduce_lane_snapshot(&mut snapshot, &event), None);
    let mut shown = open_run();
    shown.streaming_message = Some(pending);
    assert_eq!(snapshot, lane_snapshot(Some(shown)));
    assert_eq!(reduce_lane_snapshot(&mut snapshot, &ended), None);
    assert_eq!(snapshot, lane_snapshot(Some(open_run())));
}

#[test]
fn the_output_of_a_tool_is_shown() {
    assert_eq!(
        publish_update(
            &text("main"),
            &text("op"),
            &text("turn"),
            &call_block("c1", "read"),
            shown_result(),
            true
        ),
        HarnessEvent::ToolUpdate {
            lane: text("main"),
            run_id: text("op"),
            turn_id: text("turn"),
            tool_call_id: text("c1"),
            tool_name: text("read"),
            partial_result: shown_result(),
            recovery: Some(true),
        }
    );
}

#[test]
fn hooks_replace_what_is_sent_and_what_came_back() {
    let hook = json_object(&[
        ("messages", serde_json::Value::Array(vec![serde_json::Value::Bool(true)])),
        ("payload", serde_json::Value::Bool(false)),
        ("message", serde_json::Value::String(text("m"))),
    ]);
    assert_eq!(
        replaced_messages(&hook),
        Some(json(serde_json::Value::Array(vec![serde_json::Value::Bool(true)])))
    );
    assert_eq!(replaced_payload(&hook), Some(json(serde_json::Value::Bool(false))));
    assert_eq!(replaced_response(&hook), Some(json_text("m")));
    assert_eq!(replaced_messages(&null()), None);
    assert_eq!(replaced_payload(&null()), None);
    assert_eq!(replaced_response(&null()), None);
}

#[test]
fn only_messages_have_a_start_and_an_end() {
    let entry = Entry::Custom(CustomEntry { base: entry_base("c", None), data: None });
    assert_eq!(
        entry_lifecycle_events(&entry, "main", Some("op")),
        vec![HarnessEvent::EntryAdded {
            lane: text("main"),
            entry: entry.clone(),
            recovery: None
        }]
    );
    let entries = vec![entry.clone(), message_entry("m", Some("c"), user("hi"))];
    assert_eq!(find_entry(&entries, &text("c")), Some(&entry));
    assert_eq!(find_entry(&entries, &text("x")), None);
    assert_eq!(oldest_first(&entries), vec![entries[1].clone(), entries[0].clone()]);
}

#[test]
fn numbers_are_written_in_decimal() {
    assert_eq!(decimal_text(0), text("0"));
    assert_eq!(decimal_text(1_050), text("1050"));
    assert_eq!(decimal_text(u64::MAX), text("18446744073709551615"));
}

#[test]
fn a_compaction_starts_the_transcript_anew() {
    let compaction = Entry::Compaction(CompactionEntry {
        base: entry_base("summary", Some("m")),
        summary: text("short"),
        retained_tail: Vec::new(),
        tokens_before: 900,
        details: None,
        usage: None,
        from_hook: false,
    });
    let added = |entry: &Entry| HarnessEvent::EntryAdded {
        lane: text("main"),
        entry: entry.clone(),
        recovery: None,
    };
    let mut snapshot = lane_snapshot(None);
    let message = message_entry("m", None, user("hi"));
    reduce_lane_snapshot(&mut snapshot, &added(&message));
    reduce_lane_snapshot(&mut snapshot, &added(&compaction));
    assert_eq!(snapshot.transcript, vec![compaction.clone()]);
    let next = message_entry("n", Some("summary"), user("more"));
    reduce_lane_snapshot(&mut snapshot, &added(&next));
    assert_eq!(snapshot.transcript, vec![compaction, next]);
}
