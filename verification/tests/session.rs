//! Lanes that come back from storage, and the harness that holds them.

use pi_runtime::command::LaneCommand;
use pi_runtime::harness::{
    AttachError, Harness, attach_lane, check_lane_name, create_agent_harness, watch_session,
};
use pi_runtime::json::Json;
use pi_runtime::model::event::{ConfigUpdatePayload, HarnessEvent, RetryPolicy, ValueUpdatePayload};
use pi_runtime::model::message::Usage;
use pi_runtime::model::session::{
    CheckpointData, CompactionSettings, Continuation, Control, DurableLaneState, GenerationContext,
    LaneConfiguration, ModelIdentity, NormalizedRetryPolicy, Operation, OperationIntent,
    OperationMeta, OperationScope, OperationState, PendingEntry, QueueMode, ReplayPolicy,
    ResultBoundary, RunSettings, StreamOptions, SummaryTask, ThinkingLevel, ToolExecution,
};
use pi_runtime::model::storage::{Address, CommitResult, DurableValue, Entry, SessionStats, Write};
use pi_runtime::names::{Keyed, insert_name, text_precedes};
use pi_runtime::restore::{
    ClassifiedLaneStorage, MissingPart, RestoreError, SessionFault, SessionRows,
    classify_lane_storage, lane_inventory, restore_lane, restore_lane_state, restore_session,
    state_matches_intent,
};
use pi_runtime::transcript::{emit, materialize_committed_entry};
use pi_runtime::types::{
    Config, HarnessError, LaneRuntimeState, OpenOperation, PendingPayload, PendingRow, Resources,
    Skill, SystemPrompt, ToolDescriptor,
};

fn text(value: &str) -> String {
    value.to_string()
}

fn json(value: serde_json::Value) -> Json {
    Json { value }
}

fn null() -> Json {
    json(serde_json::Value::Null)
}

fn model() -> ModelIdentity {
    ModelIdentity { provider: text("acme"), model_id: text("large") }
}

fn configuration() -> LaneConfiguration {
    LaneConfiguration {
        model: model(),
        thinking_level: ThinkingLevel::Low,
        active_tool_names: vec![text("read")],
    }
}

fn compaction_settings() -> CompactionSettings {
    CompactionSettings { enabled: true, reserve_tokens: 100, keep_recent_tokens: 50 }
}

fn settings() -> RunSettings {
    RunSettings {
        compaction: compaction_settings(),
        steering_mode: QueueMode::OneAtATime,
        follow_up_mode: QueueMode::OneAtATime,
        tool_execution: ToolExecution::Parallel,
    }
}

fn scope() -> OperationScope {
    OperationScope {
        control: Control::Running,
        settings: settings(),
        latest_assistant_entry_id: None,
    }
}

fn stopped_scope() -> OperationScope {
    OperationScope {
        control: Control::CancelRequested { requested_at: 7 },
        settings: settings(),
        latest_assistant_entry_id: None,
    }
}

fn stream_options() -> StreamOptions {
    StreamOptions {
        deferred: None,
        headers: None,
        timeout_ms: Some(1_000),
        max_retries: None,
        max_retry_delay_ms: None,
    }
}

fn limits() -> NormalizedRetryPolicy {
    NormalizedRetryPolicy { max_attempts: 3, base_delay_ms: 200, max_agent_delay_ms: 5_000 }
}

fn retry_policy() -> RetryPolicy {
    RetryPolicy {
        enabled: true,
        max_retries: 2,
        base_delay_ms: 200,
        max_agent_delay_ms: Some(5_000),
    }
}

fn generation_context() -> GenerationContext {
    GenerationContext {
        step_id: text("step"),
        trigger_entry_id: text("trigger"),
        configuration: configuration(),
        stream_options: stream_options(),
        retry_policy: limits(),
        overflow_recovery_used: false,
    }
}

fn generating(scope: OperationScope, attempt: u32) -> OperationState {
    OperationState::AssistantEffectPending {
        scope,
        generation_context: generation_context(),
        attempt,
        response_entry_id: text("answer"),
        usage_id: text("usage"),
        intended_output_limit: 400,
        context_window: 8_000,
    }
}

fn usage(total: u64) -> Usage {
    Usage {
        input: total,
        output: 0,
        cache_read: 0,
        cache_write: 0,
        cache_write_1h: None,
        reasoning: None,
        total_tokens: total,
        cost: null(),
    }
}

fn config() -> Config {
    Config {
        tools: vec![
            ToolDescriptor { name: text("read"), replay: Some(ReplayPolicy::Safe) },
            ToolDescriptor { name: text("write"), replay: None },
        ],
        resources: Resources { skills: Vec::new(), prompt_templates: Vec::new() },
        stream_options: stream_options(),
        retry_policy: retry_policy(),
        compaction: compaction_settings(),
        steering_mode: QueueMode::OneAtATime,
        follow_up_mode: QueueMode::OneAtATime,
        tool_execution: ToolExecution::Parallel,
        system_prompt: Some(SystemPrompt::Static(text("be brief"))),
        entry_projectors: vec![text("note")],
    }
}

fn run_meta() -> OperationMeta {
    OperationMeta {
        operation_id: text("op"),
        lane: text("main"),
        intent: OperationIntent::Run { prompt_entry_ids: vec![text("prompt")] },
        source_tip_id: Some(text("root")),
        started_at: 11,
    }
}

fn idle_lane() -> LaneRuntimeState {
    LaneRuntimeState {
        tip_id: Some(text("root")),
        configuration: configuration(),
        inbox: Vec::new(),
        last_operation_id: None,
        operation: None,
    }
}

fn busy_lane(state: OperationState) -> LaneRuntimeState {
    let mut lane = idle_lane();
    lane.operation = Some(Operation { meta: run_meta(), state });
    lane
}

fn stats(message_count: u64) -> SessionStats {
    SessionStats { message_count, usage: usage(0) }
}

fn structural_task(boundary: ResultBoundary) -> SummaryTask {
    SummaryTask {
        task_id: text("task"),
        reason: Some(text("manual")),
        custom_instructions: None,
        boundary,
    }
}

struct Store {
    values: Vec<(Address, DurableValue)>,
    entries: Vec<Entry>,
    seq: u64,
}

impl Store {
    fn new() -> Store {
        Store { values: Vec::new(), entries: Vec::new(), seq: 0 }
    }

    fn remove(&mut self, address: &Address) {
        self.values.retain(|row| row.0 != *address);
    }

    fn commit(&mut self, writes: &[Write]) -> CommitResult {
        let mut seqs = Vec::new();
        for write in writes {
            self.seq += 1;
            seqs.push(self.seq);
            match write {
                Write::InsertEntry(entry) => {
                    self.entries.push(materialize_committed_entry(entry, self.seq, 77));
                }
                Write::SetValue { address, value } => {
                    self.remove(address);
                    self.values.push((address.clone(), value.clone()));
                }
                Write::DeleteValue { address } => self.remove(address),
                _ => {}
            }
        }
        CommitResult { seqs, timestamp: 77, stats: stats(1) }
    }

    fn holds(&self, address: &Address) -> bool {
        self.values.iter().any(|row| row.0 == *address)
    }

    fn payloads(&self) -> Vec<PendingRow> {
        let mut rows = Vec::new();
        for (address, value) in &self.values {
            if let (Address::PendingEntry { entry_id }, DurableValue::Pending(pending)) =
                (address, value)
            {
                rows.push(PendingRow {
                    entry_id: entry_id.clone(),
                    payload: PendingPayload::Decoded(pending.clone()),
                });
            }
        }
        rows
    }

    fn session(&self) -> SessionRows {
        let mut rows = SessionRows {
            tips: Vec::new(),
            configurations: Vec::new(),
            states: Vec::new(),
            metas: Vec::new(),
            operation_states: Vec::new(),
        };
        for (address, value) in &self.values {
            match (address.clone(), value.clone()) {
                (Address::BranchTip { lane }, DurableValue::Tip(value)) => {
                    rows.tips.push(Keyed { key: lane, value })
                }
                (Address::LaneConfig { lane }, DurableValue::Configuration(value)) => {
                    rows.configurations.push(Keyed { key: lane, value })
                }
                (Address::LaneState { lane }, DurableValue::Lane(value)) => {
                    rows.states.push(Keyed { key: lane, value })
                }
                (Address::OperationMeta { operation_id }, DurableValue::Meta(value)) => {
                    rows.metas.push(Keyed { key: operation_id, value })
                }
                (Address::OperationState { operation_id }, DurableValue::State(value)) => {
                    rows.operation_states.push(Keyed { key: operation_id, value })
                }
                _ => {}
            }
        }
        rows
    }

    fn put(&mut self, lane: &str, state: &LaneRuntimeState) {
        let mut writes = vec![
            Write::SetValue {
                address: Address::BranchTip { lane: text(lane) },
                value: DurableValue::Tip(state.tip_id.clone()),
            },
            Write::SetValue {
                address: Address::LaneConfig { lane: text(lane) },
                value: DurableValue::Configuration(state.configuration.clone()),
            },
        ];
        let mut current_operation_id = None;
        if let Some(operation) = &state.operation {
            let operation_id = operation.meta.operation_id.clone();
            current_operation_id = Some(operation_id.clone());
            writes.push(Write::SetValue {
                address: Address::OperationMeta { operation_id: operation_id.clone() },
                value: DurableValue::Meta(operation.meta.clone()),
            });
            writes.push(Write::SetValue {
                address: Address::OperationState { operation_id },
                value: DurableValue::State(operation.state.clone()),
            });
        }
        writes.push(Write::SetValue {
            address: Address::LaneState { lane: text(lane) },
            value: DurableValue::Lane(DurableLaneState {
                current_operation_id,
                last_operation_id: state.last_operation_id.clone(),
                inbox: state.inbox.clone(),
            }),
        });
        self.commit(&writes);
    }

    fn carry_out<T>(
        &mut self,
        command: LaneCommand<T>,
    ) -> (LaneRuntimeState, T, Vec<HarnessEvent>) {
        match command {
            LaneCommand::Commit { writes, next, result, events } => {
                let commit = self.commit(&writes);
                let restored = restore_session(&self.session()).unwrap();
                assert_eq!(restored.len(), 1);
                assert_eq!(restored[0].key, text("main"));
                assert_eq!(restored[0].value, next);
                (next, result, emit(&events, &commit))
            }
            _ => panic!("nothing was committed"),
        }
    }
}

fn full_rows(lane: &str) -> SessionRows {
    SessionRows {
        tips: vec![Keyed { key: text(lane), value: Some(text("root")) }],
        configurations: vec![Keyed { key: text(lane), value: configuration() }],
        states: vec![Keyed {
            key: text(lane),
            value: DurableLaneState {
                current_operation_id: Some(text("op")),
                last_operation_id: None,
                inbox: Vec::new(),
            },
        }],
        metas: vec![Keyed { key: text("op"), value: run_meta() }],
        operation_states: vec![Keyed {
            key: text("op"),
            value: OperationState::Starting { scope: scope() },
        }],
    }
}

fn broken(rows: &SessionRows) -> SessionFault {
    restore_session(rows).err().unwrap()
}

#[test]
fn a_session_restores_its_lanes_in_order() {
    let mut rows = full_rows("main");
    for name in ["zoo", "alpha", "bare", "Beta"] {
        rows.tips.push(Keyed { key: text(name), value: None });
        if name != "bare" {
            rows.configurations.push(Keyed { key: text(name), value: configuration() });
            rows.states.push(Keyed {
                key: text(name),
                value: DurableLaneState {
                    current_operation_id: None,
                    last_operation_id: Some(text("old")),
                    inbox: Vec::new(),
                },
            });
        }
    }
    let lanes = restore_session(&rows).unwrap();
    let names: Vec<String> = lanes.iter().map(|lane| lane.key.clone()).collect();
    assert_eq!(names, vec![text("Beta"), text("alpha"), text("main"), text("zoo")]);
    assert_eq!(lanes[2].value, busy_lane(OperationState::Starting { scope: scope() }));
    assert_eq!(lanes[1].value.last_operation_id, Some(text("old")));
    let inventory = lane_inventory(&rows.tips, &rows.configurations, &rows.states);
    assert_eq!(
        inventory,
        vec![text("Beta"), text("alpha"), text("bare"), text("main"), text("zoo")]
    );
}

#[test]
fn a_lane_with_a_missing_part_is_broken() {
    let mut rows = full_rows("main");
    rows.tips.clear();
    assert_eq!(
        broken(&rows),
        SessionFault::Missing { lane: text("main"), part: MissingPart::Tip }
    );
    let mut rows = full_rows("main");
    rows.configurations.clear();
    assert_eq!(
        broken(&rows),
        SessionFault::Missing { lane: text("main"), part: MissingPart::Configuration }
    );
    let mut rows = full_rows("main");
    rows.states.clear();
    assert_eq!(
        broken(&rows),
        SessionFault::Missing { lane: text("main"), part: MissingPart::State }
    );
}

#[test]
fn an_operation_has_to_fit_its_lane() {
    let fault = |error: RestoreError| SessionFault::Broken { lane: text("main"), error };
    let mut rows = full_rows("main");
    rows.metas.clear();
    assert_eq!(broken(&rows), fault(RestoreError::MissingMeta { operation_id: text("op") }));
    let mut rows = full_rows("main");
    rows.operation_states.clear();
    assert_eq!(broken(&rows), fault(RestoreError::MissingState { operation_id: text("op") }));
    let mut rows = full_rows("main");
    rows.metas[0].value.operation_id = text("other");
    assert_eq!(
        broken(&rows),
        fault(RestoreError::ForeignOperation {
            operation_id: text("op"),
            named: text("other")
        })
    );
    let mut rows = full_rows("main");
    rows.metas[0].value.lane = text("other");
    assert_eq!(
        broken(&rows),
        fault(RestoreError::ForeignLane { operation_id: text("op"), owner: text("other") })
    );
    let mut rows = full_rows("main");
    rows.operation_states[0].value =
        OperationState::NavigationReadyToCommit { scope: scope(), target_id: None, label: None };
    assert_eq!(
        broken(&rows),
        fault(RestoreError::IntentMismatch {
            operation_id: text("op"),
            intent: run_meta().intent,
            at: text("navigation.ready_to_commit"),
        })
    );
    assert_eq!(
        restore_lane_state(
            &text("main"),
            ClassifiedLaneStorage::Branch { tip: None },
            None,
            None
        ),
        Err(RestoreError::NotConfigured)
    );
}

#[test]
fn a_broken_lane_says_what_is_wrong() {
    let said = |error: RestoreError| error.message(&text("main"), &text("Run"));
    assert_eq!(said(RestoreError::NotConfigured), text("Lane \"main\" is not configured"));
    assert_eq!(
        said(RestoreError::MissingMeta { operation_id: text("op") }),
        text("Operation op is missing op.meta")
    );
    assert_eq!(
        said(RestoreError::MissingState { operation_id: text("op") }),
        text("Operation op is missing op.state")
    );
    assert_eq!(
        said(RestoreError::ForeignOperation { operation_id: text("op"), named: text("x") }),
        text("Operation op metadata names operation \"x\"")
    );
    assert_eq!(
        said(RestoreError::ForeignLane { operation_id: text("op"), owner: text("x") }),
        text("Operation op belongs to lane \"x\", not \"main\"")
    );
    assert_eq!(
        said(RestoreError::IntentMismatch {
            operation_id: text("op"),
            intent: run_meta().intent,
            at: text("tools"),
        }),
        text("Operation op intent Run does not match state tools")
    );
}

#[test]
fn a_state_belongs_to_an_intent() {
    let run = OperationIntent::Run { prompt_entry_ids: Vec::new() };
    let compaction = OperationIntent::Compaction { custom_instructions: None };
    let navigation = OperationIntent::Navigation {
        target_id: Some(text("there")),
        summarize: true,
        label: None,
        custom_instructions: None,
    };
    let deciding = |boundary: ResultBoundary| OperationState::SummaryDeciding {
        scope: scope(),
        task: structural_task(boundary),
    };
    let finish = deciding(ResultBoundary::Finish);
    let go = deciding(ResultBoundary::CommitNavigation {
        target_id: text("there"),
        label: None,
    });
    let resume = deciding(ResultBoundary::ResumeCheckpoint {
        resume_after: CheckpointData {
            continuation: Continuation::NeedAssistant { overflow_recovery_used: false },
            trigger_entry_id: text("t"),
        },
    });
    assert!(state_matches_intent(&compaction, &finish));
    assert!(!state_matches_intent(&compaction, &go));
    assert!(state_matches_intent(&navigation, &go));
    assert!(!state_matches_intent(&navigation, &finish));
    assert!(state_matches_intent(&run, &resume));
    assert!(!state_matches_intent(&run, &finish));
    assert!(state_matches_intent(&run, &OperationState::Starting { scope: scope() }));
}

#[test]
fn only_a_configured_lane_can_be_restored() {
    assert_eq!(
        restore_lane(&text("main"), ClassifiedLaneStorage::Absent),
        Err(text("Lane \"main\" is missing branch.tip"))
    );
    assert_eq!(
        restore_lane(&text("main"), ClassifiedLaneStorage::Branch { tip: None }),
        Err(text("Lane \"main\" is missing lane.config"))
    );
    let stored = || {
        classify_lane_storage(
            Some(None),
            Some(configuration()),
            Some(DurableLaneState {
                current_operation_id: None,
                last_operation_id: None,
                inbox: Vec::new(),
            }),
        )
        .unwrap()
    };
    assert_eq!(restore_lane(&text("main"), stored()), Ok(stored()));
}

#[test]
fn texts_are_ordered_by_their_characters() {
    let order = ["", "A", "Z", "a", "aa", "ab", "b", "\u{e9}", "\u{65e5}"];
    for (i, a) in order.iter().enumerate() {
        for (j, b) in order.iter().enumerate() {
            assert_eq!(text_precedes(&text(a), &text(b)), i < j);
            assert_eq!(text(a) < text(b), i < j);
        }
    }
    let mut names = Vec::new();
    for name in ["b", "a", "c", "b"] {
        insert_name(&mut names, &text(name));
    }
    assert_eq!(names, vec![text("a"), text("b"), text("c")]);
}

fn harness(restored: Vec<Keyed<LaneRuntimeState>>) -> (Harness, Vec<OpenOperation>) {
    create_agent_harness(model(), ThinkingLevel::Low, vec![text("read")], config(), restored)
}

fn open_main(aborting: Option<bool>) -> OpenOperation {
    OpenOperation {
        lane: text("main"),
        operation_id: text("op"),
        kind: text("run"),
        started_at: 11,
        aborting,
    }
}

#[test]
fn a_harness_reports_what_was_open() {
    let restored = vec![
        Keyed { key: text("idle"), value: idle_lane() },
        Keyed { key: text("main"), value: busy_lane(generating(stopped_scope(), 1)) },
    ];
    let (harness, open) = harness(restored);
    assert_eq!(open, vec![open_main(Some(true))]);
    assert_eq!(harness.lanes(), Ok(open));
    assert_eq!(harness.find_lane(&text("main")), Some(1));
    assert_eq!(harness.find_lane(&text("none")), None);
}

#[test]
fn lanes_have_proper_names() {
    assert_eq!(check_lane_name(&text("main")), Ok(()));
    assert_eq!(
        check_lane_name(&text("")),
        Err(HarnessError::InvalidLane {
            lane: text(""),
            reason: text("lane name must not be empty"),
            message: text("Invalid lane \"\""),
        })
    );
    assert_eq!(
        check_lane_name(&text("a\u{0}b")),
        Err(HarnessError::InvalidLane {
            lane: text("a\u{0}b"),
            reason: text("lane name must not contain \\u0000"),
            message: text("Invalid lane \"a\\0b\""),
        })
    );
}

#[test]
fn a_new_lane_is_stored_and_installed() {
    let (mut harness, _) = harness(vec![Keyed { key: text("zoo"), value: idle_lane() }]);
    let attached = attach_lane(
        &harness.seed,
        &text("main"),
        ClassifiedLaneStorage::Absent,
        None,
        None,
        None,
        false,
    )
    .unwrap();
    let mut store = Store::new();
    store.commit(&attached.writes);
    let restored = restore_session(&store.session()).unwrap();
    assert_eq!(restored.len(), 1);
    assert_eq!(restored[0].value, attached.state);
    assert_eq!(
        harness.install_lane(&text("main"), attached.state),
        HarnessEvent::LaneCreated { lane: text("main"), at: None, recovery: None }
    );
    let names: Vec<String> = harness.lanes.iter().map(|lane| lane.name.clone()).collect();
    assert_eq!(names, vec![text("main"), text("zoo")]);
}

#[test]
fn a_lane_is_attached_to_what_there_is() {
    let branch = attach_lane(
        &configuration(),
        &text("main"),
        ClassifiedLaneStorage::Branch { tip: Some(text("root")) },
        None,
        None,
        None,
        false,
    )
    .unwrap();
    assert_eq!(branch.state, idle_lane());
    assert_eq!(branch.writes.len(), 2);
    let unknown = attach_lane(
        &configuration(),
        &text("main"),
        ClassifiedLaneStorage::Absent,
        None,
        None,
        Some(text("gone")),
        false,
    );
    assert_eq!(
        unknown,
        Err(AttachError::Refused(HarnessError::UnknownTarget {
            target_id: text("gone"),
            message: text("Unknown target: gone"),
        }))
    );
    let stored = ClassifiedLaneStorage::Lane {
        tip: Some(text("root")),
        configuration: configuration(),
        lane_state: DurableLaneState {
            current_operation_id: Some(text("op")),
            last_operation_id: None,
            inbox: Vec::new(),
        },
    };
    assert_eq!(
        attach_lane(&configuration(), &text("main"), stored, None, None, None, false),
        Err(AttachError::Broken(RestoreError::MissingMeta { operation_id: text("op") }))
    );
}

#[test]
fn a_closed_harness_refuses_requests() {
    let restored = vec![Keyed { key: text("main"), value: idle_lane() }];
    let (mut harness, _) = harness(restored);
    assert_eq!(harness.assert_open(), Ok(()));
    assert_eq!(harness.close(), Ok(()));
    let message = text("AgentHarness was closed while the operation was active");
    let closed = HarnessError::Closed { message: message.clone() };
    assert_eq!(harness.close(), Err(closed.clone()));
    assert_eq!(harness.assert_open(), Err(closed.clone()));
    assert_eq!(harness.lanes(), Err(closed.clone()));
    assert_eq!(harness.lanes[0].closed_error, Some(message));
    assert_eq!(harness.set_steering_mode(QueueMode::All), Err(closed.clone()));
    assert_eq!(harness.config.steering_mode, QueueMode::OneAtATime);
    assert_eq!(harness.fault(&text("disk")), closed);
    assert_eq!(harness.fault_error, None);
}

#[test]
fn a_fault_closes_every_lane_once() {
    let restored = vec![Keyed { key: text("main"), value: idle_lane() }];
    let (mut harness, _) = harness(restored);
    let message = text("AgentHarness storage or invariant fault: disk");
    assert_eq!(harness.lane_fault(&text("disk")), message);
    let failed = HarnessError::Closed { message: message.clone() };
    assert_eq!(harness.fault(&text("disk")), failed);
    assert_eq!(harness.fault(&text("again")), failed);
    assert_eq!(harness.lane_fault(&text("again")), message);
    assert_eq!(harness.lanes[0].closed_error, Some(message));
    assert_eq!(harness.lanes[0].generation, 1);
    assert_eq!(harness.get_tools(), Err(failed));
}

#[test]
fn shared_settings_change_with_an_event() {
    let (mut harness, _) = harness(Vec::new());
    let updated = |payload: ConfigUpdatePayload| {
        Ok(HarnessEvent::ConfigUpdate { lane: None, payload, recovery: None })
    };
    let tools = vec![ToolDescriptor { name: text("grep"), replay: None }];
    assert_eq!(harness.set_tools(tools.clone()), updated(ConfigUpdatePayload::Tools));
    assert_eq!(harness.get_tools(), Ok(tools));
    let resources = Resources {
        skills: vec![Skill { name: text("plan"), definition: null() }],
        prompt_templates: Vec::new(),
    };
    assert_eq!(
        harness.set_resources(resources.clone()),
        updated(ConfigUpdatePayload::Resources)
    );
    assert_eq!(harness.get_resources(), Ok(resources));
    let mut options = stream_options();
    options.timeout_ms = None;
    assert_eq!(
        harness.set_stream_options(options.clone()),
        updated(ConfigUpdatePayload::StreamOptions {
            value: options.clone(),
            previous: stream_options()
        })
    );
    assert_eq!(harness.get_stream_options(), Ok(options));
    let mut policy = retry_policy();
    policy.max_retries = 9;
    assert_eq!(
        harness.set_retry_policy(policy),
        updated(ConfigUpdatePayload::RetryPolicy { value: policy, previous: retry_policy() })
    );
    assert_eq!(harness.get_retry_policy(), Ok(policy));
    let mut compaction = compaction_settings();
    compaction.enabled = false;
    assert_eq!(
        harness.set_compaction_settings(compaction),
        updated(ConfigUpdatePayload::CompactionSettings {
            value: compaction,
            previous: compaction_settings()
        })
    );
    assert_eq!(harness.get_compaction_settings(), Ok(compaction));
    assert_eq!(
        harness.set_steering_mode(QueueMode::All),
        updated(ConfigUpdatePayload::SteeringMode {
            value: QueueMode::All,
            previous: QueueMode::OneAtATime
        })
    );
    assert_eq!(harness.get_steering_mode(), Ok(QueueMode::All));
    assert_eq!(
        harness.set_follow_up_mode(QueueMode::All),
        updated(ConfigUpdatePayload::FollowUpMode {
            value: QueueMode::All,
            previous: QueueMode::OneAtATime
        })
    );
    assert_eq!(harness.get_follow_up_mode(), Ok(QueueMode::All));
}

#[test]
fn names_and_labels_are_announced() {
    let (harness, _) = harness(Vec::new());
    assert_eq!(
        harness.set_name(Some(text("notes"))),
        Ok(HarnessEvent::ValueUpdate {
            payload: ValueUpdatePayload::SessionName { name: Some(text("notes")) }
        })
    );
    assert_eq!(
        harness.set_label(&text("e"), None),
        Ok(HarnessEvent::ValueUpdate {
            payload: ValueUpdatePayload::EntryLabel { target_id: text("e"), label: None }
        })
    );
}

#[test]
fn a_session_cannot_be_watched_yet() {
    assert_eq!(
        watch_session().message(),
        text("watchSession is not implemented until its later AgentHarness slice")
    );
}
