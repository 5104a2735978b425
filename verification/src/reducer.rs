//! Following a lane by its events.

use crate::json::Json;
use crate::model::event::{
    ConfigUpdatePayload, ConfigUpdatePayloadView, DeferredSnapshot, DeferredSnapshotView,
    HarnessEvent, HarnessEventView, LaneOperationSnapshot, LaneOperationSnapshotView, LaneSnapshot,
    LaneSnapshotTool, LaneSnapshotToolView, LaneSnapshotView, RetrySnapshot,
};
use crate::model::message::{
    AgentMessage, AgentMessageView, AgentToolResult, AgentToolResultView, StopReason,
};
use crate::model::session::{
    LaneConfigurationView, OperationIntent, OperationIntentView, OperationResultRecord,
    OperationResultRecordView,
};
use crate::model::storage::{Entry, EntryView, SessionStatsView};
use crate::text::reads;
use crate::transcript::lemma_prefix_push;
use vstd::prelude::*;

verus! {

/// What an observer has to do besides following the event.
#[derive(Clone, Copy, Debug, PartialEq, Eq, Structural)]
pub enum LaneSnapshotReduction {
    /// Take a new snapshot.
    Rebase,
}

impl HarnessEventView {
    /// The lane an event belongs to.
    pub open spec fn lane(self) -> Option<Seq<char>> {
        match self {
            HarnessEventView::RunStart { lane, .. } => Some(lane),
            HarnessEventView::CompactionStart { lane, .. } => Some(lane),
            HarnessEventView::NavigationStart { lane, .. } => Some(lane),
            HarnessEventView::OperationAbort { lane, .. } => Some(lane),
            HarnessEventView::RunResume { lane, .. } => Some(lane),
            HarnessEventView::RunSuspend { lane, .. } => Some(lane),
            HarnessEventView::RetryScheduled { lane, .. } => Some(lane),
            HarnessEventView::RetryStart { lane, .. } => Some(lane),
            HarnessEventView::RetryEnd { lane, .. } => Some(lane),
            HarnessEventView::MessageStart { lane, .. } => Some(lane),
            HarnessEventView::MessageUpdate { lane, .. } => Some(lane),
            HarnessEventView::MessageEnd { lane, .. } => Some(lane),
            HarnessEventView::ToolStart { lane, .. } => Some(lane),
            HarnessEventView::ToolUpdate { lane, .. } => Some(lane),
            HarnessEventView::ToolEnd { lane, .. } => Some(lane),
            HarnessEventView::EntryAdded { lane, .. } => Some(lane),
            HarnessEventView::QueueUpdate { lane, .. } => Some(lane),
            HarnessEventView::Usage { lane, .. } => Some(lane),
            HarnessEventView::ConfigUpdate { lane, .. } => lane,
            HarnessEventView::RunEnd { lane, .. } => Some(lane),
            HarnessEventView::CompactionEnd { lane, .. } => Some(lane),
            HarnessEventView::NavigationEnd { lane, .. } => Some(lane),
            HarnessEventView::Fault { lane, .. } => lane,
            HarnessEventView::HandlerError { lane, .. } => lane,
            HarnessEventView::TurnStart { lane, .. } => Some(lane),
            HarnessEventView::TurnEnd { lane, .. } => Some(lane),
            HarnessEventView::ValueUpdate { .. } => None,
            HarnessEventView::LaneCreated { lane, .. } => Some(lane),
        }
    }
}

impl HarnessEvent {
    /// The lane an event belongs to.
    pub fn lane(&self) -> (r: Option<&String>)
        ensures
            r.deep_view() == self.deep_view().lane(),
    {
        match self {
            HarnessEvent::RunStart { lane, .. } => Some(lane),
            HarnessEvent::CompactionStart { lane, .. } => Some(lane),
            HarnessEvent::NavigationStart { lane, .. } => Some(lane),
            HarnessEvent::OperationAbort { lane, .. } => Some(lane),
            HarnessEvent::RunResume { lane, .. } => Some(lane),
            HarnessEvent::RunSuspend { lane, .. } => Some(lane),
            HarnessEvent::RetryScheduled { lane, .. } => Some(lane),
            HarnessEvent::RetryStart { lane, .. } => Some(lane),
            HarnessEvent::RetryEnd { lane, .. } => Some(lane),
            HarnessEvent::MessageStart { lane, .. } => Some(lane),
            HarnessEvent::MessageUpdate { lane, .. } => Some(lane),
            HarnessEvent::MessageEnd { lane, .. } => Some(lane),
            HarnessEvent::ToolStart { lane, .. } => Some(lane),
            HarnessEvent::ToolUpdate { lane, .. } => Some(lane),
            HarnessEvent::ToolEnd { lane, .. } => Some(lane),
            HarnessEvent::EntryAdded { lane, .. } => Some(lane),
            HarnessEvent::QueueUpdate { lane, .. } => Some(lane),
            HarnessEvent::Usage { lane, .. } => Some(lane),
            HarnessEvent::ConfigUpdate { lane, .. } => lane.as_ref(),
            HarnessEvent::RunEnd { lane, .. } => Some(lane),
            HarnessEvent::CompactionEnd { lane, .. } => Some(lane),
            HarnessEvent::NavigationEnd { lane, .. } => Some(lane),
            HarnessEvent::Fault { lane, .. } => lane.as_ref(),
            HarnessEvent::HandlerError { lane, .. } => lane.as_ref(),
            HarnessEvent::TurnStart { lane, .. } => Some(lane),
            HarnessEvent::TurnEnd { lane, .. } => Some(lane),
            HarnessEvent::ValueUpdate { .. } => None,
            HarnessEvent::LaneCreated { lane, .. } => Some(lane),
        }
    }
}

impl LaneSnapshotToolView {
    /// The tool call.
    pub open spec fn call_id(self) -> Seq<char> {
        match self {
            LaneSnapshotToolView::Running { tool_call_id, .. } => tool_call_id,
            LaneSnapshotToolView::Settled { tool_call_id, .. } => tool_call_id,
        }
    }

    /// The arguments of the call.
    pub open spec fn args(self) -> serde_json::Value {
        match self {
            LaneSnapshotToolView::Running { args, .. } => args,
            LaneSnapshotToolView::Settled { args, .. } => args,
        }
    }
}

impl LaneSnapshotTool {
    fn call_id(&self) -> (r: &String)
        ensures
            r@ == self.deep_view().call_id(),
    {
        match self {
            LaneSnapshotTool::Running { tool_call_id, .. } => tool_call_id,
            LaneSnapshotTool::Settled { tool_call_id, .. } => tool_call_id,
        }
    }

    fn args(&self) -> (r: Json)
        ensures
            r.deep_view() == self.deep_view().args(),
    {
        match self {
            LaneSnapshotTool::Running { args, .. } => args.clone(),
            LaneSnapshotTool::Settled { args, .. } => args.clone(),
        }
    }
}

/// The place of the first tool with a call id, or the number of tools.
pub open spec fn tool_place(tools: Seq<LaneSnapshotToolView>, call_id: Seq<char>) -> int
    decreases tools.len(),
{
    if tools.len() == 0 {
        0
    } else if tool_place(tools.drop_last(), call_id) < tools.len() - 1 {
        tool_place(tools.drop_last(), call_id)
    } else if tools.last().call_id() == call_id {
        tools.len() - 1
    } else {
        tools.len() as int
    }
}

/// What holds of the place of a tool.
pub proof fn lemma_tool_place(tools: Seq<LaneSnapshotToolView>, call_id: Seq<char>)
    ensures
        0 <= tool_place(tools, call_id) <= tools.len(),
        tool_place(tools, call_id) < tools.len() ==> tools[tool_place(tools, call_id)].call_id()
            == call_id,
        forall|i: int|
            0 <= i < tool_place(tools, call_id) ==> (#[trigger] tools[i]).call_id() != call_id,
    decreases tools.len(),
{
    if tools.len() > 0 {
        lemma_tool_place(tools.drop_last(), call_id);
        assert forall|i: int| 0 <= i < tool_place(tools, call_id) implies (
        #[trigger] tools[i]).call_id() != call_id by {
            if i < tools.len() - 1 {
                assert(tools.drop_last()[i] == tools[i]);
            }
        }
    }
}

proof fn lemma_tool_place_stays(tools: Seq<LaneSnapshotToolView>, n: int, call_id: Seq<char>)
    requires
        0 <= n <= tools.len(),
        tool_place(tools.take(n), call_id) < n,
    ensures
        tool_place(tools, call_id) == tool_place(tools.take(n), call_id),
    decreases tools.len(),
{
    if n < tools.len() {
        assert(tools.drop_last().take(n) =~= tools.take(n));
        lemma_tool_place_stays(tools.drop_last(), n, call_id);
    } else {
        assert(tools.take(n) =~= tools);
    }
}

fn find_tool(tools: &Vec<LaneSnapshotTool>, call_id: &String) -> (r: usize)
    ensures
        r == tool_place(tools.deep_view(), call_id@),
        r <= tools.len(),
{
    let mut i: usize = 0;
    while i < tools.len()
        invariant
            i <= tools.len(),
            tool_place(tools.deep_view().take(i as int), call_id@) == i,
        decreases tools.len() - i,
    {
        proof {
            lemma_prefix_push(*tools, i as int);
        }
        if *tools[i].call_id() == *call_id {
            proof {
                lemma_tool_place_stays(tools.deep_view(), i as int + 1, call_id@);
            }
            return i;
        }
        i += 1;
    }
    assert(tools.deep_view().take(i as int) =~= tools.deep_view());
    i
}

/// A list of tools with one put in the place of its call, or behind the others.
pub open spec fn upserted(
    tools: Seq<LaneSnapshotToolView>,
    tool: LaneSnapshotToolView,
) -> Seq<LaneSnapshotToolView> {
    let place = tool_place(tools, tool.call_id());
    if place < tools.len() {
        tools.update(place, tool)
    } else {
        tools.push(tool)
    }
}

/// Puts a tool in the place of its call, or behind the others.
pub fn upsert_tool(operation: &mut LaneOperationSnapshot, tool: LaneSnapshotTool)
    ensures
        final(operation).deep_view() == (LaneOperationSnapshotView {
            running_tools: upserted(old(operation).deep_view().running_tools, tool.deep_view()),
            ..old(operation).deep_view()
        }),
{
    let ghost before = operation.running_tools.deep_view();
    let place: usize = find_tool(&operation.running_tools, tool.call_id());
    if place < operation.running_tools.len() {
        operation.running_tools[place] = tool;
    } else {
        operation.running_tools.push(tool);
    }
    assert(operation.running_tools.deep_view() =~= upserted(before, tool.deep_view()));
}

/// Whether an operation of a snapshot has an id.
pub open spec fn is_current(snapshot: LaneSnapshotView, operation_id: Seq<char>) -> bool {
    snapshot.operation matches Some(operation) && operation.id == operation_id
}

/// The operation of a snapshot, if it has the id.
pub fn matching_operation<'a>(snapshot: &'a mut LaneSnapshot, operation_id: &String) -> (r: Option<
    &'a mut LaneOperationSnapshot,
>)
    ensures
        r is Some <==> is_current(old(snapshot).deep_view(), operation_id@),
        r is None ==> *final(snapshot) == *old(snapshot),
        r is Some ==> old(snapshot).operation == Some(*r->Some_0) && *final(snapshot) == (
        LaneSnapshot { operation: Some(*final(r->Some_0)), ..*old(snapshot) }),
{
    match &mut snapshot.operation {
        Some(operation) => {
            if operation.id == *operation_id {
                Some(operation)
            } else {
                None
            }
        },
        None => None,
    }
}

/// An operation that has just started.
pub open spec fn opened(
    snapshot: LaneSnapshotView,
    id: Seq<char>,
    kind: Seq<char>,
    started_at: u64,
) -> LaneSnapshotView {
    LaneSnapshotView {
        operation: Some(
            LaneOperationSnapshotView {
                id,
                kind,
                started_at,
                from_tip_id: snapshot.tip_id,
                status: "open"@,
                retry: None,
                deferred: None,
                streaming_message: None,
                running_tools: Seq::empty(),
            },
        ),
        ..snapshot
    }
}

fn open_operation(snapshot: &mut LaneSnapshot, id: &String, kind: &str, started_at: u64)
    ensures
        final(snapshot).deep_view() == opened(old(snapshot).deep_view(), id@, kind@, started_at),
{
    let running_tools: Vec<LaneSnapshotTool> = Vec::new();
    assert(running_tools.deep_view() =~= Seq::empty());
    snapshot.operation =
    Some(
        LaneOperationSnapshot {
            id: id.clone(),
            kind: kind.to_string(),
            started_at,
            from_tip_id: snapshot.tip_id.clone(),
            status: "open".to_string(),
            retry: None,
            deferred: None,
            streaming_message: None,
            running_tools,
        },
    );
}

/// A snapshot with its operation changed, if that operation has the id.
pub open spec fn on_operation(
    snapshot: LaneSnapshotView,
    operation_id: Seq<char>,
    change: spec_fn(LaneOperationSnapshotView) -> LaneOperationSnapshotView,
) -> LaneSnapshotView {
    if is_current(snapshot, operation_id) {
        LaneSnapshotView { operation: Some(change(snapshot.operation->Some_0)), ..snapshot }
    } else {
        snapshot
    }
}

/// An operation after news of a running tool.
pub open spec fn tool_updated(
    operation: LaneOperationSnapshotView,
    call_id: Seq<char>,
    partial_result: AgentToolResultView,
) -> LaneOperationSnapshotView {
    let place = tool_place(operation.running_tools, call_id);
    if place < operation.running_tools.len() {
        match operation.running_tools[place] {
            LaneSnapshotToolView::Running { tool_call_id, tool_name, args, .. } => {
                LaneOperationSnapshotView {
                    running_tools: operation.running_tools.update(
                        place,
                        LaneSnapshotToolView::Running {
                            tool_call_id,
                            tool_name,
                            args,
                            result: Some(partial_result),
                        },
                    ),
                    ..operation
                }
            },
            _ => operation,
        }
    } else {
        operation
    }
}

fn update_tool(operation: &mut LaneOperationSnapshot, call_id: &String, partial_result: &AgentToolResult)
    ensures
        final(operation).deep_view() == tool_updated(
            old(operation).deep_view(),
            call_id@,
            partial_result.deep_view(),
        ),
{
    let ghost before = operation.deep_view();
    let place: usize = find_tool(&operation.running_tools, call_id);
    if place < operation.running_tools.len() {
        let tool = operation.running_tools[place].clone();
        if let LaneSnapshotTool::Running { tool_call_id, tool_name, args, .. } = tool {
            operation.running_tools[place] =
            LaneSnapshotTool::Running {
                tool_call_id,
                tool_name,
                args,
                result: Some(partial_result.clone()),
            };
            assert(operation.running_tools.deep_view() =~= tool_updated(
                before,
                call_id@,
                partial_result.deep_view(),
            ).running_tools);
        }
    }
}

/// An operation after the end of a tool.
pub open spec fn tool_settled(
    operation: LaneOperationSnapshotView,
    tool_call_id: Seq<char>,
    tool_name: Seq<char>,
    result: AgentToolResultView,
    is_error: bool,
) -> LaneOperationSnapshotView {
    let place = tool_place(operation.running_tools, tool_call_id);
    if place < operation.running_tools.len() {
        LaneOperationSnapshotView {
            running_tools: operation.running_tools.update(
                place,
                LaneSnapshotToolView::Settled {
                    tool_call_id,
                    tool_name,
                    args: operation.running_tools[place].args(),
                    result,
                    is_error,
                },
            ),
            ..operation
        }
    } else {
        operation
    }
}

fn settle_tool(
    operation: &mut LaneOperationSnapshot,
    tool_call_id: &String,
    tool_name: &String,
    result: &AgentToolResult,
    is_error: bool,
)
    ensures
        final(operation).deep_view() == tool_settled(
            old(operation).deep_view(),
            tool_call_id@,
            tool_name@,
            result.deep_view(),
            is_error,
        ),
{
    let ghost before = operation.deep_view();
    let place: usize = find_tool(&operation.running_tools, tool_call_id);
    if place < operation.running_tools.len() {
        let args = operation.running_tools[place].args();
        operation.running_tools[place] =
        LaneSnapshotTool::Settled {
            tool_call_id: tool_call_id.clone(),
            tool_name: tool_name.clone(),
            args,
            result: result.clone(),
            is_error,
        };
        assert(operation.running_tools.deep_view() =~= tool_settled(
            before,
            tool_call_id@,
            tool_name@,
            result.deep_view(),
            is_error,
        ).running_tools);
    }
}

/// The tools other than those of a call.
pub open spec fn without_call(tools: Seq<LaneSnapshotToolView>, call_id: Seq<char>) -> Seq<
    LaneSnapshotToolView,
> {
    tools.filter(|tool: LaneSnapshotToolView| tool.call_id() != call_id)
}

fn drop_call(tools: &Vec<LaneSnapshotTool>, call_id: &String) -> (r: Vec<LaneSnapshotTool>)
    ensures
        r.deep_view() == without_call(tools.deep_view(), call_id@),
{
    let ghost keep = |tool: LaneSnapshotToolView| tool.call_id() != call_id@;
    let mut kept: Vec<LaneSnapshotTool> = Vec::new();
    let mut i: usize = 0;
    assert(kept.deep_view() =~= tools.deep_view().take(0).filter(keep)) by {
        reveal(Seq::filter);
    }
    while i < tools.len()
        invariant
            i <= tools.len(),
            keep == (|tool: LaneSnapshotToolView| tool.call_id() != call_id@),
            kept.deep_view() == tools.deep_view().take(i as int).filter(keep),
        decreases tools.len() - i,
    {
        let ghost before = kept.deep_view();
        proof {
            crate::inbox::lemma_filter_step(tools.deep_view(), i as int, keep);
        }
        if *tools[i].call_id() != *call_id {
            kept.push(tools[i].clone());
            assert(kept.deep_view() =~= before.push(tools[i as int].deep_view()));
        }
        i += 1;
    }
    assert(tools.deep_view().take(i as int) =~= tools.deep_view());
    kept
}

/// A snapshot after an entry was added: a tool result ends the tools of its
/// call, and a compaction replaces the transcript.
pub open spec fn entry_added(snapshot: LaneSnapshotView, entry: EntryView) -> LaneSnapshotView {
    LaneSnapshotView {
        operation: match (entry, snapshot.operation) {
            (EntryView::Message(message), Some(operation)) => match message.message {
                AgentMessageView::ToolResult(result) => Some(
                    LaneOperationSnapshotView {
                        running_tools: without_call(operation.running_tools, result.tool_call_id),
                        ..operation
                    },
                ),
                _ => Some(operation),
            },
            (_, operation) => operation,
        },
        transcript: if entry is Compaction {
            seq![entry]
        } else {
            snapshot.transcript.push(entry)
        },
        tip_id: Some(entry.id()),
        stats: SessionStatsView {
            message_count: if entry is Message {
                (snapshot.stats.message_count + 1) as u64
            } else {
                snapshot.stats.message_count
            },
            ..snapshot.stats
        },
        ..snapshot
    }
}

fn add_entry(snapshot: &mut LaneSnapshot, entry: &Entry)
    requires
        entry.deep_view() is Message ==> old(snapshot).stats.message_count < u64::MAX,
    ensures
        final(snapshot).deep_view() == entry_added(old(snapshot).deep_view(), entry.deep_view()),
{
    let ghost before = snapshot.deep_view();
    if let Entry::Message(message) = entry {
        if let AgentMessage::ToolResult(result) = &message.message {
            if let Some(operation) = &mut snapshot.operation {
                let kept = drop_call(&operation.running_tools, &result.tool_call_id);
                operation.running_tools = kept;
            }
        }
    }
    if let Entry::Compaction(_) = entry {
        snapshot.transcript = vec![entry.clone()];
        assert(snapshot.transcript.deep_view() =~= seq![entry.deep_view()]);
    } else {
        snapshot.transcript.push(entry.clone());
        assert(snapshot.transcript.deep_view() =~= before.transcript.push(entry.deep_view()));
    }
    snapshot.tip_id = Some(entry.id().clone());
    if let Entry::Message(_) = entry {
        snapshot.stats.message_count = snapshot.stats.message_count + 1;
    }
}

/// A configuration after a change of it. Changes of the harness leave it alone.
pub open spec fn reconfigured(
    configuration: LaneConfigurationView,
    payload: ConfigUpdatePayloadView,
) -> LaneConfigurationView {
    match payload {
        ConfigUpdatePayloadView::Model { value, .. } => LaneConfigurationView {
            model: value,
            ..configuration
        },
        ConfigUpdatePayloadView::ThinkingLevel { value, .. } => LaneConfigurationView {
            thinking_level: value,
            ..configuration
        },
        ConfigUpdatePayloadView::ActiveTools { value, .. } => LaneConfigurationView {
            active_tool_names: value,
            ..configuration
        },
        _ => configuration,
    }
}

fn reconfigure(snapshot: &mut LaneSnapshot, payload: &ConfigUpdatePayload)
    ensures
        final(snapshot).deep_view() == (LaneSnapshotView {
            configuration: reconfigured(
                old(snapshot).deep_view().configuration,
                payload.deep_view(),
            ),
            ..old(snapshot).deep_view()
        }),
{
    match payload {
        ConfigUpdatePayload::Model { value, .. } => {
            snapshot.configuration.model = value.clone();
        },
        ConfigUpdatePayload::ThinkingLevel { value, .. } => {
            snapshot.configuration.thinking_level = *value;
        },
        ConfigUpdatePayload::ActiveTools { value, .. } => {
            snapshot.configuration.active_tool_names = value.clone();
        },
        _ => {},
    }
}

/// Whether an event is for another lane. Usage is shared by all lanes.
pub open spec fn foreign(snapshot: LaneSnapshotView, event: HarnessEventView) -> bool {
    event.lane() is Some && event.lane() != Some(snapshot.lane) && !(event is Usage)
}

/// The result of the operation that an event ends.
pub open spec fn ended(snapshot: LaneSnapshotView, event: HarnessEventView) -> Option<
    OperationResultRecordView,
> {
    match (event, snapshot.operation) {
        (
            HarnessEventView::RunEnd { run_id, status, error, from_tip_id, tip_id, ended_at, .. },
            Some(operation),
        ) if operation.id == run_id && operation.kind == "run"@ => Some(
            OperationResultRecordView {
                operation_id: run_id,
                kind: OperationIntentView::Run { prompt_entry_ids: Seq::empty() },
                status,
                error,
                from_tip_id,
                tip_id,
                started_at: operation.started_at,
                ended_at,
            },
        ),
        (
            HarnessEventView::CompactionEnd { run_id, status, error, ended_at, .. },
            Some(operation),
        ) if operation.id == run_id && operation.kind == "compaction"@ => Some(
            OperationResultRecordView {
                operation_id: run_id,
                kind: OperationIntentView::Compaction { custom_instructions: None },
                status,
                error,
                from_tip_id: operation.from_tip_id,
                tip_id: snapshot.tip_id,
                started_at: operation.started_at,
                ended_at,
            },
        ),
        _ => None,
    }
}

/// A snapshot after an event of its lane.
pub open spec fn followed(snapshot: LaneSnapshotView, event: HarnessEventView) -> LaneSnapshotView {
    match event {
        HarnessEventView::RunStart { run_id, started_at, .. } => opened(
            snapshot,
            run_id,
            "run"@,
            started_at,
        ),
        HarnessEventView::CompactionStart { run_id, started_at, .. } => if snapshot.operation
            is Some {
            snapshot
        } else {
            opened(snapshot, run_id, "compaction"@, started_at)
        },
        HarnessEventView::NavigationStart { run_id, started_at, .. } => opened(
            snapshot,
            run_id,
            "navigation"@,
            started_at,
        ),
        HarnessEventView::OperationAbort { operation_id, .. } => on_operation(
            snapshot,
            operation_id,
            |operation: LaneOperationSnapshotView|
                LaneOperationSnapshotView { status: "aborting"@, ..operation },
        ),
        HarnessEventView::RunResume { run_id, .. } => on_operation(
            snapshot,
            run_id,
            |operation: LaneOperationSnapshotView|
                LaneOperationSnapshotView { deferred: None, ..operation },
        ),
        HarnessEventView::RunSuspend { run_id, deferred, poll, .. } => on_operation(
            snapshot,
            run_id,
            |operation: LaneOperationSnapshotView|
                LaneOperationSnapshotView {
                    streaming_message: None,
                    deferred: Some(DeferredSnapshotView { handle: deferred, poll }),
                    ..operation
                },
        ),
        HarnessEventView::RetryScheduled { run_id, attempt, max_attempts, not_before, .. } => {
            on_operation(
                snapshot,
                run_id,
                |operation: LaneOperationSnapshotView|
                    LaneOperationSnapshotView {
                        retry: Some(
                            RetrySnapshot { attempt, max_attempts, next_attempt_at: not_before },
                        ),
                        ..operation
                    },
            )
        },
        HarnessEventView::RetryStart { run_id, .. } => on_operation(
            snapshot,
            run_id,
            |operation: LaneOperationSnapshotView|
                LaneOperationSnapshotView { retry: None, ..operation },
        ),
        HarnessEventView::RetryEnd { run_id, .. } => on_operation(
            snapshot,
            run_id,
            |operation: LaneOperationSnapshotView|
                LaneOperationSnapshotView { retry: None, ..operation },
        ),
        HarnessEventView::MessageStart { run_id, message, .. } => match (run_id, message) {
            (
                Some(run_id),
                AgentMessageView::Assistant(assistant),
            ) if assistant.stop_reason == StopReason::Pending => on_operation(
                snapshot,
                run_id,
                |operation: LaneOperationSnapshotView|
                    LaneOperationSnapshotView { streaming_message: Some(assistant), ..operation },
            ),
            _ => snapshot,
        },
        HarnessEventView::MessageUpdate { run_id, message, .. } => match message {
            AgentMessageView::Assistant(assistant) => on_operation(
                snapshot,
                run_id,
                |operation: LaneOperationSnapshotView|
                    LaneOperationSnapshotView { streaming_message: Some(assistant), ..operation },
            ),
            _ => snapshot,
        },
        HarnessEventView::MessageEnd { run_id, .. } => match run_id {
            Some(run_id) => on_operation(
                snapshot,
                run_id,
                |operation: LaneOperationSnapshotView|
                    LaneOperationSnapshotView { streaming_message: None, ..operation },
            ),
            None => snapshot,
        },
        HarnessEventView::ToolStart { run_id, tool_call_id, tool_name, args, .. } => on_operation(
            snapshot,
            run_id,
            |operation: LaneOperationSnapshotView|
                LaneOperationSnapshotView {
                    running_tools: upserted(
                        operation.running_tools,
                        LaneSnapshotToolView::Running {
                            tool_call_id,
                            tool_name,
                            args,
                            result: None,
                        },
                    ),
                    ..operation
                },
        ),
        HarnessEventView::ToolUpdate { run_id, tool_call_id, partial_result, .. } => on_operation(
            snapshot,
            run_id,
            |operation: LaneOperationSnapshotView|
                tool_updated(operation, tool_call_id, partial_result),
        ),
        HarnessEventView::ToolEnd { run_id, tool_call_id, tool_name, result, is_error, .. } => {
            on_operation(
                snapshot,
                run_id,
                |operation: LaneOperationSnapshotView|
                    tool_settled(operation, tool_call_id, tool_name, result, is_error),
            )
        },
        HarnessEventView::EntryAdded { entry, .. } => entry_added(snapshot, entry),
        HarnessEventView::QueueUpdate { queues, .. } => LaneSnapshotView { queues, ..snapshot },
        HarnessEventView::Usage { totals, .. } => LaneSnapshotView {
            stats: SessionStatsView { usage: totals, ..snapshot.stats },
            ..snapshot
        },
        HarnessEventView::ConfigUpdate { payload, .. } => LaneSnapshotView {
            configuration: reconfigured(snapshot.configuration, payload),
            ..snapshot
        },
        HarnessEventView::RunEnd { tip_id, .. } => match ended(snapshot, event) {
            Some(record) => LaneSnapshotView {
                last_result: Some(record),
                operation: None,
                tip_id,
                ..snapshot
            },
            None => snapshot,
        },
        HarnessEventView::CompactionEnd { .. } => match ended(snapshot, event) {
            Some(record) => LaneSnapshotView {
                last_result: Some(record),
                operation: None,
                ..snapshot
            },
            None => snapshot,
        },
        HarnessEventView::Fault { .. } => LaneSnapshotView { faulted: true, ..snapshot },
        _ => snapshot,
    }
}

/// A snapshot after an event.
pub open spec fn reduced(snapshot: LaneSnapshotView, event: HarnessEventView) -> LaneSnapshotView {
    if foreign(snapshot, event) {
        snapshot
    } else {
        followed(snapshot, event)
    }
}

fn end_run(snapshot: &mut LaneSnapshot, event: &HarnessEvent)
    requires
        event.deep_view() is RunEnd,
    ensures
        final(snapshot).deep_view() == followed(old(snapshot).deep_view(), event.deep_view()),
{
    if let HarnessEvent::RunEnd { run_id, status, error, from_tip_id, tip_id, ended_at, .. } =
        event {
        let started_at: u64 = match &snapshot.operation {
            Some(operation) => {
                if operation.id != *run_id || !reads(&operation.kind, "run") {
                    return ;
                }
                operation.started_at
            },
            None => {
                return ;
            },
        };
        let prompt_entry_ids: Vec<String> = Vec::new();
        assert(prompt_entry_ids.deep_view() =~= Seq::empty());
        snapshot.last_result =
        Some(
            OperationResultRecord {
                operation_id: run_id.clone(),
                kind: OperationIntent::Run { prompt_entry_ids },
                status: *status,
                error: error.clone(),
                from_tip_id: from_tip_id.clone(),
                tip_id: tip_id.clone(),
                started_at,
                ended_at: *ended_at,
            },
        );
        snapshot.operation = None;
        snapshot.tip_id = tip_id.clone();
    }
}

fn end_compaction(snapshot: &mut LaneSnapshot, event: &HarnessEvent)
    requires
        event.deep_view() is CompactionEnd,
    ensures
        final(snapshot).deep_view() == followed(old(snapshot).deep_view(), event.deep_view()),
{
    if let HarnessEvent::CompactionEnd { run_id, status, error, ended_at, .. } = event {
        let (from_tip_id, started_at) = match &snapshot.operation {
            Some(operation) => {
                if operation.id != *run_id || !reads(&operation.kind, "compaction") {
                    return ;
                }
                (operation.from_tip_id.clone(), operation.started_at)
            },
            None => {
                return ;
            },
        };
        snapshot.last_result =
        Some(
            OperationResultRecord {
                operation_id: run_id.clone(),
                kind: OperationIntent::Compaction { custom_instructions: None },
                status: *status,
                error: error.clone(),
                from_tip_id,
                tip_id: snapshot.tip_id.clone(),
                started_at,
                ended_at: *ended_at,
            },
        );
        snapshot.operation = None;
    }
}

/// Whether an event adds a message to the count of its lane.
pub open spec fn counts_a_message(event: HarnessEventView) -> bool {
    event matches HarnessEventView::EntryAdded { entry, .. } && entry is Message
}

/// Follows an event: changes the snapshot as the event says, and tells whether
/// a new one is needed. Only the end of a navigation needs one.
pub fn reduce_lane_snapshot(snapshot: &mut LaneSnapshot, event: &HarnessEvent) -> (r: Option<
    LaneSnapshotReduction,
>)
    requires
        counts_a_message(event.deep_view()) && !foreign(old(snapshot).deep_view(), event.deep_view())
            ==> old(snapshot).stats.message_count < u64::MAX,
    ensures
        final(snapshot).deep_view() == reduced(old(snapshot).deep_view(), event.deep_view()),
        r == (if event.deep_view() is NavigationEnd && !foreign(
            old(snapshot).deep_view(),
            event.deep_view(),
        ) {
            Some(LaneSnapshotReduction::Rebase)
        } else {
            None
        }),
{
    let for_another_lane = match event.lane() {
        Some(lane) => *lane != snapshot.lane && !matches!(event, HarnessEvent::Usage { .. }),
        None => false,
    };
    if for_another_lane {
        return None;
    }
    match event {
        HarnessEvent::RunStart { run_id, started_at, .. } => {
            open_operation(snapshot, run_id, "run", *started_at);
        },
        HarnessEvent::CompactionStart { run_id, started_at, .. } => {
            if snapshot.operation.is_some() {
                return None;
            }
            open_operation(snapshot, run_id, "compaction", *started_at);
        },
        HarnessEvent::NavigationStart { run_id, started_at, .. } => {
            open_operation(snapshot, run_id, "navigation", *started_at);
        },
        HarnessEvent::OperationAbort { operation_id, .. } => {
            if let Some(operation) = matching_operation(snapshot, operation_id) {
                operation.status = "aborting".to_string();
            }
        },
        HarnessEvent::RunResume { run_id, .. } => {
            if let Some(operation) = matching_operation(snapshot, run_id) {
                operation.deferred = None;
            }
        },
        HarnessEvent::RunSuspend { run_id, deferred, poll, .. } => {
            if let Some(operation) = matching_operation(snapshot, run_id) {
                operation.streaming_message = None;
                operation.deferred =
                Some(DeferredSnapshot { handle: deferred.clone(), poll: *poll });
            }
        },
        HarnessEvent::RetryScheduled { run_id, attempt, max_attempts, not_before, .. } => {
            if let Some(operation) = matching_operation(snapshot, run_id) {
                operation.retry =
                Some(
                    RetrySnapshot {
                        attempt: *attempt,
                        max_attempts: *max_attempts,
                        next_attempt_at: *not_before,
                    },
                );
            }
        },
        HarnessEvent::RetryStart { run_id, .. } | HarnessEvent::RetryEnd { run_id, .. } => {
            if let Some(operation) = matching_operation(snapshot, run_id) {
                operation.retry = None;
            }
        },
        HarnessEvent::MessageStart { run_id, message, .. } => {
            if let (Some(run_id), AgentMessage::Assistant(assistant)) = (run_id, message) {
                if assistant.stop_reason == StopReason::Pending {
                    if let Some(operation) = matching_operation(snapshot, run_id) {
                        operation.streaming_message = Some(assistant.clone());
                    }
                }
            }
        },
        HarnessEvent::MessageUpdate { run_id, message, .. } => {
            if let AgentMessage::Assistant(assistant) = message {
                if let Some(operation) = matching_operation(snapshot, run_id) {
                    operation.streaming_message = Some(assistant.clone());
                }
            }
        },
        HarnessEvent::MessageEnd { run_id, .. } => {
            if let Some(run_id) = run_id {
                if let Some(operation) = matching_operation(snapshot, run_id) {
                    operation.streaming_message = None;
                }
            }
        },
        HarnessEvent::ToolStart { run_id, tool_call_id, tool_name, args, .. } => {
            if let Some(operation) = matching_operation(snapshot, run_id) {
                upsert_tool(
                    operation,
                    LaneSnapshotTool::Running {
                        tool_call_id: tool_call_id.clone(),
                        tool_name: tool_name.clone(),
                        args: args.clone(),
                        result: None,
                    },
                );
            }
        },
        HarnessEvent::ToolUpdate { run_id, tool_call_id, partial_result, .. } => {
            if let Some(operation) = matching_operation(snapshot, run_id) {
                update_tool(operation, tool_call_id, partial_result);
            }
        },
        HarnessEvent::ToolEnd { run_id, tool_call_id, tool_name, result, is_error, .. } => {
            if let Some(operation) = matching_operation(snapshot, run_id) {
                settle_tool(operation, tool_call_id, tool_name, result, *is_error);
            }
        },
        HarnessEvent::EntryAdded { entry, .. } => {
            add_entry(snapshot, entry);
        },
        HarnessEvent::QueueUpdate { queues, .. } => {
            snapshot.queues = queues.clone();
        },
        HarnessEvent::Usage { totals, .. } => {
            snapshot.stats.usage = totals.clone();
        },
        HarnessEvent::ConfigUpdate { payload, .. } => {
            reconfigure(snapshot, payload);
        },
        HarnessEvent::RunEnd { .. } => {
            end_run(snapshot, event);
        },
        HarnessEvent::CompactionEnd { .. } => {
            end_compaction(snapshot, event);
        },
        HarnessEvent::NavigationEnd { .. } => {
            return Some(LaneSnapshotReduction::Rebase);
        },
        HarnessEvent::Fault { .. } => {
            snapshot.faulted = true;
        },
        _ => {},
    }
    None
}

/// No event of another lane changes a snapshot, but for the usage totals.
pub proof fn law_other_lanes_change_only_usage(snapshot: LaneSnapshotView, event: HarnessEventView)
    requires
        event.lane() is Some,
        event.lane() != Some(snapshot.lane),
    ensures
        reduced(snapshot, event) == (LaneSnapshotView {
            stats: SessionStatsView {
                usage: reduced(snapshot, event).stats.usage,
                ..snapshot.stats
            },
            ..snapshot
        }),
        !(event is Usage) ==> reduced(snapshot, event) == snapshot,
{
}

/// Whether no two tools of a list belong to the same call.
pub open spec fn one_tool_per_call(tools: Seq<LaneSnapshotToolView>) -> bool {
    forall|i: int, j: int|
        0 <= i < j < tools.len() ==> (#[trigger] tools[i]).call_id() != (
        #[trigger] tools[j]).call_id()
}

/// Whether the operation of a snapshot has at most one tool for each call.
pub open spec fn tools_distinct(snapshot: LaneSnapshotView) -> bool {
    snapshot.operation matches Some(operation) ==> one_tool_per_call(operation.running_tools)
}

/// A snapshot never shows two tools for the same call.
pub proof fn law_tools_stay_distinct(snapshot: LaneSnapshotView, event: HarnessEventView)
    requires
        tools_distinct(snapshot),
    ensures
        tools_distinct(reduced(snapshot, event)),
{
    if let Some(operation) = snapshot.operation {
        let tools = operation.running_tools;
        match event {
            HarnessEventView::ToolStart { tool_call_id, .. } => {
                lemma_tool_place(tools, tool_call_id);
            },
            HarnessEventView::ToolUpdate { tool_call_id, .. } => {
                lemma_tool_place(tools, tool_call_id);
            },
            HarnessEventView::ToolEnd { tool_call_id, .. } => {
                lemma_tool_place(tools, tool_call_id);
            },
            HarnessEventView::EntryAdded { entry, .. } => {
                if let EntryView::Message(message) = entry {
                    if let AgentMessageView::ToolResult(result) = message.message {
                        lemma_filter_keeps_distinct(
                            tools,
                            |tool: LaneSnapshotToolView| tool.call_id() != result.tool_call_id,
                        );
                    }
                }
            },
            _ => {},
        }
    }
}

proof fn lemma_filter_keeps_distinct(
    tools: Seq<LaneSnapshotToolView>,
    keep: spec_fn(LaneSnapshotToolView) -> bool,
)
    requires
        one_tool_per_call(tools),
    ensures
        one_tool_per_call(tools.filter(keep)),
        forall|tool: LaneSnapshotToolView|
            #[trigger] tools.filter(keep).contains(tool) ==> tools.contains(tool) && keep(tool),
    decreases tools.len(),
{
    reveal(Seq::filter);
    if tools.len() > 0 {
        let rest = tools.drop_last();
        assert forall|i: int, j: int| 0 <= i < j < rest.len() implies (
        #[trigger] rest[i]).call_id() != (#[trigger] rest[j]).call_id() by {
            assert(tools[i].call_id() != tools[j].call_id());
        }
        lemma_filter_keeps_distinct(rest, keep);
        let kept = rest.filter(keep);
        let last = tools.last();
        assert forall|tool: LaneSnapshotToolView| #[trigger] tools.filter(keep).contains(
            tool,
        ) implies tools.contains(tool) && keep(tool) by {
            let at = choose|at: int|
                0 <= at < tools.filter(keep).len() && tools.filter(keep)[at] == tool;
            if keep(last) && at == kept.len() {
                assert(tools[tools.len() - 1] == tool);
            } else {
                assert(kept[at] == tool);
                assert(kept.contains(tool));
                let place = choose|place: int| 0 <= place < rest.len() && rest[place] == tool;
                assert(tools[place] == tool);
            }
        }
        if keep(last) {
            assert forall|i: int, j: int|
                0 <= i < j < tools.filter(keep).len() implies (#[trigger] tools.filter(
                keep,
            )[i]).call_id() != (#[trigger] tools.filter(keep)[j]).call_id() by {
                if j == kept.len() {
                    assert(kept.contains(kept[i]));
                    let place = choose|place: int| 0 <= place < rest.len() && rest[place]
                        == kept[i];
                    assert(tools[place].call_id() != tools[tools.len() - 1].call_id());
                } else {
                    assert(kept[i].call_id() != kept[j].call_id());
                }
            }
        }
    }
}

/// Whether a compaction can only be the first entry of a transcript.
pub open spec fn compaction_first(transcript: Seq<EntryView>) -> bool {
    forall|i: int| 0 < i < transcript.len() ==> !((#[trigger] transcript[i]) is Compaction)
}

/// Whatever the event, a compaction can only be the first entry of the transcript of
/// a snapshot.
#[verifier::rlimit(40)]
#[verifier::spinoff_prover]
pub proof fn law_a_compaction_stays_first(snapshot: LaneSnapshotView, event: HarnessEventView)
    requires
        compaction_first(snapshot.transcript),
    ensures
        compaction_first(reduced(snapshot, event).transcript),
{
    let after = reduced(snapshot, event).transcript;
    if let HarnessEventView::EntryAdded { entry, .. } = event {
        assert forall|i: int| 0 < i < after.len() implies !((#[trigger] after[i]) is Compaction) by {
            if i < snapshot.transcript.len() && !(entry is Compaction) {
                assert(after[i] == snapshot.transcript[i]);
            }
        }
    } else {
        assert(after == snapshot.transcript);
    }
}

/// What holds of every snapshot: no two tools belong to the same call, and a
/// compaction can only be the first entry of the transcript.
pub open spec fn snapshot_wf(snapshot: LaneSnapshotView) -> bool {
    tools_distinct(snapshot) && compaction_first(snapshot.transcript)
}

/// Every event keeps what holds of every snapshot.
pub proof fn law_events_keep_snapshots_sound(snapshot: LaneSnapshotView, event: HarnessEventView)
    requires
        snapshot_wf(snapshot),
    ensures
        snapshot_wf(reduced(snapshot, event)),
{
    law_tools_stay_distinct(snapshot, event);
    law_a_compaction_stays_first(snapshot, event);
}

/// Once a run or a compaction of the lane has ended, its snapshot shows no
/// operation, and the result that the event carries.
pub proof fn law_an_ended_operation_is_gone(snapshot: LaneSnapshotView, event: HarnessEventView)
    requires
        !foreign(snapshot, event),
        ended(snapshot, event) is Some,
    ensures
        reduced(snapshot, event).operation is None,
        reduced(snapshot, event).last_result == ended(snapshot, event),
        reduced(snapshot, event).tip_id == ended(snapshot, event)->Some_0.tip_id,
{
}

/// The tip of a snapshot is the entry that was added last.
pub proof fn law_the_tip_is_the_last_entry(
    snapshot: LaneSnapshotView,
    lane: Seq<char>,
    entry: EntryView,
    recovery: Option<bool>,
)
    requires
        lane == snapshot.lane,
    ensures
        ({
            let after = reduced(snapshot, HarnessEventView::EntryAdded { lane, entry, recovery });
            after.tip_id == Some(entry.id()) && after.transcript.last() == entry
        }),
{
}

} // verus!
