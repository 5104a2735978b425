//! Taking a snapshot of a lane.

use crate::drive::dispatch::{intent_kind, kind_of_intent};
use crate::drive::terminal::collecting;
use crate::drive::tool_placement::{batch_assistant, block_at};
use crate::inbox::{lane_queues, read_lane_queues};
use crate::json::Json;
use crate::lane::configure::{status_of, status_text};
use crate::model::event::{
    DeferredSnapshot, DeferredSnapshotView, HarnessEvent, HarnessEventView, LaneOperationSnapshot,
    LaneOperationSnapshotView, LaneSnapshot, LaneSnapshotTool, LaneSnapshotToolView,
    LaneSnapshotView, RetrySnapshot,
};
use crate::model::message::{
    AgentMessage, AgentMessageView, AgentToolResult, AgentToolResultView, AssistantMessage,
    AssistantMessageView, ContentBlock, ToolCallBlock, ToolCallBlockView, ToolResultMessage,
    ToolResultMessageView,
};
use crate::model::session::{
    Operation, OperationResultRecord, OperationResultRecordView, OperationState, OperationStateView,
    OperationView, PendingEntry, PendingEntryView, ToolCall, ToolCallView,
};
use crate::model::storage::{Entry, EntryView, SessionStats, SessionStatsView};
use crate::reducer::{compaction_first, reduced};
use crate::text::{debug_text, decimal, decimal_text, join};
use crate::types::{LaneRuntimeState, LaneRuntimeStateView, PendingRow, PendingRowView};
use vstd::prelude::*;

verus! {

/// The staged result of a call, and what observers are shown of it.
#[derive(Debug, PartialEq, Eq)]
pub struct StagedOutcome {
    pub message: ToolResultMessage,
    pub shown: AgentToolResult,
}

/// Contents of a [`StagedOutcome`].
pub struct StagedOutcomeView {
    pub message: ToolResultMessageView,
    pub shown: AgentToolResultView,
}

impl DeepView for StagedOutcome {
    type V = StagedOutcomeView;

    open spec fn deep_view(&self) -> StagedOutcomeView {
        StagedOutcomeView { message: self.message.deep_view(), shown: self.shown.deep_view() }
    }
}

/// What storage holds of a call.
#[derive(Debug, PartialEq, Eq)]
pub struct ToolRead {
    pub args: Option<Json>,
    /// The latest output of a call that runs.
    pub checkpoint: Option<AgentToolResult>,
    /// The result that is staged for a call.
    pub staged: Option<StagedOutcome>,
}

/// Contents of a [`ToolRead`].
pub struct ToolReadView {
    pub args: Option<serde_json::Value>,
    pub checkpoint: Option<AgentToolResultView>,
    pub staged: Option<StagedOutcomeView>,
}

impl DeepView for ToolRead {
    type V = ToolReadView;

    open spec fn deep_view(&self) -> ToolReadView {
        ToolReadView {
            args: self.args.deep_view(),
            checkpoint: self.checkpoint.deep_view(),
            staged: self.staged.deep_view(),
        }
    }
}

/// The arguments of a call: those that were stored, or else those of the model.
pub open spec fn shown_args(read: ToolReadView, block: ToolCallBlockView) -> serde_json::Value {
    match read.args {
        Some(args) => args,
        None => block.arguments,
    }
}

/// The tool result that a staged entry holds.
pub open spec fn staged_result(staged: Option<PendingEntryView>) -> Option<ToolResultMessageView> {
    match staged {
        Some(PendingEntryView::Message { payload: AgentMessageView::ToolResult(message) }) => Some(
            message,
        ),
        _ => None,
    }
}

/// Reads the tool result that a staged entry holds.
pub fn read_staged(staged: Option<PendingEntry>) -> (r: Option<ToolResultMessage>)
    ensures
        r.deep_view() == staged_result(staged.deep_view()),
{
    match staged {
        Some(PendingEntry::Message { payload: AgentMessage::ToolResult(message) }) => Some(message),
        _ => None,
    }
}

/// What a snapshot shows of a call: a running one with its latest output, a
/// staged one with its result. Calls that are planned or completed are not shown.
pub open spec fn shown_tool(
    call: ToolCallView,
    block: ToolCallBlockView,
    read: ToolReadView,
) -> Option<LaneSnapshotToolView> {
    match call {
        ToolCallView::EffectPending { .. } => Some(
            LaneSnapshotToolView::Running {
                tool_call_id: block.id,
                tool_name: block.name,
                args: shown_args(read, block),
                result: read.checkpoint,
            },
        ),
        ToolCallView::OutcomeReady { .. } => match read.staged {
            Some(staged) => Some(
                LaneSnapshotToolView::Settled {
                    tool_call_id: block.id,
                    tool_name: block.name,
                    args: shown_args(read, block),
                    result: staged.shown,
                    is_error: staged.message.is_error,
                },
            ),
            None => None,
        },
        _ => None,
    }
}

/// What a snapshot shows of the first `n` calls, or why it cannot be taken.
pub open spec fn shown_tools(
    assistant: AssistantMessageView,
    calls: Seq<ToolCallView>,
    reads: Seq<ToolReadView>,
    n: nat,
) -> Result<Seq<LaneSnapshotToolView>, Seq<char>>
    decreases n,
{
    if n == 0 {
        Ok(Seq::empty())
    } else {
        let call = calls[n - 1];
        match shown_tools(assistant, calls, reads, (n - 1) as nat) {
            Err(message) => Err(message),
            Ok(tools) => if call is Planned || call is Completed {
                Ok(tools)
            } else {
                match block_at(assistant, call.source_index()) {
                    None => Err(
                        "Tool call source index "@ + decimal(call.source_index() as nat)
                            + " does not name a tool-call block"@,
                    ),
                    Some(block) => match shown_tool(call, block, reads[n - 1]) {
                        Some(tool) => Ok(tools.push(tool)),
                        None => Ok(tools),
                    },
                }
            },
        }
    }
}

proof fn lemma_tools_fail(
    assistant: AssistantMessageView,
    calls: Seq<ToolCallView>,
    reads: Seq<ToolReadView>,
    n: nat,
    all: nat,
)
    requires
        n <= all,
        shown_tools(assistant, calls, reads, n) is Err,
    ensures
        shown_tools(assistant, calls, reads, all) == shown_tools(assistant, calls, reads, n),
    decreases all,
{
    if n < all {
        lemma_tools_fail(assistant, calls, reads, n, (all - 1) as nat);
    }
}

fn show_tool(call: &ToolCall, block: &ToolCallBlock, read: &ToolRead) -> (r: Option<
    LaneSnapshotTool,
>)
    ensures
        r.deep_view() == shown_tool(call.deep_view(), block.deep_view(), read.deep_view()),
{
    let args = match &read.args {
        Some(args) => args.clone(),
        None => block.arguments.clone(),
    };
    match call {
        ToolCall::EffectPending { .. } => Some(
            LaneSnapshotTool::Running {
                tool_call_id: block.id.clone(),
                tool_name: block.name.clone(),
                args,
                result: read.checkpoint.clone(),
            },
        ),
        ToolCall::OutcomeReady { .. } => match &read.staged {
            Some(staged) => Some(
                LaneSnapshotTool::Settled {
                    tool_call_id: block.id.clone(),
                    tool_name: block.name.clone(),
                    args,
                    result: staged.shown.clone(),
                    is_error: staged.message.is_error,
                },
            ),
            None => None,
        },
        _ => None,
    }
}

fn show_tools(assistant: &AssistantMessage, calls: &Vec<ToolCall>, reads: &Vec<ToolRead>) -> (r:
    Result<Vec<LaneSnapshotTool>, String>)
    requires
        calls.len() == reads.len(),
    ensures
        match shown_tools(
            assistant.deep_view(),
            calls.deep_view(),
            reads.deep_view(),
            calls.len() as nat,
        ) {
            Ok(tools) => r is Ok && r->Ok_0.deep_view() == tools,
            Err(message) => r is Err && r->Err_0@ == message,
        },
{
    let mut tools: Vec<LaneSnapshotTool> = Vec::new();
    let mut i: usize = 0;
    assert(tools.deep_view() =~= Seq::empty());
    while i < calls.len()
        invariant
            i <= calls.len(),
            calls.len() == reads.len(),
            shown_tools(
                assistant.deep_view(),
                calls.deep_view(),
                reads.deep_view(),
                i as nat,
            ) == Ok::<Seq<LaneSnapshotToolView>, Seq<char>>(tools.deep_view()),
        decreases calls.len() - i,
    {
        let ghost before = tools.deep_view();
        assert(calls.deep_view()[i as int] == calls[i as int].deep_view());
        assert(reads.deep_view()[i as int] == reads[i as int].deep_view());
        let hidden = matches!(calls[i], ToolCall::Planned { .. } | ToolCall::Completed { .. });
        if !hidden {
            let index: usize = calls[i].source_index();
            let block = if index < assistant.content.len() {
                match &assistant.content[index] {
                    ContentBlock::ToolCall(block) => Some(block),
                    _ => None,
                }
            } else {
                None
            };
            match block {
                None => {
                    proof {
                        lemma_tools_fail(
                            assistant.deep_view(),
                            calls.deep_view(),
                            reads.deep_view(),
                            (i + 1) as nat,
                            calls.len() as nat,
                        );
                    }
                    let named = join(
                        "Tool call source index ".to_string(),
                        decimal_text(index as u64).as_str(),
                    );
                    return Err(join(named, " does not name a tool-call block"));
                },
                Some(block) => {
                    if let Some(tool) = show_tool(&calls[i], block, &reads[i]) {
                        tools.push(tool);
                        assert(tools.deep_view() =~= before.push(tool.deep_view()));
                    }
                },
            }
        }
        i += 1;
    }
    Ok(tools)
}

/// The retry that a leaf waits for.
pub open spec fn shown_retry(state: OperationStateView) -> Option<RetrySnapshot> {
    match state {
        OperationStateView::AssistantRetryWait {
            generation_context,
            next_attempt,
            not_before,
            ..
        } => Some(
            RetrySnapshot {
                attempt: next_attempt,
                max_attempts: generation_context.retry_policy.max_attempts,
                next_attempt_at: not_before,
            },
        ),
        OperationStateView::SummaryRetryWait {
            summary_context,
            next_attempt,
            not_before,
            ..
        } => Some(
            RetrySnapshot {
                attempt: next_attempt,
                max_attempts: summary_context.retry_policy.max_attempts,
                next_attempt_at: not_before,
            },
        ),
        _ => None,
    }
}

fn show_retry(state: &OperationState) -> (r: Option<RetrySnapshot>)
    ensures
        r == shown_retry(state.deep_view()),
{
    match state {
        OperationState::AssistantRetryWait {
            generation_context,
            next_attempt,
            not_before,
            ..
        } => Some(
            RetrySnapshot {
                attempt: *next_attempt,
                max_attempts: generation_context.retry_policy.max_attempts,
                next_attempt_at: *not_before,
            },
        ),
        OperationState::SummaryRetryWait { summary_context, next_attempt, not_before, .. } => Some(
            RetrySnapshot {
                attempt: *next_attempt,
                max_attempts: summary_context.retry_policy.max_attempts,
                next_attempt_at: *not_before,
            },
        ),
        _ => None,
    }
}

/// The deferred response that a leaf waits for, by the entry that has its handle.
pub open spec fn shown_deferred(state: OperationStateView, source: Option<EntryView>) -> Option<
    DeferredSnapshotView,
> {
    match (state.deferred_scope(), batch_assistant(source)) {
        (Some(scope), Some(assistant)) => match assistant.deferred {
            Some(handle) => Some(DeferredSnapshotView { handle, poll: scope.poll }),
            None => None,
        },
        _ => None,
    }
}

fn show_deferred(state: &OperationState, source: Option<&Entry>) -> (r: Option<DeferredSnapshot>)
    ensures
        r.deep_view() == shown_deferred(state.deep_view(), source.deep_view()),
{
    let scope = match crate::state::deferred_scope(state) {
        Some(scope) => scope,
        None => {
            return None;
        },
    };
    match source {
        Some(Entry::Message(entry)) => match &entry.message {
            AgentMessage::Assistant(assistant) => match &assistant.deferred {
                Some(handle) => Some(
                    DeferredSnapshot { handle: handle.clone(), poll: scope.poll },
                ),
                None => None,
            },
            _ => None,
        },
        _ => None,
    }
}

/// The entry that a snapshot needs of a leaf: the one with the deferred handle, or
/// the assistant message of the batch.
pub open spec fn snapshot_entry(state: OperationStateView) -> Option<Seq<char>> {
    match state {
        OperationStateView::DeferredSuspended { scope } => Some(scope.source_entry_id),
        OperationStateView::DeferredEffectPending { scope, .. } => Some(scope.source_entry_id),
        OperationStateView::Tools { batch, .. } => Some(batch.assistant_entry_id),
        _ => None,
    }
}

/// Names the entry that a snapshot needs of a leaf.
pub fn needed_entry(state: &OperationState) -> (r: Option<String>)
    ensures
        r.deep_view() == snapshot_entry(state.deep_view()),
{
    match state {
        OperationState::DeferredSuspended { scope } => Some(scope.source_entry_id.clone()),
        OperationState::DeferredEffectPending { scope, .. } => Some(scope.source_entry_id.clone()),
        OperationState::Tools { batch, .. } => Some(batch.assistant_entry_id.clone()),
        _ => None,
    }
}

/// What a snapshot shows of an operation. `entry` is the one that its leaf needs,
/// `partial` what the frames of its response add up to.
pub open spec fn shown_operation(
    operation: OperationView,
    entry: Option<EntryView>,
    partial: Option<AssistantMessageView>,
    reads: Seq<ToolReadView>,
) -> Result<LaneOperationSnapshotView, Seq<char>> {
    let tools = match (operation.state, batch_assistant(entry)) {
        (OperationStateView::Tools { batch, .. }, Some(assistant)) => shown_tools(
            assistant,
            batch.calls,
            reads,
            batch.calls.len(),
        ),
        _ => Ok(Seq::empty()),
    };
    match tools {
        Err(message) => Err(message),
        Ok(running_tools) => Ok(
            LaneOperationSnapshotView {
                id: operation.meta.operation_id,
                kind: kind_of_intent(operation.meta.intent),
                started_at: operation.meta.started_at,
                from_tip_id: operation.meta.source_tip_id,
                status: status_of(operation.state),
                retry: shown_retry(operation.state),
                deferred: shown_deferred(operation.state, entry),
                streaming_message: if collecting(operation.state)
                    is Some {
                    partial
                } else {
                    None
                },
                running_tools,
            },
        ),
    }
}

/// Shows an operation.
pub fn show_operation(
    operation: &Operation,
    entry: Option<&Entry>,
    partial: Option<AssistantMessage>,
    reads: &Vec<ToolRead>,
) -> (r: Result<LaneOperationSnapshot, String>)
    requires
        operation.deep_view().state matches OperationStateView::Tools { batch, .. }
            ==> batch.calls.len() == reads.len(),
    ensures
        match shown_operation(
            operation.deep_view(),
            entry.deep_view(),
            partial.deep_view(),
            reads.deep_view(),
        ) {
            Ok(snapshot) => r is Ok && r->Ok_0.deep_view() == snapshot,
            Err(message) => r is Err && r->Err_0@ == message,
        },
{
    let mut running_tools: Vec<LaneSnapshotTool> = Vec::new();
    assert(running_tools.deep_view() =~= Seq::empty());
    if let OperationState::Tools { batch, .. } = &operation.state {
        if let Some(Entry::Message(message)) = entry {
            if let AgentMessage::Assistant(assistant) = &message.message {
                running_tools = match show_tools(assistant, &batch.calls, reads) {
                    Ok(tools) => tools,
                    Err(message) => {
                        return Err(message);
                    },
                };
            }
        }
    }
    let streaming_message = match &operation.state {
        OperationState::AssistantEffectPending { .. }
        | OperationState::DeferredEffectPending { .. } => partial,
        _ => None,
    };
    Ok(
        LaneOperationSnapshot {
            id: operation.meta.operation_id.clone(),
            kind: intent_kind(&operation.meta.intent).to_string(),
            started_at: operation.meta.started_at,
            from_tip_id: operation.meta.source_tip_id.clone(),
            status: status_text(&operation.state).to_string(),
            retry: show_retry(&operation.state),
            deferred: show_deferred(&operation.state, entry),
            streaming_message,
            running_tools,
        },
    )
}

/// What a snapshot shows of the operation that a lane has, if it has one.
pub open spec fn shown_current(
    state: LaneRuntimeStateView,
    entry: Option<EntryView>,
    partial: Option<AssistantMessageView>,
    reads: Seq<ToolReadView>,
) -> Result<Option<LaneOperationSnapshotView>, Seq<char>> {
    match state.operation {
        None => Ok(None),
        Some(operation) => match shown_operation(operation, entry, partial, reads) {
            Ok(shown) => Ok(Some(shown)),
            Err(message) => Err(message),
        },
    }
}

/// What a snapshot shows of a lane, or why it cannot be taken: a queued entry has
/// no payload, the last operation has no result, or the operation cannot be shown.
pub open spec fn captured(
    lane: Seq<char>,
    state: LaneRuntimeStateView,
    scanned: Seq<EntryView>,
    rows: Seq<PendingRowView>,
    last_result: Option<OperationResultRecordView>,
    stats: SessionStatsView,
    entry: Option<EntryView>,
    partial: Option<AssistantMessageView>,
    reads: Seq<ToolReadView>,
    faulted: bool,
) -> Result<LaneSnapshotView, Seq<char>> {
    match (lane_queues(rows, state.inbox), shown_current(state, entry, partial, reads)) {
        (Err(message), _) => Err(message),
        (Ok(queues), shown) => if state.last_operation_id is Some && last_result is None {
            Err(
                "Lane "@ + debug_text(lane) + " is missing result "@
                    + state.last_operation_id->Some_0,
            )
        } else {
            match shown {
                Err(message) => Err(message),
                Ok(operation) => Ok(
                    LaneSnapshotView {
                        lane,
                        transcript: if state.tip_id is None {
                            Seq::empty()
                        } else {
                            scanned.reverse()
                        },
                        tip_id: state.tip_id,
                        last_result: if state.last_operation_id is None {
                            None
                        } else {
                            last_result
                        },
                        configuration: state.configuration,
                        stats,
                        operation,
                        queues,
                        faulted,
                    },
                ),
            }
        },
    }
}

/// What is left of a path that was walked from its newest entry, in order.
pub fn oldest_first(scanned: &Vec<Entry>) -> (r: Vec<Entry>)
    ensures
        r.deep_view() == scanned.deep_view().reverse(),
{
    let mut entries: Vec<Entry> = Vec::new();
    let mut i: usize = scanned.len();
    while i > 0
        invariant
            i <= scanned.len(),
            entries.len() == scanned.len() - i,
            forall|k: int|
                0 <= k < scanned.len() - i ==> #[trigger] entries.deep_view()[k]
                    == scanned.deep_view()[scanned.len() - 1 - k],
        decreases i,
    {
        let ghost before = entries.deep_view();
        i -= 1;
        entries.push(scanned[i].clone());
        assert(entries.deep_view() =~= before.push(scanned.deep_view()[i as int]));
    }
    assert(entries.deep_view() =~= scanned.deep_view().reverse());
    entries
}

/// Takes a snapshot of a lane.
///
/// `scanned` is the path from the tip to the newest compaction; a lane without a
/// tip has none. `rows` are the payloads of the inbox. `entry` is the one that the
/// leaf of the operation needs, `partial` what the frames of its response add up
/// to, and `reads` what storage holds of its calls.
pub fn capture_lane_snapshot_inner(
    lane_name: &String,
    state: &LaneRuntimeState,
    scanned: &Vec<Entry>,
    rows: &Vec<PendingRow>,
    last_result: Option<OperationResultRecord>,
    stats: SessionStats,
    entry: Option<&Entry>,
    partial: Option<AssistantMessage>,
    reads: &Vec<ToolRead>,
    faulted: bool,
) -> (r: Result<LaneSnapshot, String>)
    requires
        state.deep_view().operation matches Some(operation) ==> (operation.state
            matches OperationStateView::Tools { batch, .. } ==> batch.calls.len() == reads.len()),
    ensures
        match captured(
            lane_name@,
            state.deep_view(),
            scanned.deep_view(),
            rows.deep_view(),
            last_result.deep_view(),
            stats.deep_view(),
            entry.deep_view(),
            partial.deep_view(),
            reads.deep_view(),
            faulted,
        ) {
            Ok(snapshot) => r is Ok && r->Ok_0.deep_view() == snapshot,
            Err(message) => r is Err && r->Err_0@ == message,
        },
{
    let queues = match read_lane_queues(rows, &state.inbox) {
        Ok(queues) => queues,
        Err(message) => {
            return Err(message);
        },
    };
    let last_result = match (&state.last_operation_id, last_result) {
        (Some(id), None) => {
            let named = crate::lane::accept::about_lane(lane_name, " is missing result ");
            return Err(join(named, id.as_str()));
        },
        (None, _) => None,
        (Some(_), result) => result,
    };
    let operation = match &state.operation {
        Some(operation) => match show_operation(operation, entry, partial, reads) {
            Ok(shown) => Some(shown),
            Err(message) => {
                return Err(message);
            },
        },
        None => None,
    };
    let transcript = if state.tip_id.is_none() {
        Vec::new()
    } else {
        oldest_first(scanned)
    };
    assert(state.tip_id is None ==> transcript.deep_view() =~= Seq::empty());
    Ok(
        LaneSnapshot {
            lane: lane_name.clone(),
            transcript,
            tip_id: state.tip_id.clone(),
            last_result,
            configuration: state.configuration.clone(),
            stats,
            operation,
            queues,
            faulted,
        },
    )
}

/// Whether tools are shown in the order of their calls: `at` names the call of each
/// tool. A call that is planned or completed is none of them.
pub open spec fn in_call_order(
    tools: Seq<LaneSnapshotToolView>,
    assistant: AssistantMessageView,
    calls: Seq<ToolCallView>,
    reads: Seq<ToolReadView>,
    at: Seq<int>,
) -> bool {
    &&& at.len() == tools.len()
    &&& forall|i: int, j: int| 0 <= i < j < at.len() ==> at[i] < at[j]
    &&& forall|i: int|
        0 <= i < at.len() ==> {
            let call = calls[#[trigger] at[i]];
            &&& 0 <= at[i] < calls.len()
            &&& call is EffectPending || call is OutcomeReady
            &&& block_at(assistant, call.source_index()) matches Some(block) && shown_tool(
                call,
                block,
                reads[at[i]],
            ) == Some(tools[i])
        }
}

proof fn lemma_tools_in_order(
    assistant: AssistantMessageView,
    calls: Seq<ToolCallView>,
    reads: Seq<ToolReadView>,
    n: nat,
) -> (at: Seq<int>)
    requires
        n <= calls.len(),
        shown_tools(assistant, calls, reads, n) is Ok,
    ensures
        in_call_order(
            shown_tools(assistant, calls, reads, n)->Ok_0,
            assistant,
            calls,
            reads,
            at,
        ),
        forall|i: int| 0 <= i < at.len() ==> #[trigger] at[i] < n,
    decreases n,
{
    if n == 0 {
        Seq::empty()
    } else {
        let m = (n - 1) as nat;
        let before = lemma_tools_in_order(assistant, calls, reads, m);
        let tools = shown_tools(assistant, calls, reads, n)->Ok_0;
        if tools.len() > before.len() {
            let at = before.push(m as int);
            assert forall|i: int| 0 <= i < at.len() implies {
                let call = calls[#[trigger] at[i]];
                &&& 0 <= at[i] < calls.len()
                &&& call is EffectPending || call is OutcomeReady
                &&& block_at(assistant, call.source_index()) matches Some(block) && shown_tool(
                    call,
                    block,
                    reads[at[i]],
                ) == Some(tools[i])
            } by {
                if i < before.len() {
                    assert(at[i] == before[i]);
                }
            }
            at
        } else {
            before
        }
    }
}

/// A snapshot shows the lane that it was taken of: its tip, settings and queues, and
/// its operation if it has one. The operation is shown as stopping just if it was
/// asked to stop, as waiting for a retry just if its leaf does, and with running
/// tools just if its leaf runs tools, in the order of their calls.
pub proof fn law_a_snapshot_shows_its_lane(
    lane: Seq<char>,
    state: LaneRuntimeStateView,
    scanned: Seq<EntryView>,
    rows: Seq<PendingRowView>,
    last_result: Option<OperationResultRecordView>,
    stats: SessionStatsView,
    entry: Option<EntryView>,
    partial: Option<AssistantMessageView>,
    reads: Seq<ToolReadView>,
    faulted: bool,
)
    requires
        captured(
            lane,
            state,
            scanned,
            rows,
            last_result,
            stats,
            entry,
            partial,
            reads,
            faulted,
        ) is Ok,
    ensures
        ({
            let snapshot = captured(
                lane,
                state,
                scanned,
                rows,
                last_result,
                stats,
                entry,
                partial,
                reads,
                faulted,
            )->Ok_0;
            &&& snapshot.tip_id == state.tip_id
            &&& snapshot.configuration == state.configuration
            &&& lane_queues(rows, state.inbox) == Ok::<_, Seq<char>>(snapshot.queues)
            &&& snapshot.operation is Some <==> state.operation is Some
            &&& state.operation matches Some(operation) ==> {
                let shown = snapshot.operation->Some_0;
                &&& shown.id == operation.meta.operation_id
                &&& shown.status == if operation.state.cancelled() {
                    "aborting"@
                } else {
                    "open"@
                }
                &&& shown.status == "aborting"@ <==> operation.state.cancelled()
                &&& shown.retry is Some <==> operation.state is AssistantRetryWait
                    || operation.state is SummaryRetryWait
                &&& shown.streaming_message is Some ==> collecting(operation.state) is Some
                &&& shown.deferred is Some ==> operation.state.is_deferred()
                &&& shown.running_tools.len() > 0 ==> (operation.state
                    matches OperationStateView::Tools { batch, .. } && (batch_assistant(entry)
                    matches Some(assistant) && exists|at: Seq<int>|
                    in_call_order(
                        shown.running_tools,
                        assistant,
                        batch.calls,
                        reads,
                        at,
                    )))
            }
        }),
{
    reveal_strlit("aborting");
    reveal_strlit("open");
    assert("aborting"@.len() != "open"@.len());
    if let Some(operation) = state.operation {
        if let OperationStateView::Tools { batch, .. } = operation.state {
            if let Some(assistant) = batch_assistant(entry) {
                let at = lemma_tools_in_order(assistant, batch.calls, reads, batch.calls.len());
                let shown = shown_operation(operation, entry, partial, reads)->Ok_0;
                assert(in_call_order(shown.running_tools, assistant, batch.calls, reads, at));
            }
        }
    }
}

/// The path from a tip to the newest compaction, walked from its newest entry, makes
/// a transcript in which a compaction can only be the first entry.
pub proof fn law_a_captured_compaction_is_first(
    lane: Seq<char>,
    state: LaneRuntimeStateView,
    scanned: Seq<EntryView>,
    rows: Seq<PendingRowView>,
    last_result: Option<OperationResultRecordView>,
    stats: SessionStatsView,
    entry: Option<EntryView>,
    partial: Option<AssistantMessageView>,
    reads: Seq<ToolReadView>,
    faulted: bool,
)
    requires
        forall|i: int| 0 <= i < scanned.len() - 1 ==> !((#[trigger] scanned[i]) is Compaction),
    ensures
        captured(
            lane,
            state,
            scanned,
            rows,
            last_result,
            stats,
            entry,
            partial,
            reads,
            faulted,
        ) matches Ok(snapshot) ==> compaction_first(snapshot.transcript),
{
    let transcript = scanned.reverse();
    assert forall|i: int| 0 < i < transcript.len() implies !((#[trigger] transcript[i])
        is Compaction) by {
        assert(transcript[i] == scanned[scanned.len() - 1 - i]);
    }
}

/// Whether an observer of a lane is told of an event: of its own lane, of the
/// harness as a whole, and of usage wherever it arises.
pub open spec fn observed(lane: Seq<char>, event: HarnessEventView) -> bool {
    event is Usage || event.lane() is None || event.lane() == Some(lane)
}

/// Tells whether an observer of a lane is told of an event.
pub fn watch(lane_name: &String, event: &HarnessEvent) -> (r: bool)
    ensures
        r == observed(lane_name@, event.deep_view()),
{
    let own = match event.lane() {
        Some(lane) => *lane == *lane_name,
        None => true,
    };
    matches!(event, HarnessEvent::Usage { .. }) || own
}

/// An event that an observer of a lane is not told of would not have changed its
/// snapshot.
pub proof fn law_unobserved_events_change_nothing(
    snapshot: LaneSnapshotView,
    event: HarnessEventView,
)
    requires
        !observed(snapshot.lane, event),
    ensures
        reduced(snapshot, event) == snapshot,
{
}

} // verus!
