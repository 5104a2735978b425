//! Running a tool batch: its calls, their outcomes and their recovery.

use crate::command::{LaneCommand, LaneCommandView, OperationCommand, OperationCommandView};
use crate::drive::terminal::{deletions, push_deletions};
use crate::drive::tool_placement::{calls_distinct, with_tool_batch, ToolBatchSource};
use crate::durable::{
    committed, holds, in_step, lemma_committed_concat, lemma_committed_push, lemma_spared,
    lemma_spares_concat, spares,
};
use crate::json::{is_null, null_of, Json};
use crate::lane::settle::{keeps_step, law_settling_keeps_step, safe_decision, settled};
use crate::model::event::{HarnessEvent, HarnessEventView, PlannedEvent, PlannedEventView};
use crate::model::message::{
    AgentMessage, AgentMessageView, AgentToolResult, AgentToolResultView, StopReason, ToolCallBlock,
    ToolCallBlockView, ToolResultContent, ToolResultContentView, ToolResultMessage,
    ToolResultMessageView,
};
use crate::model::session::{
    OperationScopeView, OperationState, OperationStateView, PendingEntry, PendingEntryView,
    ReplayPolicy, ToolBatch, ToolBatchView, ToolCall, ToolCallView, ToolExecution,
};
use crate::model::storage::{Address, AddressView, DurableValue, DurableValueView, Write, WriteView};
use crate::state::is_cancelled;
use crate::text::{debug_text, join, quoted, text_in};
use crate::transcript::lemma_prefix_push;
use crate::types::{
    Config, LaneRuntimeState, LaneRuntimeStateView, ToolDescriptor, ToolDescriptorView,
};
use vstd::prelude::*;

verus! {

/// What a tool call came to.
#[derive(Debug, PartialEq, Eq)]
pub struct ToolOutcome {
    pub tool_call: ToolCallBlock,
    pub message: ToolResultMessage,
    pub terminate: bool,
}

/// Contents of a [`ToolOutcome`].
pub struct ToolOutcomeView {
    pub tool_call: ToolCallBlockView,
    pub message: ToolResultMessageView,
    pub terminate: bool,
}

impl DeepView for ToolOutcome {
    type V = ToolOutcomeView;

    open spec fn deep_view(&self) -> ToolOutcomeView {
        ToolOutcomeView {
            tool_call: self.tool_call.deep_view(),
            message: self.message.deep_view(),
            terminate: self.terminate,
        }
    }
}

/// A result that no tool made: an error with the given content.
pub open spec fn synthetic(
    tool_call: ToolCallBlockView,
    content: Seq<ToolResultContentView>,
    timestamp: u64,
) -> ToolResultMessageView {
    ToolResultMessageView {
        tool_call_id: tool_call.id,
        tool_name: tool_call.name,
        content,
        details: None,
        usage: None,
        added_tool_names: None,
        is_error: true,
        timestamp,
    }
}

/// Makes a result that no tool made.
pub fn synthetic_message(
    tool_call: &ToolCallBlock,
    content: Vec<ToolResultContent>,
    timestamp: u64,
) -> (r: ToolResultMessage)
    ensures
        r.deep_view() == synthetic(tool_call.deep_view(), content.deep_view(), timestamp),
{
    ToolResultMessage {
        tool_call_id: tool_call.id.clone(),
        tool_name: tool_call.name.clone(),
        content,
        details: None,
        usage: None,
        added_tool_names: None,
        is_error: true,
        timestamp,
    }
}

/// A block of plain text.
pub open spec fn plain(text: Seq<char>) -> ToolResultContentView {
    ToolResultContentView::Text { text, text_signature: None }
}

fn plain_text(text: String) -> (r: ToolResultContent)
    ensures
        r.deep_view() == plain(text@),
{
    ToolResultContent::Text { text, text_signature: None }
}

/// The outcome of a call that was given up.
pub open spec fn given_up(
    tool_call: ToolCallBlockView,
    text: Seq<char>,
    timestamp: u64,
) -> ToolOutcomeView {
    ToolOutcomeView {
        tool_call,
        message: synthetic(tool_call, seq![plain(text)], timestamp),
        terminate: false,
    }
}

fn give_up(tool_call: ToolCallBlock, text: String, timestamp: u64) -> (r: ToolOutcome)
    ensures
        r.deep_view() == given_up(tool_call.deep_view(), text@, timestamp),
{
    let ghost shown = text@;
    let content = vec![plain_text(text)];
    assert(content.deep_view() =~= seq![plain(shown)]);
    let message = synthetic_message(&tool_call, content, timestamp);
    ToolOutcome { tool_call, message, terminate: false }
}

/// The outcome of a call that was cancelled before it ran.
pub fn aborted_outcome(tool_call: ToolCallBlock, timestamp: u64) -> (r: ToolOutcome)
    ensures
        r.deep_view() == given_up(
            tool_call.deep_view(),
            "Tool execution was cancelled before completion."@,
            timestamp,
        ),
{
    give_up(
        tool_call,
        "Tool execution was cancelled before completion.".to_string(),
        timestamp,
    )
}

/// The outcome of a call whose arguments may have been cut off.
pub fn truncated_outcome(tool_call: ToolCallBlock, timestamp: u64) -> (r: ToolOutcome)
    ensures
        r.deep_view() == given_up(
            tool_call.deep_view(),
            "Tool call "@ + debug_text(tool_call.deep_view().name)
                + " was not executed because the assistant response hit the output token limit, so its arguments may be truncated. Re-issue the tool call with complete arguments."@,
            timestamp,
        ),
{
    let named = join("Tool call ".to_string(), quoted(tool_call.name.as_str()).as_str());
    let text = join(
        named,
        " was not executed because the assistant response hit the output token limit, so its arguments may be truncated. Re-issue the tool call with complete arguments.",
    );
    give_up(tool_call, text, timestamp)
}

/// The text that marks the result of an interrupted call.
pub open spec fn interruption_marker() -> Seq<char> {
    "[Tool execution was interrupted. The preceding output is the latest durable progress snapshot; newer live output may be missing, and the external outcome is unknown.]"@
}

/// The outcome of a call that was interrupted: what it had stored of its
/// progress, and the marker.
pub open spec fn interrupted(
    tool_call: ToolCallBlockView,
    checkpoint: Option<AgentToolResultView>,
    timestamp: u64,
) -> ToolOutcomeView {
    ToolOutcomeView {
        tool_call,
        message: match checkpoint {
            None => synthetic(tool_call, seq![plain(interruption_marker())], timestamp),
            Some(progress) => ToolResultMessageView {
                details: if null_of(progress.details) {
                    None
                } else {
                    Some(progress.details)
                },
                usage: progress.usage,
                ..synthetic(
                    tool_call,
                    progress.content.push(plain(interruption_marker())),
                    timestamp,
                )
            },
        },
        terminate: false,
    }
}

/// Makes the outcome of a call that was interrupted.
pub fn interrupted_outcome(
    tool_call: ToolCallBlock,
    checkpoint: Option<AgentToolResult>,
    timestamp: u64,
) -> (r: ToolOutcome)
    ensures
        r.deep_view() == interrupted(tool_call.deep_view(), checkpoint.deep_view(), timestamp),
{
    let marker = plain_text(
        "[Tool execution was interrupted. The preceding output is the latest durable progress snapshot; newer live output may be missing, and the external outcome is unknown.]".to_string(),
    );
    let ghost marker_view = marker.deep_view();
    match checkpoint {
        None => {
            let content = vec![marker];
            assert(content.deep_view() =~= seq![marker_view]);
            let message = synthetic_message(&tool_call, content, timestamp);
            ToolOutcome { tool_call, message, terminate: false }
        },
        Some(progress) => {
            let mut content = progress.content;
            let ghost before = content.deep_view();
            content.push(marker);
            assert(content.deep_view() =~= before.push(marker_view));
            let mut message = synthetic_message(&tool_call, content, timestamp);
            message.details = if is_null(&progress.details) {
                None
            } else {
                Some(progress.details)
            };
            message.usage = progress.usage;
            ToolOutcome { tool_call, message, terminate: false }
        },
    }
}

/// The outcome of a call that was stopped while it ran: an interruption if it had
/// been taken up again, and a cancellation if not.
pub fn stopped_outcome(tool_call: ToolCallBlock, recovery: bool, timestamp: u64) -> (r: ToolOutcome)
    ensures
        r.deep_view() == if recovery {
            interrupted(tool_call.deep_view(), None, timestamp)
        } else {
            given_up(
                tool_call.deep_view(),
                "Tool execution was cancelled before completion."@,
                timestamp,
            )
        },
{
    if recovery {
        interrupted_outcome(tool_call, None, timestamp)
    } else {
        aborted_outcome(tool_call, timestamp)
    }
}

/// Reads the change of a result that a hook asks for: anything but null.
pub fn tool_patch(hook: Json) -> (r: Option<Json>)
    ensures
        r.deep_view() == if null_of(hook.deep_view()) {
            None
        } else {
            Some(hook.deep_view())
        },
{
    if is_null(&hook) {
        None
    } else {
        Some(hook)
    }
}

/// The outcome of a call whose result is final.
pub fn outcome_from_finalized_call(
    tool_call: ToolCallBlock,
    message: ToolResultMessage,
    terminate: bool,
) -> (r: ToolOutcome)
    ensures
        r == (ToolOutcome { tool_call, message, terminate }),
{
    ToolOutcome { tool_call, message, terminate }
}

/// The leaf of a lane that runs tools.
pub fn current_batch(state: &LaneRuntimeState) -> (r: Option<OperationState>)
    ensures
        r.deep_view() == match state.deep_view().operation {
            Some(operation) => if operation.state is Tools {
                Some(operation.state)
            } else {
                None
            },
            None => None,
        },
{
    match &state.operation {
        Some(operation) => match &operation.state {
            OperationState::Tools { .. } => Some(operation.state.clone()),
            _ => None,
        },
        None => None,
    }
}

/// The batch of a leaf that runs tools.
pub fn run_batch(run: &OperationState) -> (r: ToolBatch)
    requires
        run.deep_view() is Tools,
    ensures
        run.deep_view() matches OperationStateView::Tools { batch, .. } && r.deep_view() == batch,
{
    match run {
        OperationState::Tools { batch, .. } => batch.clone(),
        _ => vstd::pervasive::unreached(),
    }
}

/// Calls with one put in the place of itself.
pub open spec fn calls_replaced(calls: Seq<ToolCallView>, replacement: ToolCallView) -> Seq<
    ToolCallView,
> {
    calls.map_values(
        |call: ToolCallView|
            if call.is_call(replacement) {
                replacement
            } else {
                call
            },
    )
}

/// A batch with one call put in the place of itself.
pub open spec fn batch_replaced(batch: ToolBatchView, replacement: ToolCallView) -> ToolBatchView {
    ToolBatchView { calls: calls_replaced(batch.calls, replacement), ..batch }
}

/// Puts a call in the place of itself.
pub fn replace_call(batch: &ToolBatch, replacement: &ToolCall) -> (r: ToolBatch)
    ensures
        r.deep_view() == batch_replaced(batch.deep_view(), replacement.deep_view()),
{
    let ghost done = calls_replaced(batch.calls.deep_view(), replacement.deep_view());
    let mut calls: Vec<ToolCall> = Vec::new();
    let mut i: usize = 0;
    while i < batch.calls.len()
        invariant
            i <= batch.calls.len(),
            calls.len() == i,
            done == calls_replaced(batch.calls.deep_view(), replacement.deep_view()),
            forall|k: int| 0 <= k < i ==> #[trigger] calls.deep_view()[k] == done[k],
        decreases batch.calls.len() - i,
    {
        let ghost before = calls.deep_view();
        let call = if batch.calls[i].is_call(replacement) {
            replacement.clone()
        } else {
            batch.calls[i].clone()
        };
        calls.push(call);
        assert(calls.deep_view() =~= before.push(call.deep_view()));
        i += 1;
    }
    assert(calls.deep_view() =~= done);
    ToolBatch {
        assistant_entry_id: batch.assistant_entry_id.clone(),
        configuration: batch.configuration.clone(),
        turn_id: batch.turn_id.clone(),
        calls,
    }
}

/// Moving one call on changes that call and no other, and neither the number
/// nor the identity of the calls.
pub proof fn law_moving_a_call_keeps_the_others(
    calls: Seq<ToolCallView>,
    replacement: ToolCallView,
)
    ensures
        calls_replaced(calls, replacement).len() == calls.len(),
        forall|i: int|
            0 <= i < calls.len() ==> (#[trigger] calls_replaced(calls, replacement)[i]).is_call(
                calls[i],
            ) && (calls[i].is_call(replacement) ==> calls_replaced(calls, replacement)[i]
                == replacement) && (!calls[i].is_call(replacement) ==> calls_replaced(
                calls,
                replacement,
            )[i] == calls[i]),
        calls_distinct(calls) ==> calls_distinct(calls_replaced(calls, replacement)),
{
    let after = calls_replaced(calls, replacement);
    if calls_distinct(calls) {
        assert forall|i: int, j: int| 0 <= i < j < after.len() implies !(
        #[trigger] after[i]).is_call(#[trigger] after[j]) by {
            assert(!calls[i].is_call(calls[j]));
        }
    }
}

/// Why a memo name is refused.
pub open spec fn memo_fault(name: Seq<char>) -> Option<Seq<char>> {
    if name.len() == 0 {
        Some("Tool invocation memo name must not be empty"@)
    } else if name.contains(':') {
        Some("Tool invocation memo name must not contain ':'"@)
    } else {
        None
    }
}

fn has_char(text: &str, wanted: char) -> (r: bool)
    ensures
        r == text@.contains(wanted),
{
    let mut found = false;
    for c in iter: text.chars()
        invariant
            iter.seq() == text@,
            found == (exists|k: int| 0 <= k < iter.index() && #[trigger] text@[k] == wanted),
    {
        if c == wanted {
            assert(text@[iter.index()] == wanted);
            found = true;
        }
    }
    found
}

/// Checks the name of a memo.
pub fn validate_memo_name(name: &str) -> (r: Result<(), String>)
    ensures
        match memo_fault(name@) {
            Some(message) => r is Err && r->Err_0@ == message,
            None => r is Ok,
        },
{
    if name.is_empty() {
        return Err("Tool invocation memo name must not be empty".to_string());
    }
    if has_char(name, ':') {
        return Err("Tool invocation memo name must not contain ':'".to_string());
    }
    Ok(())
}

/// The event that starts a tool.
pub open spec fn tool_start(
    lane: Seq<char>,
    operation_id: Seq<char>,
    turn_id: Seq<char>,
    tool_call: ToolCallBlockView,
    args: serde_json::Value,
    recovery: bool,
) -> PlannedEventView {
    PlannedEventView::Ready(
        HarnessEventView::ToolStart {
            lane,
            run_id: operation_id,
            turn_id,
            tool_call_id: tool_call.id,
            tool_name: tool_call.name,
            args,
            recovery: Some(recovery),
        },
    )
}

fn plan_tool_start(
    lane_name: &String,
    operation_id: &String,
    turn_id: &String,
    tool_call: &ToolCallBlock,
    args: Json,
    recovery: bool,
) -> (r: PlannedEvent)
    ensures
        r.deep_view() == tool_start(
            lane_name@,
            operation_id@,
            turn_id@,
            tool_call.deep_view(),
            args.deep_view(),
            recovery,
        ),
{
    PlannedEvent::Ready(
        HarnessEvent::ToolStart {
            lane: lane_name.clone(),
            run_id: operation_id.clone(),
            turn_id: turn_id.clone(),
            tool_call_id: tool_call.id.clone(),
            tool_name: tool_call.name.clone(),
            args,
            recovery: Some(recovery),
        },
    )
}

/// The commit that lets a planned call run: its arguments are stored and it
/// becomes an effect that may or may not be replayed.
pub open spec fn tool_intent_command(
    lane: Seq<char>,
    operation_id: Seq<char>,
    turn_id: Seq<char>,
    scope: OperationScopeView,
    batch: ToolBatchView,
    planned: ToolCallView,
    tool_call: ToolCallBlockView,
    args: serde_json::Value,
    replay: ReplayPolicy,
    recovery: bool,
) -> OperationCommandView<ToolCallView> {
    let effect = ToolCallView::EffectPending {
        source_index: planned.source_index(),
        result_entry_id: planned.result_entry_id(),
        replay,
    };
    OperationCommandView::Commit {
        writes: seq![
            WriteView::SetValue {
                address: AddressView::OperationToolArgs {
                    operation_id,
                    turn_id,
                    source_index: planned.source_index(),
                },
                value: DurableValueView::ToolArguments(args),
            },
        ],
        operation_state: OperationStateView::Tools {
            scope,
            batch: batch_replaced(batch, effect),
        },
        lane: None,
        result: effect,
        events: seq![tool_start(lane, operation_id, turn_id, tool_call, args, recovery)],
    }
}

/// Lets a planned call run.
pub fn publish_tool_intent(
    lane_name: &String,
    operation_id: &String,
    turn_id: &String,
    current: &OperationState,
    planned: &ToolCall,
    tool_call: &ToolCallBlock,
    args: Json,
    replay: ReplayPolicy,
    recovery: bool,
) -> (r: OperationCommand<ToolCall>)
    requires
        current.deep_view() is Tools,
    ensures
        current.deep_view() matches OperationStateView::Tools { scope, batch } && r.deep_view()
            == tool_intent_command(
            lane_name@,
            operation_id@,
            turn_id@,
            scope,
            batch,
            planned.deep_view(),
            tool_call.deep_view(),
            args.deep_view(),
            replay,
            recovery,
        ),
{
    let batch = match current {
        OperationState::Tools { batch, .. } => batch,
        _ => vstd::pervasive::unreached(),
    };
    let effect_pending = ToolCall::EffectPending {
        source_index: planned.source_index(),
        result_entry_id: planned.result_entry_id().clone(),
        replay,
    };
    let next = with_tool_batch(current, replace_call(batch, &effect_pending));
    let write = Write::SetValue {
        address: Address::OperationToolArgs {
            operation_id: operation_id.clone(),
            turn_id: turn_id.clone(),
            source_index: planned.source_index(),
        },
        value: DurableValue::ToolArguments(args.clone()),
    };
    let ghost write_view = write.deep_view();
    let writes = vec![write];
    assert(writes.deep_view() =~= seq![write_view]);
    let start = plan_tool_start(lane_name, operation_id, turn_id, tool_call, args, recovery);
    let ghost start_view = start.deep_view();
    let events = vec![start];
    assert(events.deep_view() =~= seq![start_view]);
    OperationCommand::Commit {
        writes,
        operation_state: next,
        lane: None,
        result: effect_pending,
        events,
    }
}

/// Whether the wish of an outcome to end the run counts: not once the run was
/// asked to stop.
pub fn durable_terminate(run: &OperationState, terminate: bool) -> (r: bool)
    ensures
        r == (run.deep_view().control() is Running && terminate),
{
    !is_cancelled(run) && terminate
}

/// The commit that stages the outcome of a call.
pub open spec fn tool_outcome_command(
    lane: Seq<char>,
    operation_id: Seq<char>,
    turn_id: Seq<char>,
    scope: OperationScopeView,
    batch: ToolBatchView,
    call: ToolCallView,
    outcome: ToolOutcomeView,
    result: AgentToolResultView,
    memos: Seq<AddressView>,
    recovery: bool,
) -> OperationCommandView<()> {
    let result_entry_id = call.result_entry_id();
    let terminate = scope.control is Running && outcome.terminate;
    let staged = ToolCallView::OutcomeReady {
        source_index: call.source_index(),
        result_entry_id,
        terminate,
    };
    let end = PlannedEventView::Ready(
        HarnessEventView::ToolEnd {
            lane,
            run_id: operation_id,
            turn_id,
            tool_call_id: outcome.tool_call.id,
            tool_name: outcome.tool_call.name,
            result,
            is_error: outcome.message.is_error,
            terminate,
            recovery: Some(recovery),
        },
    );
    OperationCommandView::Commit {
        writes: seq![
            WriteView::SetValue {
                address: AddressView::PendingEntry { entry_id: result_entry_id },
                value: DurableValueView::Pending(
                    PendingEntryView::Message {
                        payload: AgentMessageView::ToolResult(outcome.message),
                    },
                ),
            },
            WriteView::DeleteValue {
                address: AddressView::PendingToolOutput { operation_id, result_entry_id },
            },
        ] + deletions(memos),
        operation_state: OperationStateView::Tools {
            scope,
            batch: batch_replaced(batch, staged),
        },
        lane: None,
        result: (),
        events: if call is Planned {
            seq![
                tool_start(
                    lane,
                    operation_id,
                    turn_id,
                    outcome.tool_call,
                    outcome.tool_call.arguments,
                    recovery,
                ),
                end,
            ]
        } else {
            seq![end]
        },
    }
}

/// Stages the outcome of a call. `result` is what observers are shown of it and
/// `memos` are the addresses of the call's memos.
pub fn publish_tool_outcome(
    lane_name: &String,
    operation_id: &String,
    turn_id: &String,
    run: &OperationState,
    call: &ToolCall,
    finalized: &ToolOutcome,
    result: AgentToolResult,
    memos: Vec<Address>,
    recovery: bool,
) -> (r: OperationCommand<()>)
    requires
        run.deep_view() is Tools,
    ensures
        run.deep_view() matches OperationStateView::Tools { scope, batch } && r.deep_view()
            == tool_outcome_command(
            lane_name@,
            operation_id@,
            turn_id@,
            scope,
            batch,
            call.deep_view(),
            finalized.deep_view(),
            result.deep_view(),
            memos.deep_view(),
            recovery,
        ),
{
    let batch = match run {
        OperationState::Tools { batch, .. } => batch,
        _ => vstd::pervasive::unreached(),
    };
    let terminate = durable_terminate(run, finalized.terminate);
    let outcome = ToolCall::OutcomeReady {
        source_index: call.source_index(),
        result_entry_id: call.result_entry_id().clone(),
        terminate,
    };
    let stage = Write::SetValue {
        address: Address::PendingEntry { entry_id: call.result_entry_id().clone() },
        value: DurableValue::Pending(
            PendingEntry::Message {
                payload: AgentMessage::ToolResult(finalized.message.clone()),
            },
        ),
    };
    let drop_output = Write::DeleteValue {
        address: Address::PendingToolOutput {
            operation_id: operation_id.clone(),
            result_entry_id: call.result_entry_id().clone(),
        },
    };
    let ghost head = seq![stage.deep_view(), drop_output.deep_view()];
    let mut writes = vec![stage, drop_output];
    assert(writes.deep_view() =~= head);
    push_deletions(&mut writes, memos);
    let next = with_tool_batch(run, replace_call(batch, &outcome));
    let end = PlannedEvent::Ready(
        HarnessEvent::ToolEnd {
            lane: lane_name.clone(),
            run_id: operation_id.clone(),
            turn_id: turn_id.clone(),
            tool_call_id: finalized.tool_call.id.clone(),
            tool_name: finalized.tool_call.name.clone(),
            result,
            is_error: finalized.message.is_error,
            terminate,
            recovery: Some(recovery),
        },
    );
    let ghost end_view = end.deep_view();
    let was_planned = matches!(call, ToolCall::Planned { .. });
    let events = if was_planned {
        let start = plan_tool_start(
            lane_name,
            operation_id,
            turn_id,
            &finalized.tool_call,
            finalized.tool_call.arguments.clone(),
            recovery,
        );
        let ghost start_view = start.deep_view();
        let events = vec![start, end];
        assert(events.deep_view() =~= seq![start_view, end_view]);
        events
    } else {
        let events = vec![end];
        assert(events.deep_view() =~= seq![end_view]);
        events
    };
    OperationCommand::Commit {
        writes,
        operation_state: next,
        lane: None,
        result: (),
        events,
    }
}

/// The command that lets an interrupted call run again, with the arguments that
/// were stored for it and without its old progress.
pub open spec fn replay_command(
    lane: Seq<char>,
    operation_id: Seq<char>,
    turn_id: Seq<char>,
    state: LaneRuntimeStateView,
    call: ToolCallView,
    tool_call: ToolCallBlockView,
    stored: serde_json::Value,
) -> LaneCommandView<serde_json::Value> {
    LaneCommandView::Commit {
        writes: seq![
            WriteView::DeleteValue {
                address: AddressView::PendingToolOutput {
                    operation_id,
                    result_entry_id: call.result_entry_id(),
                },
            },
        ],
        next: state,
        result: stored,
        events: seq![tool_start(lane, operation_id, turn_id, tool_call, stored, true)],
    }
}

/// Lets an interrupted call run again. Its arguments must have been stored.
pub fn clear_replay_checkpoint(
    lane_name: &String,
    operation_id: &String,
    turn_id: &String,
    state: LaneRuntimeState,
    call: &ToolCall,
    tool_call: &ToolCallBlock,
    stored: Option<Json>,
) -> (r: Result<LaneCommand<Json>, String>)
    ensures
        match stored {
            Some(args) => r is Ok && r->Ok_0.deep_view() == replay_command(
                lane_name@,
                operation_id@,
                turn_id@,
                state.deep_view(),
                call.deep_view(),
                tool_call.deep_view(),
                args.deep_view(),
            ),
            None => r is Err && r->Err_0@ == "Tool call "@ + call.deep_view().result_entry_id()
                + " is missing persisted arguments"@,
        },
{
    match stored {
        None => {
            let named = join("Tool call ".to_string(), call.result_entry_id().as_str());
            Err(join(named, " is missing persisted arguments"))
        },
        Some(args) => {
            let write = Write::DeleteValue {
                address: Address::PendingToolOutput {
                    operation_id: operation_id.clone(),
                    result_entry_id: call.result_entry_id().clone(),
                },
            };
            let ghost write_view = write.deep_view();
            let writes = vec![write];
            assert(writes.deep_view() =~= seq![write_view]);
            let start = plan_tool_start(
                lane_name,
                operation_id,
                turn_id,
                tool_call,
                args.clone(),
                true,
            );
            let ghost start_view = start.deep_view();
            let events = vec![start];
            assert(events.deep_view() =~= seq![start_view]);
            Ok(LaneCommand::Commit { writes, next: state, result: args, events })
        },
    }
}

/// The command that sets or removes a memo of a call.
pub fn set_memo(
    operation_id: &String,
    result_entry_id: &String,
    name: &String,
    value: Option<Json>,
    state: LaneRuntimeState,
) -> (r: LaneCommand<()>)
    ensures
        r.deep_view() == ({
            let address = AddressView::OperationToolMemo {
                operation_id: operation_id@,
                result_entry_id: result_entry_id@,
                name: name@,
            };
            LaneCommandView::Commit {
                writes: seq![
                    match value.deep_view() {
                        Some(value) => WriteView::SetValue {
                            address,
                            value: DurableValueView::Memo(value),
                        },
                        None => WriteView::DeleteValue { address },
                    },
                ],
                next: state.deep_view(),
                result: (),
                events: Seq::empty(),
            }
        }),
{
    let address = Address::OperationToolMemo {
        operation_id: operation_id.clone(),
        result_entry_id: result_entry_id.clone(),
        name: name.clone(),
    };
    let write = match value {
        Some(value) => Write::SetValue { address, value: DurableValue::Memo(value) },
        None => Write::DeleteValue { address },
    };
    let ghost write_view = write.deep_view();
    let writes = vec![write];
    assert(writes.deep_view() =~= seq![write_view]);
    let events: Vec<PlannedEvent> = Vec::new();
    assert(events.deep_view() =~= Seq::empty());
    LaneCommand::Commit { writes, next: state, result: (), events }
}

/// What a batch does with one of its calls.
#[derive(Clone, Copy, Debug, PartialEq, Eq, Structural)]
pub enum CallAction {
    /// Nothing: the call has its outcome.
    Skip,
    /// Stage that the call was cancelled before it ran.
    Abort,
    /// Stage what is left of the interrupted call.
    Interrupt,
    /// Start the call.
    Start,
    /// Recover the interrupted call.
    Recover,
}

/// What a batch does with one of its calls. A request to stop starts nothing.
pub open spec fn action_for(call: ToolCallView, cancelled: bool) -> CallAction {
    match call {
        ToolCallView::Planned { .. } => if cancelled {
            CallAction::Abort
        } else {
            CallAction::Start
        },
        ToolCallView::EffectPending { .. } => if cancelled {
            CallAction::Interrupt
        } else {
            CallAction::Recover
        },
        _ => CallAction::Skip,
    }
}

/// Decides what a batch does with one of its calls.
pub fn call_action(call: &ToolCall, cancelled: bool) -> (r: CallAction)
    ensures
        r == action_for(call.deep_view(), cancelled),
{
    match call {
        ToolCall::Planned { .. } => if cancelled {
            CallAction::Abort
        } else {
            CallAction::Start
        },
        ToolCall::EffectPending { .. } => if cancelled {
            CallAction::Interrupt
        } else {
            CallAction::Recover
        },
        _ => CallAction::Skip,
    }
}

/// A cancelled batch starts no call and recovers none.
pub proof fn law_a_cancelled_batch_starts_nothing(call: ToolCallView)
    ensures
        action_for(call, true) != CallAction::Start,
        action_for(call, true) != CallAction::Recover,
{
}

/// Whether an interrupted call runs again: it was stored as safe to replay, its
/// tool still is, and nobody asked to stop.
pub fn can_replay(call: &ToolCall, tool: Option<&ToolDescriptor>, cancelled: bool) -> (r: bool)
    ensures
        r == (!cancelled && (call.deep_view() matches ToolCallView::EffectPending { replay, .. }
            && replay == ReplayPolicy::Safe) && (tool.deep_view() matches Some(descriptor)
            && descriptor.replay == Some(ReplayPolicy::Safe))),
{
    let stored_safe = match call {
        ToolCall::EffectPending { replay, .. } => *replay == ReplayPolicy::Safe,
        _ => false,
    };
    let tool_safe = match tool {
        Some(descriptor) => match descriptor.replay {
            Some(replay) => replay == ReplayPolicy::Safe,
            None => false,
        },
        None => false,
    };
    !cancelled && stored_safe && tool_safe
}

/// How a tool that starts may be replayed. A tool that does not say may not.
pub fn replay_policy(tool: &ToolDescriptor) -> (r: ReplayPolicy)
    ensures
        r == (match tool.deep_view().replay {
            Some(replay) => replay,
            None => ReplayPolicy::Never,
        }),
{
    match tool.replay {
        Some(replay) => replay,
        None => ReplayPolicy::Never,
    }
}

/// Whether the arguments of a batch's calls may have been cut off.
pub fn is_truncated(sources: &ToolBatchSource) -> (r: bool)
    ensures
        r == (sources.assistant.deep_view().stop_reason == StopReason::Length),
{
    sources.assistant.stop_reason == StopReason::Length
}

/// Whether a batch had been started before.
pub open spec fn resumes(calls: Seq<ToolCallView>) -> bool {
    exists|i: int|
        0 <= i < calls.len() && ((#[trigger] calls[i]) is EffectPending || calls[i]
            is OutcomeReady)
}

/// Tells whether a batch had been started before.
pub fn is_recovery(calls: &Vec<ToolCall>) -> (r: bool)
    ensures
        r == resumes(calls.deep_view()),
{
    let mut i: usize = 0;
    while i < calls.len()
        invariant
            i <= calls.len(),
            forall|k: int|
                0 <= k < i ==> !((#[trigger] calls.deep_view()[k]) is EffectPending)
                    && !(calls.deep_view()[k] is OutcomeReady),
        decreases calls.len() - i,
    {
        match &calls[i] {
            ToolCall::EffectPending { .. } | ToolCall::OutcomeReady { .. } => {
                assert(calls.deep_view()[i as int] is EffectPending || calls.deep_view()[i as int]
                    is OutcomeReady);
                return true;
            },
            _ => {},
        }
        i += 1;
    }
    false
}

/// Announces that a batch is taken up again.
pub fn announce_batch(lane_name: &String, operation_id: &String, batch: &ToolBatch) -> (r: Option<
    HarnessEvent,
>)
    ensures
        r.deep_view() == if resumes(batch.deep_view().calls) {
            Some(
                HarnessEventView::TurnStart {
                    lane: lane_name@,
                    run_id: operation_id@,
                    turn_id: batch.turn_id@,
                    recovery: Some(true),
                },
            )
        } else {
            None
        },
{
    if is_recovery(&batch.calls) {
        Some(
            HarnessEvent::TurnStart {
                lane: lane_name.clone(),
                run_id: operation_id.clone(),
                turn_id: batch.turn_id.clone(),
                recovery: Some(true),
            },
        )
    } else {
        None
    }
}

/// The tools of a process that a batch may use.
pub open spec fn active_tools(tools: Seq<ToolDescriptorView>, names: Seq<Seq<char>>) -> Seq<
    ToolDescriptorView,
> {
    tools.filter(|tool: ToolDescriptorView| names.contains(tool.name))
}

/// Selects the tools that a batch may use.
pub fn select_tools(tools: &Vec<ToolDescriptor>, names: &Vec<String>) -> (r: Vec<ToolDescriptor>)
    ensures
        r.deep_view() == active_tools(tools.deep_view(), names.deep_view()),
{
    let ghost keep = |tool: ToolDescriptorView| names.deep_view().contains(tool.name);
    let mut kept: Vec<ToolDescriptor> = Vec::new();
    let mut i: usize = 0;
    assert(kept.deep_view() =~= tools.deep_view().take(0).filter(keep)) by {
        reveal(Seq::filter);
    }
    while i < tools.len()
        invariant
            i <= tools.len(),
            keep == (|tool: ToolDescriptorView| names.deep_view().contains(tool.name)),
            kept.deep_view() == tools.deep_view().take(i as int).filter(keep),
        decreases tools.len() - i,
    {
        let ghost before = kept.deep_view();
        proof {
            crate::inbox::lemma_filter_step(tools.deep_view(), i as int, keep);
        }
        if text_in(names, &tools[i].name) {
            kept.push(tools[i].clone());
            assert(kept.deep_view() =~= before.push(tools[i as int].deep_view()));
        }
        i += 1;
    }
    assert(tools.deep_view().take(i as int) =~= tools.deep_view());
    kept
}

/// The last tool with a name.
pub open spec fn tool_named(tools: Seq<ToolDescriptorView>, name: Seq<char>) -> Option<
    ToolDescriptorView,
>
    decreases tools.len(),
{
    if tools.len() == 0 {
        None
    } else if tools.last().name == name {
        Some(tools.last())
    } else {
        tool_named(tools.drop_last(), name)
    }
}

/// Finds a tool by its name.
pub fn find_tool<'a>(tools: &'a Vec<ToolDescriptor>, name: &String) -> (r: Option<&'a ToolDescriptor>)
    ensures
        r.deep_view() == tool_named(tools.deep_view(), name@),
{
    let mut n: usize = tools.len();
    assert(tools.deep_view().take(n as int) =~= tools.deep_view());
    while n > 0
        invariant
            n <= tools.len(),
            tool_named(tools.deep_view(), name@) == tool_named(
                tools.deep_view().take(n as int),
                name@,
            ),
        decreases n,
    {
        proof {
            lemma_prefix_push(*tools, n as int - 1);
        }
        if tools[n - 1].name == *name {
            return Some(&tools[n - 1]);
        }
        n -= 1;
    }
    None
}

/// How a batch runs.
#[derive(Debug, PartialEq, Eq)]
pub struct BatchPlan {
    pub execution: ToolExecution,
    pub tools: Vec<ToolDescriptor>,
}

/// Contents of a [`BatchPlan`].
pub struct BatchPlanView {
    pub execution: ToolExecution,
    pub tools: Seq<ToolDescriptorView>,
}

impl DeepView for BatchPlan {
    type V = BatchPlanView;

    open spec fn deep_view(&self) -> BatchPlanView {
        BatchPlanView { execution: self.execution, tools: self.tools.deep_view() }
    }
}

/// How a batch runs: one call after another and without tools once it is asked
/// to stop; otherwise as its run was set, with the tools of its configuration.
pub open spec fn batch_plan(
    run: OperationStateView,
    current: OperationStateView,
    names: Seq<Seq<char>>,
    tools: Seq<ToolDescriptorView>,
) -> BatchPlanView {
    if current.cancelled() {
        BatchPlanView { execution: ToolExecution::Sequential, tools: Seq::empty() }
    } else {
        BatchPlanView {
            execution: run.scope().settings.tool_execution,
            tools: active_tools(tools, names),
        }
    }
}

/// Decides how a batch runs.
pub fn run_tools(run: &OperationState, current: &OperationState, config: &Config) -> (r: BatchPlan)
    requires
        run.deep_view() is Tools,
    ensures
        run.deep_view() matches OperationStateView::Tools { batch, .. } && r.deep_view()
            == batch_plan(
            run.deep_view(),
            current.deep_view(),
            batch.configuration.active_tool_names,
            config.deep_view().tools,
        ),
{
    if is_cancelled(current) {
        let tools: Vec<ToolDescriptor> = Vec::new();
        assert(tools.deep_view() =~= Seq::empty());
        return BatchPlan { execution: ToolExecution::Sequential, tools };
    }
    match run {
        OperationState::Tools { scope, batch } => BatchPlan {
            execution: scope.settings.tool_execution,
            tools: select_tools(&config.tools, &batch.configuration.active_tool_names),
        },
        _ => vstd::pervasive::unreached(),
    }
}

/// Letting a call run and staging its outcome keep the lane in step with
/// storage.
pub proof fn law_running_tools_keeps_step(
    store: Map<AddressView, DurableValueView>,
    lane: Seq<char>,
    state: LaneRuntimeStateView,
    scope: OperationScopeView,
    batch: ToolBatchView,
    turn_id: Seq<char>,
    call: ToolCallView,
    tool_call: ToolCallBlockView,
    args: serde_json::Value,
    replay: ReplayPolicy,
    outcome: ToolOutcomeView,
    result: AgentToolResultView,
    memos: Seq<AddressView>,
    recovery: bool,
)
    requires
        in_step(store, lane, state),
        state.operation matches Some(operation) && operation.meta.intent is Run
            && operation.state == (OperationStateView::Tools { scope, batch }),
        forall|i: int| 0 <= i < memos.len() ==> (#[trigger] memos[i]) is OperationToolMemo,
    ensures
        ({
            let operation_id = state.operation->Some_0.meta.operation_id;
            let intent = tool_intent_command(
                lane,
                operation_id,
                turn_id,
                scope,
                batch,
                call,
                tool_call,
                args,
                replay,
                recovery,
            );
            let staged = tool_outcome_command(
                lane,
                operation_id,
                turn_id,
                scope,
                batch,
                call,
                outcome,
                result,
                memos,
                recovery,
            );
            &&& safe_decision(store, lane, state, intent)
            &&& keeps_step(store, lane, settled(lane, state, intent))
            &&& safe_decision(store, lane, state, staged)
            &&& keeps_step(store, lane, settled(lane, state, staged))
        }),
{
    let operation_id = state.operation->Some_0.meta.operation_id;
    let intent = tool_intent_command(
        lane,
        operation_id,
        turn_id,
        scope,
        batch,
        call,
        tool_call,
        args,
        replay,
        recovery,
    );
    let staged = tool_outcome_command(
        lane,
        operation_id,
        turn_id,
        scope,
        batch,
        call,
        outcome,
        result,
        memos,
        recovery,
    );
    let intent_writes = match intent {
        OperationCommandView::Commit { writes, .. } => writes,
        _ => Seq::empty(),
    };
    let staged_writes = match staged {
        OperationCommandView::Commit { writes, .. } => writes,
        _ => Seq::empty(),
    };
    let head = staged_writes.take(2);
    assert(staged_writes =~= head + deletions(memos));
    assert forall|address: AddressView|
        address is BranchTip || address is LaneConfig || address is LaneState || address
            is OperationMeta implies #[trigger] spares(staged_writes, address) && spares(
        intent_writes,
        address,
    ) by {
        assert(spares(head, address));
        assert(spares(deletions(memos), address));
        lemma_spares_concat(head, deletions(memos), address);
    }
    assert(spares(staged_writes, AddressView::BranchTip { lane }));
    assert(spares(staged_writes, AddressView::LaneConfig { lane }));
    assert(spares(staged_writes, AddressView::LaneState { lane }));
    assert(spares(staged_writes, AddressView::OperationMeta { operation_id }));
    lemma_spared(store, intent_writes, AddressView::BranchTip { lane });
    lemma_spared(store, intent_writes, AddressView::LaneConfig { lane });
    lemma_spared(store, staged_writes, AddressView::BranchTip { lane });
    lemma_spared(store, staged_writes, AddressView::LaneConfig { lane });
    law_settling_keeps_step(store, lane, state, intent);
    law_settling_keeps_step(store, lane, state, staged);
}

/// A staged outcome is what a placement later reads back: its message is stored
/// under the entry that its call reserved.
pub proof fn law_staged_outcomes_are_stored(
    store: Map<AddressView, DurableValueView>,
    lane: Seq<char>,
    operation_id: Seq<char>,
    turn_id: Seq<char>,
    scope: OperationScopeView,
    batch: ToolBatchView,
    call: ToolCallView,
    outcome: ToolOutcomeView,
    result: AgentToolResultView,
    memos: Seq<AddressView>,
    recovery: bool,
)
    requires
        forall|i: int| 0 <= i < memos.len() ==> (#[trigger] memos[i]) is OperationToolMemo,
    ensures
        tool_outcome_command(
            lane,
            operation_id,
            turn_id,
            scope,
            batch,
            call,
            outcome,
            result,
            memos,
            recovery,
        ) matches OperationCommandView::Commit { writes, .. } && holds(
            committed(store, writes),
            AddressView::PendingEntry { entry_id: call.result_entry_id() },
            DurableValueView::Pending(
                PendingEntryView::Message {
                    payload: AgentMessageView::ToolResult(outcome.message),
                },
            ),
        ),
{
    let address = AddressView::PendingEntry { entry_id: call.result_entry_id() };
    let stage = WriteView::SetValue {
        address,
        value: DurableValueView::Pending(
            PendingEntryView::Message { payload: AgentMessageView::ToolResult(outcome.message) },
        ),
    };
    let drop_output = WriteView::DeleteValue {
        address: AddressView::PendingToolOutput {
            operation_id,
            result_entry_id: call.result_entry_id(),
        },
    };
    let head = seq![stage, drop_output];
    assert(head =~= Seq::empty().push(stage).push(drop_output));
    lemma_committed_push(store, Seq::empty(), stage);
    lemma_committed_push(store, Seq::empty().push(stage), drop_output);
    lemma_committed_concat(store, head, deletions(memos));
    assert(spares(deletions(memos), address));
    lemma_spared(committed(store, head), deletions(memos), address);
}

} // verus!
