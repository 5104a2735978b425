//! How a tool call is run.

use crate::command::{LaneCommandView, OperationCommandView};
use crate::drive::tools::{
    action_for, batch_plan, given_up, interrupted, memo_fault, replay_command, resumes,
    tool_intent_command, tool_outcome_command, ToolOutcomeView,
};
use crate::json::null_of;
use crate::laws::placement::{block_of, result_of, same_call};
use crate::model::event::{HarnessEventView, PlannedEventView};
use crate::model::message::{
    AgentMessageView, AgentToolResultView, ToolCallBlockView, ToolResultContentView,
    ToolResultMessageView,
};
use crate::model::session::{
    Control, OperationScopeView, OperationStateView, PendingEntryView, ReplayPolicy, ToolBatchView,
    ToolCallView, ToolExecution,
};
use crate::model::storage::{AddressView, DurableValueView, WriteView};
use crate::types::{LaneRuntimeStateView, ToolDescriptorView};
use vstd::prelude::*;

verus! {

/// Whether a batch has one call in a new state and everything else as it was.
pub open spec fn moves_only(
    before: ToolBatchView,
    after: ToolBatchView,
    moved: ToolCallView,
) -> bool {
    &&& after.assistant_entry_id == before.assistant_entry_id
    &&& after.configuration == before.configuration
    &&& after.turn_id == before.turn_id
    &&& after.calls.len() == before.calls.len()
    &&& forall|c: int|
        0 <= c < before.calls.len() ==> #[trigger] after.calls[c] == if same_call(
            before.calls[c],
            moved,
        ) {
            moved
        } else {
            before.calls[c]
        }
}

/// A tool call starts with its arguments stored: the call is then under way, and may be
/// replayed as its tool allows; the other calls of the batch stay. The start is announced
/// with the arguments.
pub proof fn law_a_tool_starts_with_its_arguments_stored(
    lane: Seq<char>,
    operation_id: Seq<char>,
    turn_id: Seq<char>,
    scope: OperationScopeView,
    batch: ToolBatchView,
    planned: ToolCallView,
    tool_call: ToolCallBlockView,
    args: serde_json::Value,
    replay: ReplayPolicy,
    recovery: bool,
)
    ensures
        ({
            let effect = ToolCallView::EffectPending {
                source_index: block_of(planned),
                result_entry_id: result_of(planned),
                replay,
            };
            &&& tool_intent_command(
                lane,
                operation_id,
                turn_id,
                scope,
                batch,
                planned,
                tool_call,
                args,
                replay,
                recovery,
            ) matches OperationCommandView::Commit { writes, operation_state, lane: patch, result, events }
            &&& writes == seq![
                WriteView::SetValue {
                    address: AddressView::OperationToolArgs {
                        operation_id,
                        turn_id,
                        source_index: block_of(planned),
                    },
                    value: DurableValueView::ToolArguments(args),
                },
            ]
            &&& operation_state matches OperationStateView::Tools { scope: kept, batch: after }
            &&& kept == scope
            &&& moves_only(batch, after, effect)
            &&& patch is None
            &&& result == effect
            &&& events == seq![
                PlannedEventView::Ready(
                    HarnessEventView::ToolStart {
                        lane,
                        run_id: operation_id,
                        turn_id,
                        tool_call_id: tool_call.id,
                        tool_name: tool_call.name,
                        args,
                        recovery: Some(recovery),
                    },
                ),
            ]
        }),
{
}

/// A tool call ends with its outcome staged: its message waits under the entry reserved
/// for it, its stored output and memos are dropped, and the call is ready to be placed. It
/// asks to end the run only if its outcome did and the run was not asked to stop. The end
/// is announced; a call that never started is announced to start first.
pub proof fn law_a_tool_ends_with_its_outcome_staged(
    lane: Seq<char>,
    operation_id: Seq<char>,
    turn_id: Seq<char>,
    scope: OperationScopeView,
    batch: ToolBatchView,
    call: ToolCallView,
    outcome: ToolOutcomeView,
    result: AgentToolResultView,
    memos: Seq<AddressView>,
    recovery: bool,
    i: int,
)
    ensures
        ({
            let terminate = outcome.terminate && scope.control == Control::Running;
            let end = PlannedEventView::Ready(
                HarnessEventView::ToolEnd {
                    lane,
                    run_id: operation_id,
                    turn_id,
                    tool_call_id: outcome.tool_call.id,
                    tool_name: outcome.tool_call.name,
                    result,
                    is_error: outcome.message.is_error,
                    terminate,
                    recovery: Some(recovery),
                },
            );
            let start = PlannedEventView::Ready(
                HarnessEventView::ToolStart {
                    lane,
                    run_id: operation_id,
                    turn_id,
                    tool_call_id: outcome.tool_call.id,
                    tool_name: outcome.tool_call.name,
                    args: outcome.tool_call.arguments,
                    recovery: Some(recovery),
                },
            );
            &&& tool_outcome_command(
                lane,
                operation_id,
                turn_id,
                scope,
                batch,
                call,
                outcome,
                result,
                memos,
                recovery,
            ) matches OperationCommandView::Commit {
                writes,
                operation_state,
                lane: patch,
                events,
                ..
            }
            &&& writes.len() == 2 + memos.len()
            &&& writes[0] == (WriteView::SetValue {
                address: AddressView::PendingEntry { entry_id: result_of(call) },
                value: DurableValueView::Pending(
                    PendingEntryView::Message {
                        payload: AgentMessageView::ToolResult(outcome.message),
                    },
                ),
            })
            &&& writes[1] == (WriteView::DeleteValue {
                address: AddressView::PendingToolOutput {
                    operation_id,
                    result_entry_id: result_of(call),
                },
            })
            &&& 0 <= i < memos.len() ==> writes[2 + i] == (WriteView::DeleteValue {
                address: memos[i],
            })
            &&& operation_state matches OperationStateView::Tools { scope: kept, batch: after }
            &&& kept == scope
            &&& moves_only(
                batch,
                after,
                ToolCallView::OutcomeReady {
                    source_index: block_of(call),
                    result_entry_id: result_of(call),
                    terminate,
                },
            )
            &&& patch is None
            &&& events == if call is Planned {
                seq![start, end]
            } else {
                seq![end]
            }
        }),
{
}

/// A call that is replayed runs with the arguments that were stored for it, and without
/// the output that it had left. The lane stays as it is.
pub proof fn law_a_replay_starts_over(
    lane: Seq<char>,
    operation_id: Seq<char>,
    turn_id: Seq<char>,
    state: LaneRuntimeStateView,
    call: ToolCallView,
    tool_call: ToolCallBlockView,
    stored: serde_json::Value,
)
    ensures
        replay_command(lane, operation_id, turn_id, state, call, tool_call, stored) == (
        LaneCommandView::Commit {
            writes: seq![
                WriteView::DeleteValue {
                    address: AddressView::PendingToolOutput {
                        operation_id,
                        result_entry_id: result_of(call),
                    },
                },
            ],
            next: state,
            result: stored,
            events: seq![
                PlannedEventView::Ready(
                    HarnessEventView::ToolStart {
                        lane,
                        run_id: operation_id,
                        turn_id,
                        tool_call_id: tool_call.id,
                        tool_name: tool_call.name,
                        args: stored,
                        recovery: Some(true),
                    },
                ),
            ],
        }),
{
}

/// What is done about a call: one that was planned starts, one that was under way is
/// taken up again, and one that has its outcome is left alone. Of a run that was asked to
/// stop nothing starts: planned calls are given up, and calls under way are interrupted.
pub proof fn law_each_call_has_its_action(call: ToolCallView, cancelled: bool)
    ensures
        match (call, cancelled) {
            (ToolCallView::Planned { .. }, false) => action_for(call, cancelled) is Start,
            (ToolCallView::Planned { .. }, true) => action_for(call, cancelled) is Abort,
            (ToolCallView::EffectPending { .. }, false) => action_for(call, cancelled) is Recover,
            (ToolCallView::EffectPending { .. }, true) => action_for(call, cancelled) is Interrupt,
            (ToolCallView::OutcomeReady { .. }, _) => action_for(call, cancelled) is Skip,
            (ToolCallView::Completed { .. }, _) => action_for(call, cancelled) is Skip,
        },
{
}

/// A batch runs as the settings of its run say, with the tools of the process that are
/// active in it, in order. Once the run was asked to stop, it is wound down call by call
/// and without tools. A batch was started before just if a call is under way or has its
/// outcome.
pub proof fn law_a_batch_runs_with_its_active_tools(
    run: OperationStateView,
    current: OperationStateView,
    names: Seq<Seq<char>>,
    tools: Seq<ToolDescriptorView>,
    tool: ToolDescriptorView,
    calls: Seq<ToolCallView>,
)
    requires
        run is Tools,
        current is Tools,
    ensures
        ({
            let plan = batch_plan(run, current, names, tools);
            let settings = run->Tools_scope.settings;
            if current->Tools_scope.control is CancelRequested {
                plan.execution == ToolExecution::Sequential && plan.tools.len() == 0
            } else {
                &&& plan.execution == settings.tool_execution
                &&& plan.tools.contains(tool) <==> tools.contains(tool) && names.contains(tool.name)
                &&& plan.tools == tools.filter(
                    |tool: ToolDescriptorView| names.contains(tool.name),
                )
            }
        }),
        resumes(calls) <==> exists|i: int|
            0 <= i < calls.len() && ((#[trigger] calls[i]) is EffectPending || calls[i]
                is OutcomeReady),
{
    let keep = |tool: ToolDescriptorView| names.contains(tool.name);
    crate::drive::boundary::lemma_in_filter(tools, keep, tool);
}

/// The outcome of a call that did not come to its end answers that call, is an error and
/// does not ask to end the run. If it was interrupted it keeps the output that was stored
/// and says behind it that it was interrupted.
pub proof fn law_a_call_that_did_not_end_is_answered_with_an_error(
    tool_call: ToolCallBlockView,
    text: Seq<char>,
    checkpoint: Option<AgentToolResultView>,
    timestamp: u64,
)
    ensures
        ({
            let outcome = given_up(tool_call, text, timestamp);
            &&& outcome.tool_call == tool_call
            &&& !outcome.terminate
            &&& outcome.message == ToolResultMessageView {
                tool_call_id: tool_call.id,
                tool_name: tool_call.name,
                content: seq![ToolResultContentView::Text { text, text_signature: None }],
                details: None,
                usage: None,
                added_tool_names: None,
                is_error: true,
                timestamp,
            }
        }),
        ({
            let outcome = interrupted(tool_call, checkpoint, timestamp);
            let message = outcome.message;
            &&& outcome.tool_call == tool_call
            &&& !outcome.terminate
            &&& message.is_error
            &&& message.tool_call_id == tool_call.id
            &&& message.tool_name == tool_call.name
            &&& message.timestamp == timestamp
            &&& message.added_tool_names is None
            &&& message.content.len() > 0
            &&& message.content.last() is Text
            &&& message.content.drop_last() == match checkpoint {
                Some(progress) => progress.content,
                None => Seq::empty(),
            }
            &&& message.usage == match checkpoint {
                Some(progress) => progress.usage,
                None => None,
            }
            &&& message.details == match checkpoint {
                Some(progress) => if null_of(progress.details) {
                    None
                } else {
                    Some(progress.details)
                },
                None => None,
            }
        }),
{
    let message = interrupted(tool_call, checkpoint, timestamp).message;
    match checkpoint {
        Some(progress) => {
            assert(message.content.drop_last() =~= progress.content);
        },
        None => {
            assert(message.content.drop_last() =~= Seq::empty());
        },
    }
}

/// The name of a memo is refused just if it is empty or has a colon in it.
pub proof fn law_a_memo_has_a_name_without_colons(name: Seq<char>)
    ensures
        memo_fault(name) is Some <==> name.len() == 0 || exists|i: int|
            0 <= i < name.len() && #[trigger] name[i] == ':',
{
    if name.contains(':') {
        let i = name.index_of(':');
        assert(name[i] == ':');
    }
}

} // verus!
