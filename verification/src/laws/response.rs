//! What becomes of the response of a model.

use crate::command::OperationCommandView;
use crate::drive::checkpoint::DueCompactionView;
use crate::drive::response::{call_indices, planned_calls, response_command};
use crate::model::event::{HarnessEventView, PlannedEventView};
use crate::model::message::{AgentMessageView, AssistantMessageView, ContentBlockView, StopReason};
use crate::model::session::{
    CheckpointDataView, Continuation, Control, DeferredScopeView, OperationErrorView,
    OperationMetaView, OperationResultRecordView, OperationScopeView, OperationStateView,
    ResultBoundaryView, SummaryTaskView, TerminalStatus, ToolCallView,
};
use crate::model::storage::{
    AddressView, DurableValueView, NewEntryView, NewMessageEntryView, UsageRowView, WriteView,
};
use crate::text::decimal;
use crate::types::ProcedureResultView;
use vstd::prelude::*;

verus! {

/// Everything that settling a response rests on.
pub struct Reply {
    pub lane: Seq<char>,
    pub operation_id: Seq<char>,
    pub intent: OperationStateView,
    pub tip_id: Option<Seq<char>>,
    pub current: OperationStateView,
    pub meta: OperationMetaView,
    pub response: AssistantMessageView,
    pub recovery: bool,
    pub overflow: bool,
    pub due: Option<DueCompactionView>,
    pub retryable: bool,
    pub not_before: u64,
    pub call_ids: Seq<Seq<char>>,
    pub scratch: Seq<AddressView>,
    pub ended_at: u64,
}

/// What settling a response decides.
pub open spec fn decided(reply: Reply) -> Result<OperationCommandView<ProcedureResultView>, Seq<char>> {
    response_command(
        reply.lane,
        reply.operation_id,
        reply.intent,
        reply.tip_id,
        reply.current,
        reply.meta,
        reply.response,
        reply.recovery,
        reply.overflow,
        reply.due,
        reply.retryable,
        reply.not_before,
        reply.call_ids,
        reply.scratch,
        reply.ended_at,
    )
}

/// The entry that an effect reserved for its response.
pub open spec fn reserved_for(intent: OperationStateView) -> Option<Seq<char>> {
    match intent {
        OperationStateView::AssistantEffectPending { response_entry_id, .. } => Some(
            response_entry_id,
        ),
        OperationStateView::DeferredEffectPending { response_entry_id, .. } => Some(
            response_entry_id,
        ),
        _ => None,
    }
}

/// The usage row that an effect reserved.
pub open spec fn booked_under(intent: OperationStateView) -> Seq<char> {
    match intent {
        OperationStateView::AssistantEffectPending { usage_id, .. } => usage_id,
        OperationStateView::DeferredEffectPending { usage_id, .. } => usage_id,
        _ => arbitrary(),
    }
}

/// The control of an effect.
pub open spec fn control_in(current: OperationStateView) -> Control {
    match current {
        OperationStateView::AssistantEffectPending { scope, .. } => scope.control,
        OperationStateView::DeferredEffectPending { scope, .. } => scope.control,
        _ => arbitrary(),
    }
}

/// The scope of the run once a response is its latest.
pub open spec fn scope_with(current: OperationStateView, entry_id: Seq<char>) -> OperationScopeView {
    match current {
        OperationStateView::AssistantEffectPending { scope, .. } => OperationScopeView {
            control: scope.control,
            settings: scope.settings,
            latest_assistant_entry_id: Some(entry_id),
        },
        OperationStateView::DeferredEffectPending { scope, .. } => OperationScopeView {
            control: scope.control,
            settings: scope.settings,
            latest_assistant_entry_id: Some(entry_id),
        },
        _ => arbitrary(),
    }
}

/// Whether a response belongs to an effect that is under way.
pub open spec fn is_expected(reply: Reply) -> bool {
    &&& reserved_for(reply.intent) is Some
    &&& reserved_for(reply.current) is Some
}

/// Whether a response belongs to an effect that was not asked to stop.
pub open spec fn is_wanted(reply: Reply) -> bool {
    is_expected(reply) && control_in(reply.current) == Control::Running
}

/// Whether a response overflowed the context of a generation.
pub open spec fn overflowed(reply: Reply) -> bool {
    reply.current is AssistantEffectPending && reply.overflow
}

/// The writes of a decision.
pub open spec fn writes_in<T>(command: OperationCommandView<T>) -> Seq<WriteView> {
    match command {
        OperationCommandView::Commit { writes, .. } => writes,
        OperationCommandView::Finish { writes, .. } => writes,
        _ => Seq::empty(),
    }
}

/// Whether a decision appends a message to the transcript as the response.
pub open spec fn commits(
    reply: Reply,
    command: OperationCommandView<ProcedureResultView>,
    message: AssistantMessageView,
) -> bool {
    writes_in(command).len() > 0 && writes_in(command)[0] == WriteView::InsertEntry(
        NewEntryView::Message(
            NewMessageEntryView {
                id: reserved_for(reply.intent)->Some_0,
                parent_id: reply.tip_id,
                custom_type: None,
                message: AgentMessageView::Assistant(message),
                terminate: None,
            },
        ),
    )
}

/// Whether a decision goes on with a leaf.
pub open spec fn goes_on<T>(command: OperationCommandView<T>, leaf: OperationStateView) -> bool {
    command matches OperationCommandView::Commit { operation_state, .. } && operation_state == leaf
}

/// The leaf at which a run may finish with a response.
pub open spec fn may_finish_with(reply: Reply) -> OperationStateView {
    OperationStateView::Checkpoint {
        scope: scope_with(reply.current, reserved_for(reply.intent)->Some_0),
        continuation: Continuation::MayFinish { include_final_assistant: true },
        trigger_entry_id: reserved_for(reply.intent)->Some_0,
    }
}

/// Whether a decision fails the run with an error whose message is a text.
pub open spec fn fails_with(
    reply: Reply,
    command: OperationCommandView<ProcedureResultView>,
    text: Seq<char>,
) -> bool {
    let entry_id = reserved_for(reply.intent)->Some_0;
    let error = OperationErrorView { code: "assistant_error"@, message: text, details: None };
    command matches OperationCommandView::Finish { record, result, .. } && record == (
    OperationResultRecordView {
        operation_id: reply.meta.operation_id,
        kind: reply.meta.intent,
        status: TerminalStatus::Failed,
        error: Some(error),
        from_tip_id: reply.meta.source_tip_id,
        tip_id: Some(entry_id),
        started_at: reply.meta.started_at,
        ended_at: reply.ended_at,
    }) && result == (ProcedureResultView::Settled { outcome: record })
}

/// Whether an answer makes a tool call.
pub open spec fn calls_tools(response: AssistantMessageView) -> bool {
    exists|i: int| 0 <= i < response.content.len() && (#[trigger] response.content[i]) is ToolCall
}

/// Whether a response is a complete answer: the request neither failed nor was put
/// off.
pub open spec fn is_complete(reply: Reply) -> bool {
    &&& is_wanted(reply)
    &&& !overflowed(reply)
    &&& reply.response.stop_reason != StopReason::Aborted
    &&& reply.response.stop_reason != StopReason::Deferred
    &&& reply.response.stop_reason != StopReason::Error
}

proof fn lemma_call_indices(content: Seq<ContentBlockView>)
    requires
        content.len() <= usize::MAX,
    ensures
        forall|i: int|
            0 <= i < call_indices(content).len() ==> (#[trigger] call_indices(content)[i])
                < content.len() && content[call_indices(content)[i] as int] is ToolCall,
        forall|i: int, j: int|
            0 <= i < j < call_indices(content).len() ==> (#[trigger] call_indices(content)[i]) < (
            #[trigger] call_indices(content)[j]),
        forall|b: int|
            0 <= b < content.len() && (#[trigger] content[b]) is ToolCall ==> call_indices(
                content,
            ).contains(b as usize),
    decreases content.len(),
{
    if content.len() > 0 {
        let rest = content.drop_last();
        lemma_call_indices(rest);
        let before = call_indices(rest);
        let all = call_indices(content);
        let last = content.len() - 1;
        assert forall|i: int| 0 <= i < all.len() implies (#[trigger] all[i]) < content.len()
            && content[all[i] as int] is ToolCall by {
            if i < before.len() {
                assert(all[i] == before[i]);
                assert(rest[before[i] as int] == content[before[i] as int]);
            }
        }
        assert forall|i: int, j: int| 0 <= i < j < all.len() implies (#[trigger] all[i]) < (
        #[trigger] all[j]) by {
            assert(all[i] == before[i]);
            if j < before.len() {
                assert(all[j] == before[j]);
            }
        }
        assert forall|b: int| 0 <= b < content.len() && (#[trigger] content[b])
            is ToolCall implies all.contains(b as usize) by {
            if b < last {
                assert(rest[b] == content[b]);
                let at = before.index_of(b as usize);
                assert(all[at] == b as usize);
            } else {
                assert(all[before.len() as int] == b as usize);
            }
        }
    }
}

/// A complete answer that calls no tool is appended as it came, and the run may
/// finish with it, whether the model stopped by itself or at its output limit. Only an
/// answer that claims to use tools and calls none fails the run.
pub proof fn law_an_answer_without_calls_may_finish(reply: Reply)
    requires
        is_complete(reply),
        !calls_tools(reply.response),
        reply.response.content.len() <= usize::MAX,
    ensures
        decided(reply) matches Ok(command) && if reply.response.stop_reason
            != StopReason::ToolUse {
            commits(reply, command, reply.response) && goes_on(command, may_finish_with(reply))
        } else {
            commits(
                reply,
                command,
                AssistantMessageView {
                    stop_reason: StopReason::Error,
                    error_message: Some("Provider reported tool use without any tool calls"@),
                    ..reply.response
                },
            ) && fails_with(
                reply,
                command,
                "Provider reported tool use without any tool calls"@,
            )
        },
{
    lemma_call_indices(reply.response.content);
    let indices = call_indices(reply.response.content);
    if indices.len() > 0 {
        assert(reply.response.content[indices[0] as int] is ToolCall);
    }
}

/// The tool calls of a complete answer are run: the answer is appended as it came, and
/// the run goes on with a batch that has one planned call for each block that calls a
/// tool and no other, in the order of the blocks, with the entries reserved for their
/// results in that order too.
pub proof fn law_the_calls_of_an_answer_are_run(reply: Reply, b: int, i: int, j: int)
    requires
        is_complete(reply),
        calls_tools(reply.response),
        reply.response.content.len() <= usize::MAX,
    ensures
        ({
            let content = reply.response.content;
            let entry_id = reserved_for(reply.intent)->Some_0;
            &&& decided(reply) matches Ok(command)
            &&& commits(reply, command, reply.response)
            &&& command matches OperationCommandView::Commit { operation_state, .. }
            &&& operation_state matches OperationStateView::Tools { scope, batch }
            &&& scope == scope_with(reply.current, entry_id)
            &&& batch.assistant_entry_id == entry_id
            &&& match reply.current {
                OperationStateView::AssistantEffectPending { generation_context, .. } => {
                    batch.configuration == generation_context.configuration && batch.turn_id
                        == generation_context.step_id
                },
                OperationStateView::DeferredEffectPending { scope, .. } => batch.configuration
                    == scope.configuration && batch.turn_id == scope.step_id + ":poll:"@ + decimal(
                    scope.poll as nat,
                ),
                _ => false,
            }
            &&& batch.calls.len() > 0
            &&& 0 <= i < batch.calls.len() ==> (batch.calls[i] matches ToolCallView::Planned {
                source_index,
                result_entry_id,
            } && source_index < content.len() && content[source_index as int] is ToolCall
                && result_entry_id == reply.call_ids[i])
            &&& 0 <= i < j < batch.calls.len() ==> batch.calls[i]->Planned_source_index
                < batch.calls[j]->Planned_source_index
            &&& 0 <= b < content.len() && content[b] is ToolCall ==> exists|k: int|
                0 <= k < batch.calls.len() && (#[trigger] batch.calls[k])->Planned_source_index == b
        }),
{
    let content = reply.response.content;
    lemma_call_indices(content);
    let indices = call_indices(content);
    let any = choose|b: int| 0 <= b < content.len() && (#[trigger] content[b]) is ToolCall;
    assert(indices.contains(any as usize));
    let calls = planned_calls(indices, reply.call_ids);
    if 0 <= i < j < calls.len() {
        assert(indices[i] < indices[j]);
    }
    if 0 <= b < content.len() && content[b] is ToolCall {
        let k = indices.index_of(b as usize);
        assert(calls[k]->Planned_source_index == b);
    }
}

/// A generation that failed is tried again if it may be, the error is of a kind that
/// passes or the attempt was interrupted, and attempts are left: as the next attempt of
/// the same step, not before the time that was found. Otherwise the run fails with the
/// error. Either way the response is appended as it came.
pub proof fn law_a_failed_request_is_tried_again_or_fails_the_run(reply: Reply)
    requires
        is_wanted(reply),
        !overflowed(reply),
        reply.response.stop_reason == StopReason::Error,
    ensures
        ({
            let scope = scope_with(reply.current, reserved_for(reply.intent)->Some_0);
            &&& decided(reply) matches Ok(command)
            &&& commits(reply, command, reply.response)
            &&& match reply.current {
                OperationStateView::AssistantEffectPending { generation_context, attempt, .. } if (
                reply.retryable || reply.recovery) && attempt
                    < generation_context.retry_policy.max_attempts => goes_on(
                    command,
                    OperationStateView::AssistantRetryWait {
                        scope,
                        generation_context,
                        next_attempt: (attempt + 1) as u32,
                        not_before: reply.not_before,
                        error_message: match reply.response.error_message {
                            Some(text) => text,
                            None => "Assistant request failed"@,
                        },
                    },
                ),
                _ => fails_with(
                    reply,
                    command,
                    match reply.response.error_message {
                        Some(text) => text,
                        None => if reply.current is AssistantEffectPending {
                            "Assistant"@ + " request ended with "@ + "Error"@
                        } else {
                            "Deferred"@ + " request ended with "@ + "Error"@
                        },
                    },
                ),
            }
        }),
{
}

/// An answer that is put off suspends the run until it is polled, with the handle in
/// the entry of the response. A generation may be put off only to the provider, model
/// and interface that it asked; a poll that is put off again keeps its source.
pub proof fn law_an_answer_that_is_put_off_suspends_the_run(reply: Reply)
    requires
        is_wanted(reply),
        !overflowed(reply),
        reply.response.stop_reason == StopReason::Deferred,
    ensures
        ({
            let entry_id = reserved_for(reply.intent)->Some_0;
            let message = reply.response;
            &&& decided(reply) matches Ok(command)
            &&& match reply.current {
                OperationStateView::AssistantEffectPending { scope, generation_context, .. } => {
                    let model = generation_context.configuration.model;
                    if message.deferred matches Some(handle) && handle.id.len() > 0
                        && handle.provider == model.provider && handle.model_id == model.model_id
                        && handle.api == message.api {
                        commits(reply, command, message) && goes_on(
                            command,
                            OperationStateView::DeferredSuspended {
                                scope: DeferredScopeView {
                                    control: scope.control,
                                    settings: scope.settings,
                                    latest_assistant_entry_id: Some(entry_id),
                                    step_id: generation_context.step_id,
                                    source_entry_id: entry_id,
                                    poll: 0,
                                    configuration: generation_context.configuration,
                                    stream_options: generation_context.stream_options,
                                },
                            },
                        )
                    } else {
                        commits(
                            reply,
                            command,
                            AssistantMessageView {
                                stop_reason: StopReason::Error,
                                error_message: Some(
                                    "Provider returned an invalid deferred handle"@,
                                ),
                                ..message
                            },
                        ) && fails_with(
                            reply,
                            command,
                            "Provider returned an invalid deferred handle"@,
                        )
                    }
                },
                OperationStateView::DeferredEffectPending { scope, .. } => commits(
                    reply,
                    command,
                    message,
                ) && goes_on(
                    command,
                    OperationStateView::DeferredSuspended {
                        scope: DeferredScopeView {
                            control: scope.control,
                            settings: scope.settings,
                            latest_assistant_entry_id: Some(entry_id),
                            step_id: scope.step_id,
                            source_entry_id: scope.source_entry_id,
                            poll: scope.poll,
                            configuration: scope.configuration,
                            stream_options: scope.stream_options,
                        },
                    },
                ),
                _ => false,
            }
        }),
{
}

/// A generation that overflowed its context is compacted away once: the response is
/// appended as an error, and a compaction is decided on, after which the model is asked
/// again what it was asked. Where that was done before, or there is nothing to compact,
/// the run fails.
pub proof fn law_an_overflow_is_compacted_away_once(reply: Reply)
    requires
        is_wanted(reply),
        overflowed(reply),
        reply.response.stop_reason != StopReason::Aborted,
    ensures
        ({
            let entry_id = reserved_for(reply.intent)->Some_0;
            let text = match reply.response.error_message {
                Some(text) => text,
                None => "Assistant request exceeded the context window"@,
            };
            let context = reply.current->AssistantEffectPending_generation_context;
            &&& decided(reply) matches Ok(command)
            &&& commits(
                reply,
                command,
                AssistantMessageView {
                    stop_reason: StopReason::Error,
                    error_message: Some(text),
                    ..reply.response
                },
            )
            &&& if context.overflow_recovery_used || reply.due is None {
                fails_with(reply, command, text)
            } else {
                let due = reply.due->Some_0;
                goes_on(
                    command,
                    OperationStateView::SummaryDeciding {
                        scope: scope_with(reply.current, entry_id),
                        task: SummaryTaskView {
                            task_id: due.task_id,
                            reason: Some("overflow"@),
                            custom_instructions: None,
                            boundary: ResultBoundaryView::ResumeCheckpoint {
                                resume_after: CheckpointDataView {
                                    continuation: Continuation::NeedAssistant {
                                        overflow_recovery_used: true,
                                    },
                                    trigger_entry_id: context.trigger_entry_id,
                                },
                            },
                        },
                    },
                ) && writes_in(command).contains(
                    WriteView::SetValue {
                        address: AddressView::OperationPreparation {
                            operation_id: reply.operation_id,
                            task_id: due.task_id,
                        },
                        value: DurableValueView::Preparation(due.preparation),
                    },
                )
            }
        }),
{
    if let Ok(command) = decided(reply) {
        let context = reply.current->AssistantEffectPending_generation_context;
        if !context.overflow_recovery_used && reply.due is Some {
            assert(writes_in(command)[4] == (WriteView::SetValue {
                address: AddressView::OperationPreparation {
                    operation_id: reply.operation_id,
                    task_id: reply.due->Some_0.task_id,
                },
                value: DurableValueView::Preparation(reply.due->Some_0.preparation),
            }));
        }
    }
}

/// Whatever an effect comes back with after it was asked to stop, it is appended as
/// aborted, and the run goes where it may finish. An aborted response that no one asked
/// for is refused.
pub proof fn law_a_request_to_stop_overrules_the_response(reply: Reply)
    requires
        is_expected(reply),
    ensures
        control_in(reply.current) is CancelRequested ==> (decided(reply) matches Ok(command)
            && commits(
            reply,
            command,
            AssistantMessageView {
                stop_reason: StopReason::Aborted,
                error_message: Some(
                    match reply.response.error_message {
                        Some(text) => text,
                        None => if reply.current is AssistantEffectPending {
                            "Assistant"@ + " request was cancelled"@
                        } else {
                            "Deferred"@ + " request was cancelled"@
                        },
                    },
                ),
                ..reply.response
            },
        ) && goes_on(command, may_finish_with(reply))),
        is_wanted(reply) && reply.response.stop_reason == StopReason::Aborted ==> decided(reply)
            is Err,
        is_wanted(reply) && reply.response.stop_reason != StopReason::Aborted ==> decided(reply)
            is Ok,
{
}

/// Whatever becomes of a response, it is stored in one commit: it is appended behind
/// the tip under the entry reserved for it, with its content and usage as they came; its
/// usage is booked under the row reserved for it; it is the tip of the lane and of
/// storage; and its frames are dropped. The entry and the usage are announced, and the
/// end of the run if it fails.
pub proof fn law_a_response_is_stored_in_one_commit(reply: Reply)
    requires
        is_expected(reply),
        decided(reply) is Ok,
    ensures
        ({
            let command = decided(reply)->Ok_0;
            let writes = writes_in(command);
            let entry_id = reserved_for(reply.intent)->Some_0;
            let row = UsageRowView {
                id: booked_under(reply.intent),
                seq: 0,
                usage: reply.response.usage,
                entry_id: Some(entry_id),
                adjustment: false,
                details: None,
            };
            &&& writes.len() > 3
            &&& writes[0] matches WriteView::InsertEntry(entry)
            &&& entry matches NewEntryView::Message(made)
            &&& made.message matches AgentMessageView::Assistant(message)
            &&& commits(reply, command, message)
            &&& message == AssistantMessageView {
                stop_reason: message.stop_reason,
                error_message: message.error_message,
                ..reply.response
            }
            &&& writes[1] == WriteView::InsertUsage(row)
            &&& writes[2] == (WriteView::SetValue {
                address: AddressView::BranchTip { lane: reply.lane },
                value: DurableValueView::Tip(Some(entry_id)),
            })
            &&& match command {
                OperationCommandView::Commit { lane, result, events, .. } => {
                    &&& lane matches Some(patch)
                    &&& patch.tip_id == Some(Some(entry_id))
                    &&& patch.configuration is None
                    &&& patch.inbox is None
                    &&& result == ProcedureResultView::Continue
                    &&& writes[3] == (WriteView::DeleteList {
                        address: AddressView::PendingAssistantFrames {
                            operation_id: reply.operation_id,
                            response_entry_id: entry_id,
                        },
                    })
                    &&& events == seq![
                        PlannedEventView::Added {
                            entry,
                            write_index: 0,
                            lane: reply.lane,
                            recovery: Some(reply.recovery),
                        },
                        PlannedEventView::Ledger { row, write_index: 1, lane: reply.lane },
                    ]
                },
                OperationCommandView::Finish { lane, record, events, .. } => {
                    &&& lane matches Some(patch)
                    &&& patch.tip_id == Some(Some(entry_id))
                    &&& patch.configuration is None
                    &&& patch.inbox is None
                    &&& record.status == TerminalStatus::Failed
                    &&& events == seq![
                        PlannedEventView::Added {
                            entry,
                            write_index: 0,
                            lane: reply.lane,
                            recovery: Some(reply.recovery),
                        },
                        PlannedEventView::Ledger { row, write_index: 1, lane: reply.lane },
                        PlannedEventView::Ready(
                            HarnessEventView::RunEnd {
                                lane: reply.lane,
                                run_id: reply.operation_id,
                                from_tip_id: reply.meta.source_tip_id,
                                tip_id: Some(entry_id),
                                ended_at: reply.ended_at,
                                status: TerminalStatus::Failed,
                                error: record.error,
                                recovery: None,
                            },
                        ),
                    ]
                },
                _ => false,
            }
        }),
{
    if let OperationCommandView::Finish { events, record, .. } = decided(reply)->Ok_0 {
        let entry_id = reserved_for(reply.intent)->Some_0;
        assert(events =~= seq![
            events[0],
            events[1],
            PlannedEventView::Ready(
                HarnessEventView::RunEnd {
                    lane: reply.lane,
                    run_id: reply.operation_id,
                    from_tip_id: reply.meta.source_tip_id,
                    tip_id: Some(entry_id),
                    ended_at: reply.ended_at,
                    status: TerminalStatus::Failed,
                    error: record.error,
                    recovery: None,
                },
            ),
        ]);
    }
}

} // verus!
