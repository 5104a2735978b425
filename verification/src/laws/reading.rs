//! What is read of hooks, sources, clocks and storage.

use crate::drive::checkpoint::added_by;
use crate::drive::dispatch::{driven, step_of, DriveStepView};
use crate::drive::finish::asked_follow_up;
use crate::drive::generation::{asked_options, asked_text, unavailable};
use crate::drive::recovery::effect_model;
use crate::drive::response::{hex_value, time_digits, uuid_time};
use crate::drive::retry::{resume_time, terms_of};
use crate::drive::structural_run::{
    context_in, failed_attempt, undeferred, StructuralAttemptView, StructuralOutcomeView,
    SummaryErrorCode,
};
use crate::drive::tool_placement::{batch_assistant, block_at, dangling, row_for};
use crate::json::{
    elements_of, equal_values, flag_value, member_of, members_of, null_of, text_of, text_value,
};
use crate::lane::accept::{skill_named, template_named, user_message};
use crate::lane::snapshot::{
    captured, shown_operation, shown_tool, shown_tools, snapshot_entry, staged_result, ToolReadView,
};
use crate::laws::placement::block_of;
use crate::model::event::{DeferredSnapshotView, LaneSnapshotToolView, RetrySnapshot};
use crate::model::message::{
    AgentMessageView, AssistantMessageView, ContentBlockView, ToolCallBlockView,
    ToolResultContentView, UserContentView, UserMessageView,
};
use crate::model::session::{
    ErrorDetailsView, OperationIntentView, OperationResultRecordView, OperationStateView,
    OperationView, PendingEntryView, StreamOptionsView, ToolCallView,
};
use crate::model::storage::{CommitResultView, EntryView, SessionStatsView, UsageRowView};
use crate::same::equal_states;
use crate::text::decimal;
use crate::transcript::{is_json_child, json_parent, seq_at};
use crate::types::{
    DriveOutcomeView, LaneRuntimeStateView, PendingRowView, ProcedureResultView, PromptTemplateView,
    SkillView,
};
use vstd::prelude::*;

verus! {

/// What hooks ask for is read under its own key: messages before a run, if they are a list; a
/// follow-up at its end, if it is text, as a message of the user; options of a request, unless
/// they are null.
pub proof fn law_hooks_are_read_by_their_keys(
    hook: serde_json::Value,
    key: Seq<char>,
    entry_id: Seq<char>,
    timestamp: u64,
)
    ensures
        added_by(hook) == (match member_of(hook, "messages"@) {
            Some(list) => match elements_of(list) {
                Some(values) => values,
                None => Seq::empty(),
            },
            None => Seq::empty(),
        }),
        asked_text(hook, key) == (match member_of(hook, key) {
            Some(value) => text_of(value),
            None => None,
        }),
        match member_of(hook, "followUp"@) {
            Some(value) => match text_of(value) {
                Some(text) => asked_follow_up(hook, entry_id, timestamp) matches Some(follow_up)
                    && follow_up.entry_id == entry_id && follow_up.message
                    == AgentMessageView::User(
                    UserMessageView { content: UserContentView::Text(text), timestamp },
                ),
                None => asked_follow_up(hook, entry_id, timestamp) is None,
            },
            None => asked_follow_up(hook, entry_id, timestamp) is None,
        },
        asked_options(hook) == (match member_of(hook, "streamOptions"@) {
            Some(patch) => if null_of(patch) {
                None
            } else {
                Some(patch)
            },
            None => None,
        }),
{
}

/// A step is not tried again before its delay is over, and never at a time that is earlier
/// than now. A longer delay never ends earlier.
pub proof fn law_a_retry_waits_for_its_delay(delay_ms: u64, longer_ms: u64, now: u64)
    ensures
        now + delay_ms <= u64::MAX ==> resume_time(delay_ms, now) == now + delay_ms,
        now + delay_ms > u64::MAX ==> resume_time(delay_ms, now) == u64::MAX,
        resume_time(delay_ms, now) >= now,
        delay_ms <= longer_ms ==> resume_time(delay_ms, now) <= resume_time(longer_ms, now),
{
}

/// What the delay of an effect rests on: the policy that it was taken up with, and which
/// attempt it is. Nothing but a generation and a summary under way is tried again.
pub proof fn law_a_retry_goes_by_the_policy_of_its_effect(effect: OperationStateView)
    ensures
        match effect {
            OperationStateView::AssistantEffectPending { generation_context, attempt, .. } => {
                terms_of(effect) == Some((generation_context.retry_policy, attempt))
            },
            OperationStateView::SummaryEffectPending { summary_context, attempt, .. } => terms_of(
                effect,
            ) == Some((summary_context.retry_policy, attempt)),
            _ => terms_of(effect) is None,
        },
{
}

/// The value of a hexadecimal digit.
pub open spec fn nibble(byte: u8) -> int {
    if 0x30 <= byte <= 0x39 {
        byte - 0x30
    } else if 0x61 <= byte <= 0x66 {
        byte - 0x61 + 10
    } else if 0x41 <= byte <= 0x46 {
        byte - 0x41 + 10
    } else {
        -1
    }
}

proof fn lemma_hex(digits: Seq<u8>)
    ensures
        hex_value(digits) is Some <==> forall|i: int|
            0 <= i < digits.len() ==> nibble(#[trigger] digits[i]) >= 0,
        digits.len() > 0 && hex_value(digits) is Some ==> hex_value(digits.drop_last()) is Some
            && hex_value(digits)->Some_0 == hex_value(digits.drop_last())->Some_0 * 16 + nibble(
            digits.last(),
        ),
    decreases digits.len(),
{
    if digits.len() > 0 {
        let rest = digits.drop_last();
        lemma_hex(rest);
        let last = digits.len() - 1;
        assert(digits[last] == digits.last());
        assert forall|i: int| 0 <= i < rest.len() implies rest[i] == #[trigger] digits[i] by {}
    }
}

/// The value of the first character of an id. A plus sign stands for nothing.
pub open spec fn leading(byte: u8) -> int {
    if byte == 0x2b {
        0
    } else {
        nibble(byte)
    }
}

/// The time in an id is the number that its first eight and, behind one character, next four
/// digits write in base sixteen. There is none just if the id is too short or one of them is
/// no such digit; a plus sign may stand for the first.
pub proof fn law_an_id_holds_its_time(bytes: Seq<u8>)
    ensures
        uuid_time(bytes) is Some <==> bytes.len() >= 13 && leading(bytes[0]) >= 0 && forall|i: int|
            0 < i < 13 && i != 8 ==> nibble(#[trigger] bytes[i]) >= 0,
        uuid_time(bytes) matches Some(time) ==> time == leading(bytes[0]) * 0x100000000000 + nibble(
            bytes[1],
        ) * 0x10000000000 + nibble(bytes[2]) * 0x1000000000 + nibble(bytes[3]) * 0x100000000
            + nibble(bytes[4]) * 0x10000000 + nibble(bytes[5]) * 0x1000000 + nibble(bytes[6])
            * 0x100000 + nibble(bytes[7]) * 0x10000 + nibble(bytes[9]) * 0x1000 + nibble(bytes[10])
            * 0x100 + nibble(bytes[11]) * 0x10 + nibble(bytes[12]),
{
    if bytes.len() >= 13 {
        let all = time_digits(bytes);
        assert(all.len() == 12);
        assert forall|i: int| 0 <= i < 12 implies #[trigger] all[i] == bytes[if i < 8 {
            i
        } else {
            i + 1
        }] by {}
        let skipped: int = if bytes[0] == 0x2b {
            1
        } else {
            0
        };
        let digits = all.skip(skipped);
        assert(digits =~= if skipped == 1 {
            all.drop_first()
        } else {
            all
        });
        assert forall|i: int| skipped <= i < 12 implies #[trigger] all[i] == digits[i - skipped] by {}
        lemma_hex(digits);
        if hex_value(digits) is Some {
            assert forall|i: int| skipped <= i < 13 && i != 8 implies nibble(#[trigger] bytes[i])
                >= 0 by {
                let place: int = if i < 8 {
                    i
                } else {
                    i - 1
                };
                assert(all[place] == bytes[i]);
                assert(digits[place - skipped] == bytes[i]);
            }
            lemma_hex_prefix(digits, 10);
            lemma_hex_prefix(digits, 9);
            lemma_hex_prefix(digits, 8);
            lemma_hex_prefix(digits, 7);
            lemma_hex_prefix(digits, 6);
            lemma_hex_prefix(digits, 5);
            lemma_hex_prefix(digits, 4);
            lemma_hex_prefix(digits, 3);
            lemma_hex_prefix(digits, 2);
            lemma_hex_prefix(digits, 1);
            lemma_hex_prefix(digits, 0);
            if skipped == 0 {
                lemma_hex_prefix(digits, 11);
            }
            assert(digits.take(12 - skipped) =~= digits);
            assert(digits.take(0) =~= Seq::empty());
        } else {
            let bad = choose|i: int|
                0 <= i < digits.len() && nibble(#[trigger] digits[i]) < 0;
            let place = bad + skipped;
            assert(all[place] == digits[bad]);
            assert(all[place] == bytes[if place < 8 {
                place
            } else {
                place + 1
            }]);
        }
    }
}

proof fn lemma_hex_prefix(digits: Seq<u8>, n: int)
    requires
        0 <= n < digits.len(),
        hex_value(digits) is Some,
    ensures
        hex_value(digits.take(n)) is Some,
        hex_value(digits.take(n + 1)) is Some,
        hex_value(digits.take(n + 1))->Some_0 == hex_value(digits.take(n))->Some_0 * 16 + nibble(
            digits[n],
        ),
{
    lemma_hex(digits);
    lemma_hex(digits.take(n));
    lemma_hex(digits.take(n + 1));
    assert(digits.take(n + 1).drop_last() =~= digits.take(n));
}

/// What an effect works with: its model, and of a summary its context; a poll and a summary
/// are never put off.
pub proof fn law_an_effect_works_with_what_it_was_taken_up_with(
    effect: OperationStateView,
    options: StreamOptionsView,
    code: SummaryErrorCode,
    message: Seq<char>,
    last_retryable: Option<bool>,
    outcome: StructuralOutcomeView,
)
    ensures
        match effect {
            OperationStateView::AssistantEffectPending { generation_context, .. } => effect_model(
                effect,
            ) == Some(generation_context.configuration.model),
            OperationStateView::DeferredEffectPending { scope, .. } => effect_model(effect) == Some(
                scope.configuration.model,
            ),
            _ => effect_model(effect) is None,
        },
        match effect {
            OperationStateView::SummaryReady { summary_context, .. } => context_in(effect) == Some(
                summary_context,
            ),
            OperationStateView::SummaryEffectPending { summary_context, .. } => context_in(effect)
                == Some(summary_context),
            OperationStateView::SummaryRetryWait { summary_context, .. } => context_in(effect)
                == Some(summary_context),
            _ => context_in(effect) is None,
        },
        undeferred(options) == (StreamOptionsView {
            deferred: Some(flag_value(false)),
            ..options
        }),
        failed_attempt(code, message, last_retryable) matches StructuralAttemptView::Error {
            error,
            retryable,
        } && error.message == message && error.details is None && error.code == (match code {
            SummaryErrorCode::Aborted => "aborted"@,
            SummaryErrorCode::SummarizationFailed => "summarization_failed"@,
        }) && (retryable <==> last_retryable == Some(true)),
        outcome.records_usage() <==> match outcome {
            StructuralOutcomeView::Compaction { result, from_hook, .. } => from_hook && result.usage
                is Some,
            StructuralOutcomeView::BranchSummary { result, from_hook, .. } => from_hook
                && result.usage is Some,
            _ => false,
        },
{
}

proof fn lemma_dangling(assistant: AssistantMessageView, calls: Seq<ToolCallView>)
    ensures
        dangling(assistant, calls) is None <==> forall|i: int|
            0 <= i < calls.len() ==> names_block(assistant, #[trigger] calls[i]),
    decreases calls.len(),
{
    if calls.len() > 0 {
        let rest = calls.drop_last();
        lemma_dangling(assistant, rest);
        let last = calls.len() - 1;
        assert(calls[last] == calls.last());
        assert forall|i: int| 0 <= i < rest.len() implies rest[i] == #[trigger] calls[i] by {}
    }
}

/// Whether a call names a block of an answer that calls a tool.
pub open spec fn names_block(assistant: AssistantMessageView, call: ToolCallView) -> bool {
    block_of(call) < assistant.content.len() && assistant.content[block_of(call) as int] is ToolCall
}

/// The source of a batch is the assistant message of its entry. Every call has to name a block
/// of it that calls a tool, and is that block.
pub proof fn law_calls_are_blocks_of_their_answer(
    entry: Option<EntryView>,
    assistant: AssistantMessageView,
    calls: Seq<ToolCallView>,
    index: usize,
    block: ToolCallBlockView,
)
    ensures
        batch_assistant(entry) == Some(assistant) <==> (entry matches Some(EntryView::Message(made))
            && made.message == AgentMessageView::Assistant(assistant)),
        dangling(assistant, calls) is None <==> forall|i: int|
            0 <= i < calls.len() ==> names_block(assistant, #[trigger] calls[i]),
        block_at(assistant, index) == Some(block) <==> index < assistant.content.len()
            && assistant.content[index as int] == ContentBlockView::ToolCall(block),
{
    lemma_dangling(assistant, calls);
}

/// What a snapshot shows of an operation: what it was accepted as, the retry that it waits for,
/// the handle of an answer that was put off, and what came in of a response that it collects.
/// For that it looks at the entry of the handle, or of the answer whose tools run.
pub proof fn law_a_snapshot_shows_the_operation_as_it_is(
    operation: OperationView,
    entry: Option<EntryView>,
    partial: Option<AssistantMessageView>,
    reads: Seq<ToolReadView>,
)
    ensures
        shown_operation(operation, entry, partial, reads) matches Ok(shown) ==> {
            &&& shown.id == operation.meta.operation_id
            &&& shown.kind == (match operation.meta.intent {
                OperationIntentView::Run { .. } => "run"@,
                OperationIntentView::Compaction { .. } => "compaction"@,
                OperationIntentView::Navigation { .. } => "navigation"@,
            })
            &&& shown.status == (if operation.state.control() is CancelRequested {
                "aborting"@
            } else {
                "open"@
            })
            &&& shown.started_at == operation.meta.started_at
            &&& shown.from_tip_id == operation.meta.source_tip_id
            &&& shown.retry == (match operation.state {
                OperationStateView::AssistantRetryWait {
                    generation_context,
                    next_attempt,
                    not_before,
                    ..
                } => Some(
                    RetrySnapshot {
                        attempt: next_attempt,
                        max_attempts: generation_context.retry_policy.max_attempts,
                        next_attempt_at: not_before,
                    },
                ),
                OperationStateView::SummaryRetryWait {
                    summary_context,
                    next_attempt,
                    not_before,
                    ..
                } => Some(
                    RetrySnapshot {
                        attempt: next_attempt,
                        max_attempts: summary_context.retry_policy.max_attempts,
                        next_attempt_at: not_before,
                    },
                ),
                _ => None,
            })
            &&& shown.streaming_message == (match operation.state {
                OperationStateView::AssistantEffectPending { .. } => partial,
                OperationStateView::DeferredEffectPending { .. } => partial,
                _ => None,
            })
            &&& match operation.state {
                OperationStateView::DeferredSuspended { scope } => shown.deferred == handle_in(
                    entry,
                    scope.poll,
                ),
                OperationStateView::DeferredEffectPending { scope, .. } => shown.deferred
                    == handle_in(entry, scope.poll),
                _ => shown.deferred is None,
            }
            &&& !(operation.state is Tools) ==> shown.running_tools.len() == 0
        },
        snapshot_entry(operation.state) == (match operation.state {
            OperationStateView::DeferredSuspended { scope } => Some(scope.source_entry_id),
            OperationStateView::DeferredEffectPending { scope, .. } => Some(scope.source_entry_id),
            OperationStateView::Tools { batch, .. } => Some(batch.assistant_entry_id),
            _ => None,
        }),
{
}

/// The handle of an answer that was put off, in the entry that has it.
pub open spec fn handle_in(entry: Option<EntryView>, poll: u64) -> Option<DeferredSnapshotView> {
    match entry {
        Some(EntryView::Message(made)) => match made.message {
            AgentMessageView::Assistant(assistant) => match assistant.deferred {
                Some(handle) => Some(DeferredSnapshotView { handle, poll }),
                None => None,
            },
            _ => None,
        },
        _ => None,
    }
}

/// What a snapshot shows of a call: of one that runs its latest output, of one that has its
/// outcome the result that is staged, each with the arguments that were stored, or else with
/// those of the model. Calls that were planned or are completed are not shown.
pub proof fn law_a_snapshot_shows_a_call_as_it_is(
    call: ToolCallView,
    block: ToolCallBlockView,
    read: ToolReadView,
    staged: Option<PendingEntryView>,
)
    ensures
        ({
            let args = match read.args {
                Some(args) => args,
                None => block.arguments,
            };
            match call {
                ToolCallView::EffectPending { .. } => shown_tool(call, block, read) == Some(
                    LaneSnapshotToolView::Running {
                        tool_call_id: block.id,
                        tool_name: block.name,
                        args,
                        result: read.checkpoint,
                    },
                ),
                ToolCallView::OutcomeReady { .. } => match read.staged {
                    Some(outcome) => shown_tool(call, block, read) == Some(
                        LaneSnapshotToolView::Settled {
                            tool_call_id: block.id,
                            tool_name: block.name,
                            args,
                            result: outcome.shown,
                            is_error: outcome.message.is_error,
                        },
                    ),
                    None => shown_tool(call, block, read) is None,
                },
                _ => shown_tool(call, block, read) is None,
            }
        }),
        staged_result(staged) == (match staged {
            Some(PendingEntryView::Message { payload: AgentMessageView::ToolResult(message) }) => {
                Some(message)
            },
            _ => None,
        }),
{
}

/// A snapshot shows the path from the tip, from its oldest entry on, the last result if there
/// was an operation, and what it was given of stats and faults. It cannot be taken of a lane
/// whose last operation has no result.
pub proof fn law_a_snapshot_shows_the_path_and_the_last_result(
    lane: Seq<char>,
    state: LaneRuntimeStateView,
    scanned: Seq<EntryView>,
    rows: Seq<PendingRowView>,
    last_result: Option<OperationResultRecordView>,
    stats: SessionStatsView,
    entry: Option<EntryView>,
    partial: Option<AssistantMessageView>,
    reads: Seq<ToolReadView>,
    faulted: bool,
    i: int,
)
    ensures
        ({
            let taken = captured(
                lane,
                state,
                scanned,
                rows,
                last_result,
                stats,
                entry,
                partial,
                reads,
                faulted,
            );
            &&& state.last_operation_id is Some && last_result is None ==> taken is Err
            &&& taken matches Ok(snapshot) ==> {
                &&& snapshot.lane == lane
                &&& snapshot.stats == stats
                &&& snapshot.faulted == faulted
                &&& snapshot.last_result == if state.last_operation_id is Some {
                    last_result
                } else {
                    None
                }
                &&& snapshot.transcript.len() == if state.tip_id is Some {
                    scanned.len()
                } else {
                    0
                }
                &&& 0 <= i < snapshot.transcript.len() ==> snapshot.transcript[i]
                    == scanned[scanned.len() - 1 - i]
            }
        }),
{
}

/// What a drive does after a procedure: it rests with a result or a wait, and otherwise goes
/// on. An operation that runs and did not move would go round in circles, and is stuck. A
/// drive is of the operation that owns the lane.
pub proof fn law_a_drive_rests_or_moves(
    before: OperationStateView,
    after: OperationStateView,
    outcome: OperationResultRecordView,
    wait: DriveOutcomeView,
    state: LaneRuntimeStateView,
    operation_id: Seq<char>,
)
    ensures
        step_of(before, ProcedureResultView::Settled { outcome }, after) == DriveStepView::Rest(
            DriveOutcomeView::Settled { outcome },
        ),
        step_of(before, ProcedureResultView::Waiting { outcome: wait }, after)
            == DriveStepView::Rest(wait),
        step_of(before, ProcedureResultView::Continue, after) is Stuck <==> equal_states(
            after,
            before,
        ) && !(after.control() is CancelRequested),
        step_of(before, ProcedureResultView::Continue, after) is Rest ==> false,
        driven(state, operation_id) == (match state.operation {
            Some(operation) => if operation.meta.operation_id == operation_id {
                Some(operation)
            } else {
                None
            },
            None => None,
        }),
{
}

/// Entries in JSON are chained by their ids: each refers to the one before it that has an id,
/// and the first to the parent that is given; nothing else of them changes.
pub proof fn law_json_entries_are_chained_by_their_ids(
    parent_id: Option<Seq<char>>,
    entries: Seq<serde_json::Value>,
    entry: serde_json::Value,
    child: serde_json::Value,
)
    ensures
        json_parent(parent_id, entries, 0) == parent_id,
        json_parent(parent_id, entries.push(entry), (entries.len() + 1) as nat) == (
        match member_of(entry, "id"@) {
            Some(id) => match text_of(id) {
                Some(id) => Some(id),
                None => json_parent(parent_id, entries, entries.len()),
            },
            None => json_parent(parent_id, entries, entries.len()),
        }),
        is_json_child(child, entry, parent_id) ==> match members_of(entry) {
            Some(members) => members_of(child) == Some(
                members.insert("parentId"@, text_value(parent_id)),
            ),
            None => child == entry,
        },
{
    lemma_parent_prefix(parent_id, entries, entry, entries.len());
}

proof fn lemma_parent_prefix(
    parent_id: Option<Seq<char>>,
    entries: Seq<serde_json::Value>,
    entry: serde_json::Value,
    n: nat,
)
    requires
        n <= entries.len(),
    ensures
        json_parent(parent_id, entries.push(entry), n) == json_parent(parent_id, entries, n),
    decreases n,
{
    if n > 0 {
        lemma_parent_prefix(parent_id, entries, entry, (n - 1) as nat);
    }
}

/// A skill and a template are found by their names, the first of each, and not found just if
/// there is none.
pub proof fn law_skills_and_templates_are_found_by_name(
    skills: Seq<SkillView>,
    templates: Seq<PromptTemplateView>,
    name: Seq<char>,
)
    ensures
        match skill_named(skills, name) {
            Some(skill) => skill.name == name && exists|i: int|
                0 <= i < skills.len() && #[trigger] skills[i] == skill && forall|j: int|
                    0 <= j < i ==> (#[trigger] skills[j]).name != name,
            None => forall|j: int| 0 <= j < skills.len() ==> (#[trigger] skills[j]).name != name,
        },
        match template_named(templates, name) {
            Some(template) => template.name == name && exists|i: int|
                0 <= i < templates.len() && #[trigger] templates[i] == template && forall|j: int|
                    0 <= j < i ==> (#[trigger] templates[j]).name != name,
            None => forall|j: int|
                0 <= j < templates.len() ==> (#[trigger] templates[j]).name != name,
        },
{
    lemma_skill(skills, name);
    lemma_template(templates, name);
}

proof fn lemma_skill(skills: Seq<SkillView>, name: Seq<char>)
    ensures
        match skill_named(skills, name) {
            Some(skill) => skill.name == name && exists|i: int|
                0 <= i < skills.len() && #[trigger] skills[i] == skill && forall|j: int|
                    0 <= j < i ==> (#[trigger] skills[j]).name != name,
            None => forall|j: int| 0 <= j < skills.len() ==> (#[trigger] skills[j]).name != name,
        },
    decreases skills.len(),
{
    if skills.len() > 0 {
        let rest = skills.drop_last();
        lemma_skill(rest, name);
        let last = skills.len() - 1;
        assert(skills[last] == skills.last());
        assert forall|j: int| 0 <= j < rest.len() implies rest[j] == #[trigger] skills[j] by {}
        match skill_named(rest, name) {
            Some(skill) => {
                let i = choose|i: int|
                    0 <= i < rest.len() && #[trigger] rest[i] == skill && forall|j: int|
                        0 <= j < i ==> (#[trigger] rest[j]).name != name;
                assert(skills[i] == skill);
                assert forall|j: int| 0 <= j < i implies (#[trigger] skills[j]).name != name by {
                    assert(rest[j] == skills[j]);
                }
            },
            None => {
                assert forall|j: int| 0 <= j < last implies (#[trigger] skills[j]).name
                    != name by {
                    assert(rest[j] == skills[j]);
                }
            },
        }
    }
}

proof fn lemma_template(templates: Seq<PromptTemplateView>, name: Seq<char>)
    ensures
        match template_named(templates, name) {
            Some(template) => template.name == name && exists|i: int|
                0 <= i < templates.len() && #[trigger] templates[i] == template && forall|j: int|
                    0 <= j < i ==> (#[trigger] templates[j]).name != name,
            None => forall|j: int|
                0 <= j < templates.len() ==> (#[trigger] templates[j]).name != name,
        },
    decreases templates.len(),
{
    if templates.len() > 0 {
        let rest = templates.drop_last();
        lemma_template(rest, name);
        let last = templates.len() - 1;
        assert(templates[last] == templates.last());
        assert forall|j: int| 0 <= j < rest.len() implies rest[j] == #[trigger] templates[j] by {}
        match template_named(rest, name) {
            Some(template) => {
                let i = choose|i: int|
                    0 <= i < rest.len() && #[trigger] rest[i] == template && forall|j: int|
                        0 <= j < i ==> (#[trigger] rest[j]).name != name;
                assert(templates[i] == template);
                assert forall|j: int| 0 <= j < i implies (#[trigger] templates[j]).name
                    != name by {
                    assert(rest[j] == templates[j]);
                }
            },
            None => {
                assert forall|j: int| 0 <= j < last implies (#[trigger] templates[j]).name
                    != name by {
                    assert(rest[j] == templates[j]);
                }
            },
        }
    }
}

/// A message of the user holds its blocks and the time that it was made.
pub proof fn law_a_message_of_the_user_holds_its_blocks(
    blocks: Seq<ToolResultContentView>,
    timestamp: u64,
)
    ensures
        user_message(blocks, timestamp) == AgentMessageView::User(
            UserMessageView { content: UserContentView::Blocks(blocks), timestamp },
        ),
{
}

/// What a snapshot shows of a call that it can find: nothing of one that was planned or is
/// completed.
pub open spec fn shown_in(
    assistant: AssistantMessageView,
    call: ToolCallView,
    read: ToolReadView,
) -> Option<LaneSnapshotToolView> {
    match call {
        ToolCallView::Planned { .. } => None,
        ToolCallView::Completed { .. } => None,
        _ => match assistant.content[block_of(call) as int] {
            ContentBlockView::ToolCall(block) => shown_tool(call, block, read),
            _ => None,
        },
    }
}

/// Whether a snapshot has to find the block of a call.
pub open spec fn under_way(call: ToolCallView) -> bool {
    call is EffectPending || call is OutcomeReady
}

proof fn lemma_shown_tools(
    assistant: AssistantMessageView,
    calls: Seq<ToolCallView>,
    reads: Seq<ToolReadView>,
    n: nat,
)
    requires
        n <= calls.len(),
    ensures
        match shown_tools(assistant, calls, reads, n) {
            Ok(tools) => {
                &&& forall|i: int|
                    0 <= i < n && under_way(#[trigger] calls[i]) ==> names_block(
                        assistant,
                        calls[i],
                    )
                &&& forall|i: int|
                    0 <= i < n ==> (shown_in(assistant, #[trigger] calls[i], reads[i]) matches Some(
                        tool,
                    ) ==> tools.contains(tool))
                &&& forall|t: int| 0 <= t < tools.len() ==> is_shown(
                    assistant,
                    calls,
                    reads,
                    n as int,
                    #[trigger] tools[t],
                )
                &&& tools.len() <= n
            },
            Err(_) => exists|i: int|
                0 <= i < n && under_way(#[trigger] calls[i]) && !names_block(assistant, calls[i]),
        },
    decreases n,
{
    if n > 0 {
        let m = (n - 1) as nat;
        lemma_shown_tools(assistant, calls, reads, m);
        if let Ok(before) = shown_tools(assistant, calls, reads, m) {
            assert(under_way(calls[m as int]) || !under_way(calls[m as int]));
            if let Ok(tools) = shown_tools(assistant, calls, reads, n) {
                assert forall|t: int| 0 <= t < tools.len() implies is_shown(
                    assistant,
                    calls,
                    reads,
                    n as int,
                    #[trigger] tools[t],
                ) by {
                    if t < before.len() {
                        assert(is_shown(assistant, calls, reads, m as int, before[t]));
                        let i = choose|i: int|
                            0 <= i < m && shown_in(assistant, #[trigger] calls[i], reads[i])
                                == Some(before[t]);
                        assert(shown_in(assistant, calls[i], reads[i]) == Some(tools[t]));
                    } else {
                        assert(shown_in(assistant, calls[m as int], reads[m as int]) == Some(
                            tools[t],
                        ));
                    }
                }
                assert forall|i: int| 0 <= i < n implies (shown_in(
                    assistant,
                    #[trigger] calls[i],
                    reads[i],
                ) matches Some(tool) ==> tools.contains(tool)) by {
                    if let Some(tool) = shown_in(assistant, calls[i], reads[i]) {
                        if i < m {
                            assert(before.contains(tool));
                            let t = choose|t: int| 0 <= t < before.len() && before[t] == tool;
                            assert(tools[t] == tool);
                        } else {
                            assert(tools[before.len() as int] == tool);
                        }
                    }
                }
            }
        }
    }
}

/// Whether one of the first `n` calls is shown as a tool.
pub open spec fn is_shown(
    assistant: AssistantMessageView,
    calls: Seq<ToolCallView>,
    reads: Seq<ToolReadView>,
    n: int,
    tool: LaneSnapshotToolView,
) -> bool {
    exists|i: int|
        0 <= i < n && shown_in(assistant, #[trigger] calls[i], reads[i]) == Some(tool)
}

/// While tools run a snapshot shows every call that is under way, and no other. It cannot be
/// taken just if such a call names no block of the answer that calls a tool.
pub proof fn law_a_snapshot_shows_every_call_under_way(
    operation: OperationView,
    entry: EntryView,
    partial: Option<AssistantMessageView>,
    reads: Seq<ToolReadView>,
    tool: LaneSnapshotToolView,
    i: int,
)
    requires
        operation.state is Tools,
        entry matches EntryView::Message(made) && made.message is Assistant,
    ensures
        ({
            let assistant = entry->Message_0.message->Assistant_0;
            let calls = operation.state->Tools_batch.calls;
            match shown_operation(operation, Some(entry), partial, reads) {
                Ok(shown) => {
                    &&& 0 <= i < calls.len() && under_way(calls[i]) ==> names_block(
                        assistant,
                        calls[i],
                    )
                    &&& shown.running_tools.contains(tool) <==> is_shown(
                        assistant,
                        calls,
                        reads,
                        calls.len() as int,
                        tool,
                    )
                    &&& shown.running_tools.len() <= calls.len()
                },
                Err(_) => exists|k: int|
                    0 <= k < calls.len() && under_way(#[trigger] calls[k]) && !names_block(
                        assistant,
                        calls[k],
                    ),
            }
        }),
{
    let assistant = entry->Message_0.message->Assistant_0;
    let calls = operation.state->Tools_batch.calls;
    lemma_shown_tools(assistant, calls, reads, calls.len());
    if let Ok(tools) = shown_tools(assistant, calls, reads, calls.len()) {
        if tools.contains(tool) {
            let t = choose|t: int| 0 <= t < tools.len() && tools[t] == tool;
            assert(is_shown(assistant, calls, reads, calls.len() as int, tools[t]));
        }
        if is_shown(assistant, calls, reads, calls.len() as int, tool) {
            let k = choose|k: int|
                0 <= k < calls.len() && shown_in(assistant, #[trigger] calls[k], reads[k]) == Some(
                    tool,
                );
            assert(shown_in(assistant, calls[k], reads[k]) == Some(tool));
        }
    }
}

/// The usage that is booked for an entry is in the first row that names it; there is none just
/// if no row does.
pub proof fn law_usage_is_found_by_its_entry(rows: Seq<(UsageRowView, usize)>, id: Seq<char>)
    ensures
        match row_for(rows, id) {
            Some(row) => row.0.entry_id == Some(id) && exists|i: int|
                0 <= i < rows.len() && #[trigger] rows[i] == row && forall|j: int|
                    0 <= j < i ==> (#[trigger] rows[j]).0.entry_id != Some(id),
            None => forall|j: int|
                0 <= j < rows.len() ==> (#[trigger] rows[j]).0.entry_id != Some(id),
        },
    decreases rows.len(),
{
    if rows.len() > 0 {
        let rest = rows.drop_last();
        law_usage_is_found_by_its_entry(rest, id);
        let last = rows.len() - 1;
        assert(rows[last] == rows.last());
        assert forall|j: int| 0 <= j < rest.len() implies rest[j] == #[trigger] rows[j] by {}
        match row_for(rest, id) {
            Some(row) => {
                let i = choose|i: int|
                    0 <= i < rest.len() && #[trigger] rest[i] == row && forall|j: int|
                        0 <= j < i ==> (#[trigger] rest[j]).0.entry_id != Some(id);
                assert(rows[i] == row);
                assert forall|j: int| 0 <= j < i implies (#[trigger] rows[j]).0.entry_id != Some(
                    id,
                ) by {
                    assert(rest[j] == rows[j]);
                }
            },
            None => {
                assert forall|j: int| 0 <= j < last implies (#[trigger] rows[j]).0.entry_id != Some(
                    id,
                ) by {
                    assert(rest[j] == rows[j]);
                }
            },
        }
    }
}

/// The JSON values that a leaf holds.
pub open spec fn json_in(state: OperationStateView) -> Seq<Option<serde_json::Value>> {
    match state {
        OperationStateView::AssistantReady { generation_context, .. } => seq![
            generation_context.stream_options.deferred,
        ],
        OperationStateView::AssistantEffectPending { generation_context, .. } => seq![
            generation_context.stream_options.deferred,
        ],
        OperationStateView::AssistantRetryWait { generation_context, .. } => seq![
            generation_context.stream_options.deferred,
        ],
        OperationStateView::DeferredSuspended { scope } => seq![scope.stream_options.deferred],
        OperationStateView::DeferredEffectPending { scope, .. } => seq![
            scope.stream_options.deferred,
        ],
        OperationStateView::SummaryReady { summary_context, .. } => seq![
            summary_context.stream_options.deferred,
        ],
        OperationStateView::SummaryEffectPending { summary_context, request, .. } => seq![
            summary_context.stream_options.deferred,
            request,
        ],
        OperationStateView::SummaryRetryWait { summary_context, .. } => seq![
            summary_context.stream_options.deferred,
        ],
        _ => Seq::empty(),
    }
}

/// Whether two JSON values, or none, compare equal.
pub open spec fn reads_equal(
    a: Option<serde_json::Value>,
    b: Option<serde_json::Value>,
) -> bool {
    a is Some == b is Some && (a is Some ==> equal_values(a->Some_0, b->Some_0))
}

/// Leaves that are the same hold JSON values that compare equal. Leaves that hold the same JSON
/// values, each of which compares equal to itself, are the same just if they are equal.
pub proof fn law_leaves_are_compared_by_all_they_hold(
    a: OperationStateView,
    b: OperationStateView,
)
    ensures
        equal_states(a, b) ==> json_in(a).len() == json_in(b).len() && forall|i: int|
            0 <= i < json_in(a).len() ==> reads_equal(#[trigger] json_in(a)[i], json_in(b)[i]),
        json_in(a) == json_in(b) && (forall|i: int|
            0 <= i < json_in(a).len() ==> reads_equal(#[trigger] json_in(a)[i], json_in(a)[i]))
            ==> (equal_states(a, b) <==> a == b),
{
    let one = json_in(a);
    let other = json_in(b);
    if one.len() > 0 {
        assert(reads_equal(one[0], one[0]) || !reads_equal(one[0], one[0]));
    }
    if one.len() > 1 {
        assert(reads_equal(one[1], one[1]) || !reads_equal(one[1], one[1]));
    }
    if one == other && one.len() > 0 {
        assert(one[0] == other[0]);
    }
    if one == other && one.len() > 1 {
        assert(one[1] == other[1]);
    }
}

/// A configuration that the process cannot serve is reported with its details, and with a
/// message that tells a model from tools.
pub proof fn law_what_is_missing_is_told_by_its_kind(code: Seq<char>, details: ErrorDetailsView)
    ensures
        unavailable(code, details).code == code,
        unavailable(code, details).details == Some(details),
        code == "model_unavailable"@ ==> unavailable(code, details).message
            == "The configured model is unavailable in this process"@,
        code != "model_unavailable"@ ==> unavailable(code, details).message
            == "One or more configured tools are unavailable in this process"@,
{
}

/// The number that a numeral in base ten writes.
pub open spec fn numeral_value(text: Seq<char>) -> int
    decreases text.len(),
{
    if text.len() == 0 {
        0
    } else {
        numeral_value(text.drop_last()) * 10 + (text.last() as u32 - '0' as u32)
    }
}

/// A number is written in base ten: its numeral is made of digits, reads as the number, and
/// does not lead with a zero, unless it is the one digit of zero.
pub proof fn law_a_numeral_reads_as_its_number(n: nat)
    ensures
        decimal(n).len() > 0,
        forall|i: int| 0 <= i < decimal(n).len() ==> '0' <= #[trigger] decimal(n)[i] <= '9',
        numeral_value(decimal(n)) == n,
        decimal(n)[0] == '0' ==> n == 0,
    decreases n,
{
    let text = decimal(n);
    if n < 10 {
        assert(text.drop_last() =~= Seq::empty());
        assert(numeral_value(Seq::empty()) == 0);
    } else {
        let head = decimal(n / 10);
        law_a_numeral_reads_as_its_number(n / 10);
        assert(text.drop_last() =~= head);
        assert(text[0] == head[0]);
        assert forall|i: int| 0 <= i < text.len() implies '0' <= #[trigger] text[i] <= '9' by {
            if i < head.len() {
                assert(text[i] == head[i]);
            }
        }
    }
}

/// A write has the number that the commit gave at its place, and the number zero if the commit
/// gave none there.
pub proof fn law_a_write_has_the_number_at_its_place(commit: CommitResultView, index: int)
    ensures
        0 <= index < commit.seqs.len() ==> seq_at(commit, index) == commit.seqs[index],
        index < 0 || index >= commit.seqs.len() ==> seq_at(commit, index) == 0,
{
}

} // verus!
