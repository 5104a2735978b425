//! What compactions, branch summaries and navigations come to.

use crate::command::OperationCommandView;
use crate::drive::boundary::countable;
use crate::drive::structural::{
    check_due, navigation_command, newest_compaction, place_on_path, stored_branch,
    stored_compaction, BranchPreparation, CompactionPreparation,
};
use crate::drive::structural_run::{
    again, attempt_input, attempt_verdict, hook_of, interruption, outcome_command, pending_of,
    ready_command, structural_move, verdict_of, AttemptPreparationView, AttemptVerdictView,
    DecisionHookView, StructuralAttemptView, StructuralOutcomeView,
};
use crate::json::{flag_of, flag_value, member_of};
use crate::laws::response::writes_in;
use crate::model::event::{HarnessEventView, PlannedEventView};
use crate::model::session::{
    LaneConfigurationView, OperationErrorView, OperationMetaView, OperationResultRecordView,
    OperationStateView, ResultBoundaryView, SummaryTaskView, TerminalStatus,
};
use crate::model::storage::{
    AddressView, DurableValueView, EntryView, NewBranchSummaryEntryView, NewCompactionEntryView,
    NewEntryView, SummaryDetailsView, UsageRowView, WriteView,
};
use crate::types::{ConfigView, ProcedureResultView};
use vstd::prelude::*;

verus! {

/// Everything that the end of a structural task rests on.
pub struct Outcome {
    pub lane: Seq<char>,
    pub operation_id: Seq<char>,
    pub tip_id: Option<Seq<char>>,
    pub current: OperationStateView,
    pub meta: OperationMetaView,
    pub task: SummaryTaskView,
    pub outcome: StructuralOutcomeView,
    pub hook_usage_id: Option<Seq<char>>,
    pub scratch: Seq<AddressView>,
    pub ended_at: u64,
}

/// What the end of a structural task decides.
pub open spec fn concluded(o: Outcome) -> Result<OperationCommandView<ProcedureResultView>, Seq<char>> {
    outcome_command(
        o.lane,
        o.operation_id,
        o.tip_id,
        o.current,
        o.meta,
        o.task,
        o.outcome,
        o.hook_usage_id,
        o.scratch,
        o.ended_at,
    )
}

/// Whether a decision ends the operation with a status at a tip, in the record, in the
/// result, in the lane and, where the tip moved, in storage.
pub open spec fn ends_at(
    o: Outcome,
    command: OperationCommandView<ProcedureResultView>,
    status: TerminalStatus,
    error: Option<OperationErrorView>,
    tip_id: Option<Seq<char>>,
) -> bool {
    &&& command matches OperationCommandView::Finish { writes, record, lane: Some(patch), result, .. }
    &&& record == OperationResultRecordView {
        operation_id: o.meta.operation_id,
        kind: o.meta.intent,
        status,
        error,
        from_tip_id: o.meta.source_tip_id,
        tip_id,
        started_at: o.meta.started_at,
        ended_at: o.ended_at,
    }
    &&& result == (ProcedureResultView::Settled { outcome: record })
    &&& patch.tip_id == Some(tip_id)
    &&& patch.configuration is None
    &&& patch.inbox is None
}

/// Whether nothing but one entry is inserted.
pub open spec fn inserts_only(writes: Seq<WriteView>, entry: NewEntryView) -> bool {
    &&& writes.contains(WriteView::InsertEntry(entry))
    &&& forall|i: int|
        0 <= i < writes.len() && (#[trigger] writes[i]) is InsertEntry ==> writes[i]
            == WriteView::InsertEntry(entry)
}

/// Whether the last write that names the tip of a lane puts it at an entry.
pub open spec fn last_tip(writes: Seq<WriteView>, lane: Seq<char>, tip_id: Option<Seq<char>>) -> bool {
    let address = AddressView::BranchTip { lane };
    exists|i: int|
        0 <= i < writes.len() && #[trigger] writes[i] == (WriteView::SetValue {
            address,
            value: DurableValueView::Tip(tip_id),
        }) && forall|j: int|
            i < j < writes.len() ==> !(#[trigger] writes[j] matches WriteView::SetValue {
                address: at,
                ..
            } && at == address)
}

/// A compaction inserts one entry, under the id reserved for it and behind the tip of
/// the lane, with the summary, the messages that are kept behind it, the count of tokens
/// and the usage of its result. It becomes the tip, and the operation is completed.
pub proof fn law_a_compaction_keeps_what_its_result_says(o: Outcome)
    requires
        o.outcome is Compaction,
        concluded(o) is Ok,
        forall|i: int|
            0 <= i < o.scratch.len() ==> !((#[trigger] o.scratch[i]) is BranchTip),
    ensures
        ({
            let command = concluded(o)->Ok_0;
            let id = o.outcome->Compaction_result_entry_id;
            let result = o.outcome->Compaction_result;
            &&& !(o.task.boundary is CommitNavigation)
            &&& inserts_only(
                writes_in(command),
                NewEntryView::Compaction(
                    NewCompactionEntryView {
                        id,
                        parent_id: o.tip_id,
                        custom_type: None,
                        summary: result.summary,
                        retained_tail: result.retained_tail,
                        tokens_before: result.tokens_before,
                        details: Some(SummaryDetailsView::Other(result.details)),
                        usage: result.usage,
                        from_hook: o.outcome->Compaction_from_hook,
                    },
                ),
            )
            &&& last_tip(writes_in(command), o.lane, Some(id))
            &&& ends_at(o, command, TerminalStatus::Completed, None, Some(id))
        }),
{
    let writes = writes_in(concluded(o)->Ok_0);
    let result = o.outcome->Compaction_result;
    let skip: int = if o.hook_usage_id is Some && result.usage is Some {
        1
    } else {
        0
    };
    assert(writes[skip] is InsertEntry);
    assert(writes[skip + 1] == (WriteView::SetValue {
        address: AddressView::BranchTip { lane: o.lane },
        value: DurableValueView::Tip(Some(o.outcome->Compaction_result_entry_id)),
    }));
}

/// A navigation that ends with a summary of the branch it leaves goes on from its
/// target: one entry is inserted, under the id reserved for it, behind the target, with
/// the summary and the tip that was left. It becomes the tip, the target gets its label,
/// and the operation is completed.
pub proof fn law_a_branch_summary_goes_on_from_the_target(o: Outcome)
    requires
        o.outcome is BranchSummary,
        concluded(o) is Ok,
    ensures
        ({
            let command = concluded(o)->Ok_0;
            let id = o.outcome->BranchSummary_result_entry_id;
            let result = o.outcome->BranchSummary_result;
            &&& o.task.boundary matches ResultBoundaryView::CommitNavigation { target_id, label }
            &&& inserts_only(
                writes_in(command),
                NewEntryView::BranchSummary(
                    NewBranchSummaryEntryView {
                        id,
                        parent_id: Some(target_id),
                        custom_type: None,
                        from_id: o.meta.source_tip_id,
                        summary: result.summary,
                        details: Some(
                            SummaryDetailsView::Files {
                                read_files: result.read_files,
                                modified_files: result.modified_files,
                            },
                        ),
                        usage: result.usage,
                        from_hook: o.outcome->BranchSummary_from_hook,
                    },
                ),
            )
            &&& last_tip(writes_in(command), o.lane, Some(id))
            &&& label matches Some(text) ==> writes_in(command).contains(
                WriteView::SetValue {
                    address: AddressView::EntryLabel { entry_id: target_id },
                    value: DurableValueView::Label(text),
                },
            )
            &&& ends_at(o, command, TerminalStatus::Completed, None, Some(id))
        }),
{
    let writes = writes_in(concluded(o)->Ok_0);
    let result = o.outcome->BranchSummary_result;
    let skip: int = if o.hook_usage_id is Some && result.usage is Some {
        1
    } else {
        0
    };
    assert(writes[skip + 1] is InsertEntry);
    assert(writes[skip + 2] == (WriteView::SetValue {
        address: AddressView::BranchTip { lane: o.lane },
        value: DurableValueView::Tip(Some(o.outcome->BranchSummary_result_entry_id)),
    }));
    if let ResultBoundaryView::CommitNavigation { target_id, label: Some(text) } =
        o.task.boundary {
        assert(writes[skip + 3] == (WriteView::SetValue {
            address: AddressView::EntryLabel { entry_id: target_id },
            value: DurableValueView::Label(text),
        }));
    }
}

/// A structural task that is declined or fails leaves the transcript and the tip as
/// they are, and ends its operation with that status; a failure carries its error.
pub proof fn law_a_task_without_a_result_changes_nothing(o: Outcome)
    requires
        o.outcome is Declined || o.outcome is Failed,
        concluded(o) is Ok,
        forall|i: int|
            0 <= i < o.scratch.len() ==> !((#[trigger] o.scratch[i]) is BranchTip),
    ensures
        ({
            let command = concluded(o)->Ok_0;
            &&& forall|i: int|
                0 <= i < writes_in(command).len() ==> !((#[trigger] writes_in(command)[i])
                    is InsertEntry) && !(writes_in(command)[i] is InsertUsage) && !(writes_in(
                    command,
                )[i] is SetValue)
            &&& match o.outcome {
                StructuralOutcomeView::Failed { error } => ends_at(
                    o,
                    command,
                    TerminalStatus::Failed,
                    Some(error),
                    o.tip_id,
                ),
                _ => ends_at(o, command, TerminalStatus::Declined, None, o.tip_id),
            }
        }),
{
}

/// Usage that a hook reports is booked just if a row was reserved for it.
pub proof fn law_the_usage_of_a_hook_is_booked_once(o: Outcome)
    requires
        concluded(o) is Ok,
    ensures
        ({
            let usage = match o.outcome {
                StructuralOutcomeView::Compaction { result, .. } => result.usage,
                StructuralOutcomeView::BranchSummary { result, .. } => result.usage,
                _ => None,
            };
            let writes = writes_in(concluded(o)->Ok_0);
            if o.hook_usage_id is Some && usage is Some {
                writes.len() > 0 && writes[0] == WriteView::InsertUsage(
                    UsageRowView {
                        id: o.hook_usage_id->Some_0,
                        seq: 0,
                        usage: usage->Some_0,
                        entry_id: None,
                        adjustment: false,
                        details: None,
                    },
                )
            } else {
                forall|i: int|
                    0 <= i < writes.len() ==> !((#[trigger] writes[i]) is InsertUsage)
            }
        }),
{
}

/// The end of a structural task is announced once, as the end of a navigation or of a
/// compaction, with the status and error of its outcome. A compaction tells why it was
/// made: because it was asked for if its task names nothing else.
pub proof fn law_the_end_of_a_task_is_announced(o: Outcome)
    requires
        concluded(o) is Ok,
    ensures
        concluded(o)->Ok_0 matches OperationCommandView::Finish { record, events, .. }
            && events == seq![
            PlannedEventView::Ready(
                if o.task.boundary is CommitNavigation {
                    HarnessEventView::NavigationEnd {
                        lane: o.lane,
                        run_id: o.operation_id,
                        from_tip_id: o.meta.source_tip_id,
                        tip_id: record.tip_id,
                        ended_at: o.ended_at,
                        status: record.status,
                        error: record.error,
                        recovery: None,
                    }
                } else {
                    HarnessEventView::CompactionEnd {
                        lane: o.lane,
                        run_id: o.operation_id,
                        reason: match o.task.reason {
                            Some(reason) => reason,
                            None => "manual"@,
                        },
                        ended_at: o.ended_at,
                        status: record.status,
                        entry_id: None,
                        error: record.error,
                        recovery: None,
                    }
                },
            ),
        ],
        !(o.task.boundary is CommitNavigation) && o.task.reason is None ==> o.task.boundary
            is Finish,
{
}

/// An outcome is refused just if it is of the other kind than its task, or its task is
/// a compaction within a run that does not say why it is made.
pub proof fn law_an_outcome_has_to_be_of_the_kind_of_its_task(o: Outcome)
    ensures
        concluded(o) is Err <==> match o.task.boundary {
            ResultBoundaryView::CommitNavigation { .. } => o.outcome is Compaction,
            ResultBoundaryView::Finish => o.outcome is BranchSummary,
            ResultBoundaryView::ResumeCheckpoint { .. } => o.outcome is BranchSummary
                || o.task.reason is None,
        },
{
}

/// The attempts of a structural task. A result is published under the entry reserved
/// for the task. An error that passes is waited out while attempts are left, as the next
/// attempt of the same task with the same configuration; any other error is published.
/// An interrupted attempt counts as an error that passes.
pub proof fn law_attempts_are_published_or_repeated(
    effect: OperationStateView,
    attempt: StructuralAttemptView,
    not_before: u64,
)
    requires
        effect is SummaryEffectPending,
    ensures
        effect matches OperationStateView::SummaryEffectPending {
            scope,
            task,
            summary_context,
            attempt: number,
            ..
        } && ({
            let verdict = attempt_verdict(effect, attempt, not_before);
            match attempt {
                StructuralAttemptView::Compaction { result } => verdict
                    == AttemptVerdictView::Publish(
                    StructuralOutcomeView::Compaction {
                        result_entry_id: summary_context.result_entry_id,
                        result,
                        from_hook: false,
                    },
                ),
                StructuralAttemptView::BranchSummary { result } => verdict
                    == AttemptVerdictView::Publish(
                    StructuralOutcomeView::BranchSummary {
                        result_entry_id: summary_context.result_entry_id,
                        result,
                        from_hook: false,
                    },
                ),
                StructuralAttemptView::Error { error, retryable } => if retryable && number
                    < summary_context.retry_policy.max_attempts {
                    verdict == AttemptVerdictView::Wait(
                        OperationStateView::SummaryRetryWait {
                            scope,
                            task,
                            summary_context,
                            next_attempt: (number + 1) as u32,
                            not_before,
                            error_message: error.message,
                        },
                    )
                } else {
                    verdict == AttemptVerdictView::Publish(StructuralOutcomeView::Failed { error })
                },
            }
        }),
        interruption().code == "structural_interrupted"@,
{
}

/// How a structural task moves: from its decision to the first attempt, with the
/// configuration of the lane and without deferral; from there into the attempt; and from
/// its wait to the next attempt. The task stays the same, and so does its scope.
pub proof fn law_a_task_moves_from_attempt_to_attempt(
    config: ConfigView,
    default_delay_ms: u64,
    result_entry_id: Seq<char>,
    configuration: LaneConfigurationView,
    deciding: OperationStateView,
    ready: OperationStateView,
    waiting: OperationStateView,
)
    requires
        countable(config.retry_policy),
    ensures
        deciding matches OperationStateView::SummaryDeciding { scope, task } ==> (ready_command(
            config,
            default_delay_ms,
            result_entry_id,
            configuration,
            deciding,
            task,
        ) matches OperationCommandView::Commit { writes, operation_state, lane, events, .. }
            && writes.len() == 0 && events.len() == 0 && lane is None && (operation_state
            matches OperationStateView::SummaryReady {
            scope: scope_after,
            task: task_after,
            summary_context,
            next_attempt,
        } && scope_after == scope && task_after == task && next_attempt == 1
            && summary_context.result_entry_id == result_entry_id && summary_context.configuration
            == configuration && summary_context.stream_options.deferred == Some(flag_value(false))
            && summary_context.retry_policy.base_delay_ms == config.retry_policy.base_delay_ms
            && summary_context.retry_policy.max_agent_delay_ms == (
        match config.retry_policy.max_agent_delay_ms {
            Some(delay_ms) => delay_ms,
            None => default_delay_ms,
        }) && summary_context.retry_policy.max_attempts == if config.retry_policy.enabled {
            (config.retry_policy.max_retries as u32) + 1
        } else {
            1
        })),
        ready matches OperationStateView::SummaryReady {
            scope,
            task,
            summary_context,
            next_attempt,
        } ==> pending_of(ready) == (OperationStateView::SummaryEffectPending {
            scope,
            task,
            summary_context,
            attempt: next_attempt,
            request: None,
            usage_ids: Seq::empty(),
        }),
        waiting matches OperationStateView::SummaryRetryWait {
            scope,
            task,
            summary_context,
            next_attempt,
            ..
        } ==> again(waiting, waiting) == (OperationStateView::SummaryReady {
            scope,
            task,
            summary_context,
            next_attempt,
        }),
{
}

/// A move of a structural task changes its leaf and nothing else.
pub proof fn law_a_move_changes_only_the_leaf(
    leaf: OperationStateView,
    result: ProcedureResultView,
)
    ensures
        structural_move(leaf, result) == (OperationCommandView::Commit {
            writes: Seq::empty(),
            operation_state: leaf,
            lane: None,
            result,
            events: Seq::empty(),
        }),
{
}

/// What the hook on a structural task says. It declines with a flag that is true; else
/// it offers what it gives under the key of the kind of task; else the task goes on.
pub proof fn law_a_hook_declines_offers_or_lets_pass(
    task: SummaryTaskView,
    hook: serde_json::Value,
)
    ensures
        verdict_of(task, hook) is Decline <==> (member_of(hook, "decline"@) matches Some(value)
            && flag_of(value) == Some(true)),
        verdict_of(task, hook) is Offer <==> !(verdict_of(task, hook) is Decline) && member_of(
            hook,
            if task.boundary is CommitNavigation {
                "summary"@
            } else {
                "compaction"@
            },
        ) is Some,
        task.boundary is CommitNavigation ==> hook_of(task) == Ok::<DecisionHookView, Seq<char>>(
            DecisionHookView::BeforeNavigation,
        ),
        !(task.boundary is CommitNavigation) ==> match task.reason {
            Some(reason) => hook_of(task) == Ok::<DecisionHookView, Seq<char>>(
                DecisionHookView::BeforeCompaction { reason },
            ),
            None => if task.boundary is Finish {
                hook_of(task) == Ok::<DecisionHookView, Seq<char>>(
                    DecisionHookView::BeforeCompaction { reason: "manual"@ },
                )
            } else {
                hook_of(task) is Err
            },
        },
{
}

/// A navigation without a summary is refused just if its target is missing, is where the
/// lane was, or is the root and has a label. Otherwise the tip goes to the target, which
/// gets its label; nothing is inserted.
pub proof fn law_a_navigation_goes_to_its_target(
    lane: Seq<char>,
    operation_id: Seq<char>,
    target_id: Option<Seq<char>>,
    label: Option<Seq<char>>,
    target_exists: bool,
    current: OperationStateView,
    meta: OperationMetaView,
    scratch: Seq<AddressView>,
    ended_at: u64,
)
    ensures
        ({
            let decided = navigation_command(
                lane,
                operation_id,
                target_id,
                label,
                target_exists,
                current,
                meta,
                scratch,
                ended_at,
            );
            &&& decided is Err <==> (target_id is Some && !target_exists) || target_id
                == meta.source_tip_id || (target_id is None && label is Some)
            &&& decided matches Ok(command) ==> {
                let writes = writes_in(command);
                &&& writes[0] == (WriteView::SetValue {
                    address: AddressView::BranchTip { lane },
                    value: DurableValueView::Tip(target_id),
                })
                &&& target_id is Some && label is Some ==> writes.contains(
                    WriteView::SetValue {
                        address: AddressView::EntryLabel { entry_id: target_id->Some_0 },
                        value: DurableValueView::Label(label->Some_0),
                    },
                )
                &&& forall|i: int|
                    0 <= i < writes.len() ==> !((#[trigger] writes[i]) is InsertEntry)
                &&& command matches OperationCommandView::Finish {
                    record,
                    lane: Some(patch),
                    result,
                    ..
                }
                &&& record.status == TerminalStatus::Completed
                &&& record.error is None
                &&& record.tip_id == target_id
                &&& record.from_tip_id == meta.source_tip_id
                &&& record.operation_id == meta.operation_id
                &&& record.kind == meta.intent
                &&& record.started_at == meta.started_at
                &&& record.ended_at == ended_at
                &&& result == (ProcedureResultView::Settled { outcome: record })
                &&& patch.tip_id == Some(target_id)
                &&& patch.inbox is None
                &&& patch.configuration is None
            }
        }),
{
    if let Ok(command) = navigation_command(
        lane,
        operation_id,
        target_id,
        label,
        target_exists,
        current,
        meta,
        scratch,
        ended_at,
    ) {
        if target_id is Some && label is Some {
            assert(writes_in(command)[1] is SetValue);
        }
    }
}

/// What an attempt works on is what was prepared: stored preparations lose nothing but
/// the order of the files, and serve only tasks of their kind.
pub proof fn law_an_attempt_works_on_what_was_prepared(
    task: SummaryTaskView,
    compaction: CompactionPreparation,
    branch: BranchPreparation,
)
    ensures
        match attempt_input(task, stored_compaction(compaction)) {
            Some(AttemptPreparationView::Compaction(read)) => !(task.boundary is CommitNavigation)
                && read == compaction.deep_view(),
            Some(_) => false,
            None => task.boundary is CommitNavigation,
        },
        match attempt_input(task, stored_branch(branch)) {
            Some(AttemptPreparationView::BranchSummary(read)) => task.boundary is CommitNavigation
                && read == branch.deep_view(),
            Some(_) => false,
            None => !(task.boundary is CommitNavigation),
        },
{
}

proof fn lemma_place(entries: Seq<EntryView>, id: Seq<char>)
    ensures
        match place_on_path(entries, id) {
            Some(place) => 0 <= place < entries.len() && entries[place].id() == id && forall|
                j: int,
            |
                0 <= j < place ==> (#[trigger] entries[j]).id() != id,
            None => forall|j: int| 0 <= j < entries.len() ==> (#[trigger] entries[j]).id() != id,
        },
    decreases entries.len(),
{
    if entries.len() > 0 {
        let rest = entries.drop_last();
        lemma_place(rest, id);
        assert forall|j: int| 0 <= j < rest.len() implies rest[j] == #[trigger] entries[j] by {}
    }
}

proof fn lemma_newest(entries: Seq<EntryView>)
    ensures
        match newest_compaction(entries) {
            Some(newest) => 0 <= newest < entries.len() && entries[newest] is Compaction
                && forall|j: int|
                newest < j < entries.len() ==> !((#[trigger] entries[j]) is Compaction),
            None => forall|j: int| 0 <= j < entries.len() ==> !((#[trigger] entries[j])
                is Compaction),
        },
    decreases entries.len(),
{
    if entries.len() > 0 {
        let rest = entries.drop_last();
        lemma_newest(rest);
        assert forall|j: int| 0 <= j < rest.len() implies rest[j] == #[trigger] entries[j] by {}
    }
}

/// A checkpoint looks for a compaction just if its trigger came in behind the newest
/// compaction of the path. A trigger that is on no path is an error, unless it may have
/// been compacted away.
pub proof fn law_a_compaction_is_looked_for_behind_the_last(
    entries: Seq<EntryView>,
    trigger: Seq<char>,
    place: int,
)
    requires
        forall|i: int, j: int|
            0 <= i < entries.len() && 0 <= j < entries.len() && i != j ==> (
            #[trigger] entries[i]).id() != (#[trigger] entries[j]).id(),
    ensures
        0 <= place < entries.len() && entries[place].id() == trigger ==> check_due(
            entries,
            trigger,
        ) == Ok::<bool, Seq<char>>(
            forall|j: int| place <= j < entries.len() ==> !((#[trigger] entries[j]) is Compaction),
        ),
        (forall|j: int| 0 <= j < entries.len() ==> (#[trigger] entries[j]).id() != trigger)
            ==> match check_due(entries, trigger) {
            Ok(due) => !due && exists|j: int|
                0 <= j < entries.len() && (#[trigger] entries[j]) is Compaction,
            Err(_) => forall|j: int| 0 <= j < entries.len() ==> !((#[trigger] entries[j])
                is Compaction),
        },
{
    lemma_place(entries, trigger);
    lemma_newest(entries);
    if 0 <= place < entries.len() && entries[place].id() == trigger {
        let found = place_on_path(entries, trigger)->Some_0;
        assert(found == place) by {
            if found != place {
                assert(entries[found].id() != entries[place].id());
            }
        }
    }
}

} // verus!
