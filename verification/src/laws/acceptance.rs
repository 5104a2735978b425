//! What accepting an operation comes to.

use crate::command::LaneCommandView;
use crate::drive::boundary::{distinct_ids, placed_entry};
use crate::drive::checkpoint::ReservedMessageView;
use crate::drive::structural::place_on_path;
use crate::lane::accept::{
    accepted_item, captured, captured_entries, has_kind, prompt_input, split_inbox, user_blocks,
    AnswerView, PromptInputView,
};
use crate::lane::intake::{
    compaction_acceptance, left_behind, meeting_place, navigation_acceptance, run_acceptance,
};
use crate::laws::boundary::{first_of_kind, lemma_stored_is_loaded, made_of, stored};
use crate::model::event::{HarnessEventView, PlannedEventView};
use crate::model::message::ToolResultContentView;
use crate::model::session::{
    Control, DurableLaneStateView, DurableStructuralPreparationView, InboxItemKind, InboxItemView,
    OperationIntentView, OperationMetaView, OperationScopeView, OperationStateView, OperationView,
    PendingEntryView, QueueMode, ResultBoundaryView, RunSettings, SummaryTaskView,
};
use crate::model::storage::{
    AddressView, DurableValueView, EntryView, NewEntryView, NewMessageEntryView, WriteView,
};
use crate::types::{
    ConfigView, HarnessErrorView, LaneRuntimeStateView, OperationAdmissionView, PendingRowView,
};
use vstd::prelude::*;

verus! {

/// The scope in which an operation starts: it runs, under the settings of the harness.
pub open spec fn starting_scope(config: ConfigView) -> OperationScopeView {
    OperationScopeView {
        control: Control::Running,
        settings: RunSettings {
            compaction: config.compaction,
            steering_mode: config.steering_mode,
            follow_up_mode: config.follow_up_mode,
            tool_execution: config.tool_execution,
        },
        latest_assistant_entry_id: None,
    }
}

/// Whether an accepted run takes an entry of the inbox.
pub open spec fn is_taken(config: ConfigView, inbox: Seq<InboxItemView>, k: int) -> bool {
    match inbox[k].kind {
        InboxItemKind::Write => true,
        InboxItemKind::NextRun => true,
        InboxItemKind::Steer => config.steering_mode == QueueMode::All || first_of_kind(inbox, k),
        InboxItemKind::FollowUp => config.follow_up_mode == QueueMode::All || first_of_kind(
            inbox,
            k,
        ),
    }
}

/// Whether the new operation is stored: its metadata, its leaf, and that it owns the
/// lane with the inbox that is left.
pub open spec fn stores_operation(
    writes: Seq<WriteView>,
    lane: Seq<char>,
    meta: OperationMetaView,
    leaf: OperationStateView,
    last_operation_id: Option<Seq<char>>,
    inbox: Seq<InboxItemView>,
) -> bool {
    &&& writes.contains(
        WriteView::SetValue {
            address: AddressView::OperationMeta { operation_id: meta.operation_id },
            value: DurableValueView::Meta(meta),
        },
    )
    &&& writes.contains(
        WriteView::SetValue {
            address: AddressView::OperationState { operation_id: meta.operation_id },
            value: DurableValueView::State(leaf),
        },
    )
    &&& writes.contains(
        WriteView::SetValue {
            address: AddressView::LaneState { lane },
            value: DurableValueView::Lane(
                DurableLaneStateView {
                    current_operation_id: Some(meta.operation_id),
                    last_operation_id,
                    inbox,
                },
            ),
        },
    )
}

/// The entry that an entry is appended behind.
pub open spec fn parent_of(entry: NewEntryView) -> Option<Seq<char>> {
    match entry {
        NewEntryView::Message(e) => e.parent_id,
        NewEntryView::Compaction(e) => e.parent_id,
        NewEntryView::BranchSummary(e) => e.parent_id,
        NewEntryView::Custom(e) => e.parent_id,
    }
}

proof fn lemma_accepted(config: ConfigView, inbox: Seq<InboxItemView>, k: int)
    requires
        0 <= k < inbox.len(),
    ensures
        accepted_item(inbox, k, config.steering_mode, config.follow_up_mode) == is_taken(
            config,
            inbox,
            k,
        ),
{
    let kind = inbox[k].kind;
    let ahead = inbox.take(k);
    assert(has_kind(ahead, kind) == !first_of_kind(inbox, k)) by {
        if has_kind(ahead, kind) {
            let i = choose|i: int| 0 <= i < ahead.len() && (#[trigger] ahead[i]).kind == kind;
            assert(inbox[i].kind == kind);
        }
        if !first_of_kind(inbox, k) {
            let i = choose|i: int| 0 <= i < k && (#[trigger] inbox[i]).kind == inbox[k].kind;
            assert(ahead[i].kind == kind);
        }
    }
}

proof fn lemma_split(
    config: ConfigView,
    inbox: Seq<InboxItemView>,
    taken: bool,
    n: nat,
    k: int,
)
    requires
        distinct_ids(inbox),
        n <= inbox.len(),
        0 <= k < inbox.len(),
    ensures
        split_inbox(inbox, config.steering_mode, config.follow_up_mode, taken, n).contains(
            inbox[k],
        ) <==> k < n && is_taken(config, inbox, k) == taken,
    decreases n,
{
    if n > 0 {
        let m = (n - 1) as nat;
        lemma_split(config, inbox, taken, m, k);
        lemma_accepted(config, inbox, m as int);
        let rest = split_inbox(inbox, config.steering_mode, config.follow_up_mode, taken, m);
        let all = split_inbox(inbox, config.steering_mode, config.follow_up_mode, taken, n);
        if rest.contains(inbox[k]) {
            assert(all[rest.index_of(inbox[k])] == inbox[k]);
        }
        if all.contains(inbox[k]) {
            let at = all.index_of(inbox[k]);
            if at < rest.len() {
                assert(rest[at] == inbox[k]);
            } else {
                assert(inbox[m as int] == inbox[k]);
                assert(m == k);
            }
        }
        if m == k && is_taken(config, inbox, k) == taken {
            assert(all[rest.len() as int] == inbox[k]);
        }
    }
}

/// What is captured for each entry that is taken.
pub proof fn lemma_captured(rows: Seq<PendingRowView>, items: Seq<InboxItemView>)
    ensures
        captured_entries(rows, items) matches Ok(entries) ==> entries.len() == items.len()
            && forall|i: int|
            0 <= i < items.len() ==> (captured(rows, #[trigger] items[i]) matches Ok(entry)
                && entries[i] == placed_entry(items[i].entry_id, None, entry)),
    decreases items.len(),
{
    if items.len() > 0 {
        let rest = items.drop_last();
        lemma_captured(rows, rest);
        if let Ok(entries) = captured_entries(rows, items) {
            assert forall|i: int| 0 <= i < items.len() implies (captured(
                rows,
                #[trigger] items[i],
            ) matches Ok(entry) && entries[i] == placed_entry(items[i].entry_id, None, entry)) by {
                if i < rest.len() {
                    assert(rest[i] == items[i]);
                }
            }
        }
    }
}

/// What an accepted run takes from the inbox: all writes and all that waits for the next
/// run, and steers and follow-ups by the modes of the harness. The rest stays queued.
pub proof fn law_an_accepted_run_takes_by_kind_and_mode(
    lane: Seq<char>,
    operation_id: Seq<char>,
    started_at: u64,
    config: ConfigView,
    state: LaneRuntimeStateView,
    rows: Seq<PendingRowView>,
    prompt: Seq<ReservedMessageView>,
    k: int,
)
    requires
        distinct_ids(state.inbox),
        0 <= k < state.inbox.len(),
    ensures
        run_acceptance(lane, operation_id, started_at, config, state, rows, prompt) matches Ok(
            LaneCommandView::Commit { writes, next, .. },
        ) ==> {
            &&& next.inbox.contains(state.inbox[k]) <==> !is_taken(config, state.inbox, k)
            &&& is_taken(config, state.inbox, k) ==> writes.contains(
                WriteView::DeleteValue {
                    address: AddressView::PendingEntry { entry_id: state.inbox[k].entry_id },
                },
            ) && exists|w: int, pending: PendingEntryView|
                0 <= w < writes.len() && #[trigger] stored(
                    rows,
                    state.inbox[k].entry_id,
                    pending,
                ) && (#[trigger] writes[w] matches WriteView::InsertEntry(entry) && made_of(
                    entry,
                    state.inbox[k].entry_id,
                    parent_of(entry),
                    pending,
                ))
        },
{
    let n = state.inbox.len();
    lemma_split(config, state.inbox, false, n, k);
    lemma_split(config, state.inbox, true, n, k);
    let selected = split_inbox(
        state.inbox,
        config.steering_mode,
        config.follow_up_mode,
        true,
        n,
    );
    if let Ok(LaneCommandView::Commit { writes, next, .. }) = run_acceptance(
        lane,
        operation_id,
        started_at,
        config,
        state,
        rows,
        prompt,
    ) {
        if is_taken(config, state.inbox, k) {
            lemma_captured(rows, selected);
            let at = selected.index_of(state.inbox[k]);
            let entry = captured(rows, selected[at])->Ok_0;
            lemma_stored_is_loaded(rows, state.inbox[k].entry_id, entry);
            let made = writes[at]->InsertEntry_0;
            assert(made_of(made, state.inbox[k].entry_id, parent_of(made), entry));
            assert(stored(rows, state.inbox[k].entry_id, entry));
            let total = selected.len() + prompt.len();
            assert(writes[total as int + at] == (WriteView::DeleteValue {
                address: AddressView::PendingEntry { entry_id: state.inbox[k].entry_id },
            }));
        }
    }
}

/// What an accepted run appends: what it takes from the inbox, then its prompt, message
/// by message, each behind the one before it and the first behind the tip. The last is
/// the tip of the lane and of storage. The run starts under the settings of the harness,
/// from the tip that was there, and owns the lane; it is announced first.
pub proof fn law_an_accepted_run_appends_its_prompt(
    lane: Seq<char>,
    operation_id: Seq<char>,
    started_at: u64,
    config: ConfigView,
    state: LaneRuntimeStateView,
    rows: Seq<PendingRowView>,
    prompt: Seq<ReservedMessageView>,
    i: int,
    j: int,
)
    ensures
        run_acceptance(lane, operation_id, started_at, config, state, rows, prompt) matches Ok(
            LaneCommandView::Commit { writes, next, result, events },
        ) ==> {
            let meta = OperationMetaView {
                operation_id,
                lane,
                intent: OperationIntentView::Run {
                    prompt_entry_ids: Seq::new(prompt.len(), |p: int| prompt[p].entry_id),
                },
                source_tip_id: state.tip_id,
                started_at,
            };
            let leaf = OperationStateView::Starting { scope: starting_scope(config) };
            let count = split_inbox(
                state.inbox,
                config.steering_mode,
                config.follow_up_mode,
                true,
                state.inbox.len(),
            ).len() + prompt.len();
            &&& count > 0
            &&& 0 <= i < count ==> (writes[i] matches WriteView::InsertEntry(entry) && parent_of(
                entry,
            ) == if i == 0 {
                state.tip_id
            } else {
                Some(writes[i - 1]->InsertEntry_0.id())
            })
            &&& 0 <= j < prompt.len() ==> writes[count - prompt.len() + j]
                == WriteView::InsertEntry(
                NewEntryView::Message(
                    NewMessageEntryView {
                        id: prompt[j].entry_id,
                        parent_id: if count - prompt.len() + j == 0 {
                            state.tip_id
                        } else {
                            Some(writes[count - prompt.len() + j - 1]->InsertEntry_0.id())
                        },
                        custom_type: None,
                        message: prompt[j].message,
                        terminate: None,
                    },
                ),
            )
            &&& next.tip_id == Some(writes[count - 1]->InsertEntry_0.id())
            &&& writes.contains(
                WriteView::SetValue {
                    address: AddressView::BranchTip { lane },
                    value: DurableValueView::Tip(next.tip_id),
                },
            )
            &&& stores_operation(writes, lane, meta, leaf, state.last_operation_id, next.inbox)
            &&& next.operation == Some(OperationView { meta, state: leaf })
            &&& next.configuration == state.configuration
            &&& next.last_operation_id == state.last_operation_id
            &&& result == (AnswerView::Granted {
                value: OperationAdmissionView { operation_id, kind: "run"@, started_at },
            })
            &&& events[0] == PlannedEventView::Ready(
                HarnessEventView::RunStart { lane, run_id: operation_id, started_at, recovery: None },
            )
        },
{
    if let Ok(LaneCommandView::Commit { writes, next, .. }) = run_acceptance(
        lane,
        operation_id,
        started_at,
        config,
        state,
        rows,
        prompt,
    ) {
        let selected = split_inbox(
            state.inbox,
            config.steering_mode,
            config.follow_up_mode,
            true,
            state.inbox.len(),
        );
        lemma_captured(rows, selected);
        let count = (selected.len() + prompt.len()) as int;
        let base = count + selected.len();
        assert(count > 0) by {
            if prompt.len() == 0 {
                let i = choose|i: int|
                    0 <= i < selected.len() && (#[trigger] selected[i]).kind
                        != InboxItemKind::Write;
                assert(0 <= i < selected.len());
            }
        }
        let ids = Seq::new(prompt.len(), |p: int| prompt[p].entry_id);
        assert(ids =~= crate::lane::accept::prompt_ids(prompt));
        assert(writes[base] == (WriteView::SetValue {
            address: AddressView::BranchTip { lane },
            value: DurableValueView::Tip(next.tip_id),
        }));
        assert(writes[base + 1] is SetValue);
        assert(writes[base + 2] is SetValue);
        assert(writes[base + 3] is SetValue);
    }
}

/// When a run is refused: the lane has an operation, whose id and kind are told; or
/// there would be nothing to answer. A refusal changes nothing.
pub proof fn law_a_run_is_refused_where_it_has_to_be(
    lane: Seq<char>,
    operation_id: Seq<char>,
    started_at: u64,
    config: ConfigView,
    state: LaneRuntimeStateView,
    rows: Seq<PendingRowView>,
    prompt: Seq<ReservedMessageView>,
)
    requires
        distinct_ids(state.inbox),
    ensures
        ({
            let decided = run_acceptance(
                lane,
                operation_id,
                started_at,
                config,
                state,
                rows,
                prompt,
            );
            &&& state.operation matches Some(operation) ==> (decided matches Ok(
                LaneCommandView::Return { result: AnswerView::Refused { error } },
            ) && (error matches HarnessErrorView::LaneBusy { operation_id: owner, .. } && owner
                == operation.meta.operation_id))
            &&& state.operation is None ==> (decided matches Ok(LaneCommandView::Return { result })
                ==> (result matches AnswerView::Refused { error } && error
                is InvalidMessage) && prompt.len() == 0 && forall|k: int|
                0 <= k < state.inbox.len() && is_taken(config, state.inbox, k) ==> (
                #[trigger] state.inbox[k]).kind == InboxItemKind::Write)
            &&& state.operation is None && prompt.len() > 0 && decided is Ok ==> decided->Ok_0
                is Commit
        }),
{
    if state.operation is None {
        if let Ok(LaneCommandView::Return { .. }) = run_acceptance(
            lane,
            operation_id,
            started_at,
            config,
            state,
            rows,
            prompt,
        ) {
            let selected = split_inbox(
                state.inbox,
                config.steering_mode,
                config.follow_up_mode,
                true,
                state.inbox.len(),
            );
            assert forall|k: int|
                0 <= k < state.inbox.len() && is_taken(config, state.inbox, k) implies (
            #[trigger] state.inbox[k]).kind == InboxItemKind::Write by {
                lemma_split(config, state.inbox, true, state.inbox.len(), k);
                let at = selected.index_of(state.inbox[k]);
                assert(selected[at] == state.inbox[k]);
            }
        }
    }
}

/// A compaction is accepted just on a lane without operation that has something to
/// compact. Its preparation is stored, and it is decided on next. Transcript, tip, inbox
/// and settings stay.
pub proof fn law_an_accepted_compaction_is_prepared(
    lane: Seq<char>,
    operation_id: Seq<char>,
    task_id: Seq<char>,
    started_at: u64,
    config: ConfigView,
    state: LaneRuntimeStateView,
    custom_instructions: Option<Seq<char>>,
    preparation: Option<DurableStructuralPreparationView>,
)
    ensures
        ({
            let decided = compaction_acceptance(
                lane,
                operation_id,
                task_id,
                started_at,
                config,
                state,
                custom_instructions,
                preparation,
            );
            &&& decided is Commit <==> state.operation is None && preparation is Some
            &&& state.operation matches Some(operation) ==> (decided
                matches LaneCommandView::Return { result: AnswerView::Refused { error } } && (error
                matches HarnessErrorView::LaneBusy { operation_id: owner, .. } && owner
                == operation.meta.operation_id))
            &&& state.operation is None && preparation is None ==> (decided
                matches LaneCommandView::Return { result: AnswerView::Refused { error } } && error
                is NothingToCompact)
            &&& decided matches LaneCommandView::Commit { writes, next, result, events } ==> {
                let meta = OperationMetaView {
                    operation_id,
                    lane,
                    intent: OperationIntentView::Compaction { custom_instructions },
                    source_tip_id: state.tip_id,
                    started_at,
                };
                let leaf = OperationStateView::SummaryDeciding {
                    scope: starting_scope(config),
                    task: SummaryTaskView {
                        task_id,
                        reason: Some("manual"@),
                        custom_instructions,
                        boundary: ResultBoundaryView::Finish,
                    },
                };
                &&& writes.len() == 4
                &&& writes[0] == (WriteView::SetValue {
                    address: AddressView::OperationPreparation { operation_id, task_id },
                    value: DurableValueView::Preparation(preparation->Some_0),
                })
                &&& stores_operation(writes, lane, meta, leaf, state.last_operation_id, state.inbox)
                &&& next == LaneRuntimeStateView {
                    operation: Some(OperationView { meta, state: leaf }),
                    ..state
                }
                &&& result == (AnswerView::Granted {
                    value: OperationAdmissionView { operation_id, kind: "compaction"@, started_at },
                })
                &&& events == seq![
                    PlannedEventView::Ready(
                        HarnessEventView::CompactionStart {
                            lane,
                            run_id: operation_id,
                            reason: "manual"@,
                            started_at,
                            recovery: None,
                        },
                    ),
                ]
            }
        }),
{
    if let LaneCommandView::Commit { writes, .. } = compaction_acceptance(
        lane,
        operation_id,
        task_id,
        started_at,
        config,
        state,
        custom_instructions,
        preparation,
    ) {
        assert(writes[1] is SetValue && writes[2] is SetValue && writes[3] is SetValue);
    }
}

/// A navigation is accepted just on a lane without operation, to a target that exists and
/// is not where the lane is; to the root only without a label; with a summary only from
/// an entry to an entry. A lane that moved meanwhile has to be looked at again. An
/// accepted navigation goes straight to its target, or decides about the summary of what
/// it leaves, whose preparation is stored. Tip, inbox and settings stay until then.
pub proof fn law_an_accepted_navigation_knows_its_target(
    lane: Seq<char>,
    operation_id: Seq<char>,
    task_id: Seq<char>,
    started_at: u64,
    config: ConfigView,
    state: LaneRuntimeStateView,
    observed_tip_id: Option<Seq<char>>,
    target_id: Option<Seq<char>>,
    summarize: bool,
    label: Option<Seq<char>>,
    custom_instructions: Option<Seq<char>>,
    target_exists: bool,
    preparation: Option<DurableStructuralPreparationView>,
)
    ensures
        ({
            let decided = navigation_acceptance(
                lane,
                operation_id,
                task_id,
                started_at,
                config,
                state,
                observed_tip_id,
                target_id,
                summarize,
                label,
                custom_instructions,
                target_exists,
                preparation,
            );
            let sound = target_id != state.tip_id && (target_id is None ==> label is None) && (
            summarize ==> state.tip_id is Some && target_id is Some) && (target_id is Some
                ==> target_exists);
            &&& decided is Commit <==> state.operation is None && state.tip_id == observed_tip_id
                && sound
            &&& state.operation matches Some(operation) ==> (decided
                matches LaneCommandView::Return { result: AnswerView::Refused { error } } && (error
                matches HarnessErrorView::LaneBusy { operation_id: owner, .. } && owner
                == operation.meta.operation_id))
            &&& state.operation is None && state.tip_id != observed_tip_id ==> decided == (
            LaneCommandView::Return::<AnswerView<Option<OperationAdmissionView>>> {
                result: AnswerView::Granted { value: None },
            })
            &&& state.operation is None && state.tip_id == observed_tip_id && !sound ==> (decided
                matches LaneCommandView::Return { result: AnswerView::Refused { error } } && (error
                is InvalidNavigation || (error matches HarnessErrorView::UnknownTarget {
                target_id: unknown,
                ..
            } && target_id == Some(unknown) && !target_exists)))
            &&& decided matches LaneCommandView::Commit { writes, next, result, events } ==> {
                let meta = OperationMetaView {
                    operation_id,
                    lane,
                    intent: OperationIntentView::Navigation {
                        target_id,
                        summarize,
                        label,
                        custom_instructions,
                    },
                    source_tip_id: state.tip_id,
                    started_at,
                };
                let leaf = if summarize {
                    OperationStateView::SummaryDeciding {
                        scope: starting_scope(config),
                        task: SummaryTaskView {
                            task_id,
                            reason: None,
                            custom_instructions,
                            boundary: ResultBoundaryView::CommitNavigation {
                                target_id: target_id->Some_0,
                                label,
                            },
                        },
                    }
                } else {
                    OperationStateView::NavigationReadyToCommit {
                        scope: starting_scope(config),
                        target_id,
                        label,
                    }
                };
                &&& stores_operation(writes, lane, meta, leaf, state.last_operation_id, state.inbox)
                &&& summarize ==> writes[0] == (WriteView::SetValue {
                    address: AddressView::OperationPreparation { operation_id, task_id },
                    value: DurableValueView::Preparation(preparation->Some_0),
                })
                &&& next == LaneRuntimeStateView {
                    operation: Some(OperationView { meta, state: leaf }),
                    ..state
                }
                &&& result == (AnswerView::Granted {
                    value: Some(
                        OperationAdmissionView { operation_id, kind: "navigation"@, started_at },
                    ),
                })
                &&& events.len() == 1
            }
        }),
{
    if let LaneCommandView::Commit { writes, .. } = navigation_acceptance(
        lane,
        operation_id,
        task_id,
        started_at,
        config,
        state,
        observed_tip_id,
        target_id,
        summarize,
        label,
        custom_instructions,
        target_exists,
        preparation,
    ) {
        let skip: int = if summarize {
            1
        } else {
            0
        };
        assert(writes[skip] is SetValue && writes[skip + 1] is SetValue && writes[skip + 2]
            is SetValue);
    }
}

proof fn lemma_meeting(old_path: Seq<EntryView>, target_path: Seq<EntryView>, n: int)
    requires
        0 <= n <= target_path.len(),
    ensures
        ({
            let p = meeting_place(old_path, target_path, n);
            &&& 0 <= p <= old_path.len()
            &&& p < old_path.len() ==> exists|m: int|
                n <= m < target_path.len() && (#[trigger] target_path[m]).id() == old_path[p].id()
                    && forall|j: int, q: int|
                    n <= j < m && 0 <= q < old_path.len() ==> (#[trigger] target_path[j]).id() != (
                    #[trigger] old_path[q]).id()
            &&& p == old_path.len() ==> forall|j: int, q: int|
                n <= j < target_path.len() && 0 <= q < old_path.len() ==> (
                #[trigger] target_path[j]).id() != (#[trigger] old_path[q]).id()
        }),
    decreases target_path.len() - n,
{
    if n < target_path.len() {
        let id = target_path[n].id();
        lemma_place_found(old_path, id);
        if place_on_path(old_path, id) is None {
            lemma_meeting(old_path, target_path, n + 1);
            let p = meeting_place(old_path, target_path, n + 1);
            if p < old_path.len() {
                let m = choose|m: int|
                    n + 1 <= m < target_path.len() && (#[trigger] target_path[m]).id()
                        == old_path[p].id() && forall|j: int, q: int|
                        n + 1 <= j < m && 0 <= q < old_path.len() ==> (
                        #[trigger] target_path[j]).id() != (#[trigger] old_path[q]).id();
                assert(target_path[m].id() == old_path[p].id());
            }
        } else {
            assert(target_path[n].id() == id);
        }
    }
}

proof fn lemma_place_found(entries: Seq<EntryView>, id: Seq<char>)
    ensures
        match place_on_path(entries, id) {
            Some(place) => 0 <= place < entries.len() && entries[place].id() == id,
            None => forall|j: int| 0 <= j < entries.len() ==> (#[trigger] entries[j]).id() != id,
        },
    decreases entries.len(),
{
    if entries.len() > 0 {
        let rest = entries.drop_last();
        lemma_place_found(rest, id);
        assert forall|j: int| 0 <= j < rest.len() implies rest[j] == #[trigger] entries[j] by {}
    }
}

/// What a navigation leaves, from the oldest entry on: the old path above the place where
/// the two paths meet, which is the newest entry of the target's path that is on the old
/// one. Where they do not meet, all of the old path is left.
pub proof fn law_a_navigation_leaves_what_is_above_the_meeting_place(
    old_path: Seq<EntryView>,
    target_path: Seq<EntryView>,
)
    ensures
        ({
            let left = left_behind(old_path, target_path);
            let p = left.len() as int;
            &&& p <= old_path.len()
            &&& forall|i: int| 0 <= i < p ==> #[trigger] left[i] == old_path[p - 1 - i]
            &&& p < old_path.len() ==> exists|m: int|
                0 <= m < target_path.len() && (#[trigger] target_path[m]).id() == old_path[p].id()
                    && forall|j: int, q: int|
                    0 <= j < m && 0 <= q < old_path.len() ==> (#[trigger] target_path[j]).id() != (
                    #[trigger] old_path[q]).id()
            &&& p == old_path.len() ==> forall|j: int, q: int|
                0 <= j < target_path.len() && 0 <= q < old_path.len() ==> (
                #[trigger] target_path[j]).id() != (#[trigger] old_path[q]).id()
        }),
{
    lemma_meeting(old_path, target_path, 0);
}

/// What a prompt is made of: text is one message, a list is several, anything else is
/// one. The message of a user holds the text, if there is any, and then the images.
pub proof fn law_a_prompt_is_read_by_its_shape(
    prompt: serde_json::Value,
    text: Seq<char>,
    images: Seq<serde_json::Value>,
    i: int,
)
    ensures
        match crate::json::text_of(prompt) {
            Some(given) => prompt_input(prompt) == PromptInputView::Text(given),
            None => match crate::json::elements_of(prompt) {
                Some(values) => prompt_input(prompt) == PromptInputView::Many(values),
                None => prompt_input(prompt) == PromptInputView::One(prompt),
            },
        },
        ({
            let blocks = user_blocks(text, images);
            let skip: int = if text.len() == 0 {
                0
            } else {
                1
            };
            &&& blocks.len() == skip + images.len()
            &&& text.len() > 0 ==> blocks[0] == (ToolResultContentView::Text {
                text,
                text_signature: None,
            })
            &&& 0 <= i < images.len() ==> blocks[skip + i] == ToolResultContentView::Image(images[i])
        }),
{
}

} // verus!
