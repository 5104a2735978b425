//! What an observer knows of a lane that follows its events: the same as one that
//! looks at the lane again.

use crate::command::LaneCommandView;
use crate::drive::boundary::{
    boundary_plan, boundary_selection, loaded_all, placed_entries, placed_entry, queue_events,
    tip_after,
};
use crate::drive::checkpoint::{appended, run_start, DueCompactionView, ReservedMessageView};
use crate::drive::deferred::{poll_events, poll_intent};
use crate::drive::dispatch::kind_of_intent;
use crate::drive::finish::{
    end_after, entry_events, lemma_entry_events_emitted, lemma_ready_emitted, placement_events,
    ready, step_after,
};
use crate::drive::generation::{generation_intent, retry_command};
use crate::drive::reconcile::aborted_command;
use crate::drive::response::{
    configuration_failure, poll_turn, recorded, response_entry, response_usage, DispositionView,
    SettlementView,
};
use crate::drive::tool_placement::{
    activated, placed_events, placed_rows, placed_writes, placement_command, result_entry, row_for,
    tip_before, PlacementItemView,
};
use crate::inbox::{lane_queues, of_kind, without};
use crate::lane::accept::{
    captured_entries, chained, law_chains_are_linked, prompt_entries, split_inbox, AnswerView,
};
use crate::lane::configure::{configuration_command, status_of};
use crate::lane::intake::{compaction_acceptance, navigation_acceptance, run_acceptance};
use crate::lane::queue::{
    abort_command, append_command, appended_events, cancel_command, queue_command, queued_writes,
};
use crate::lane::settle::settled;
use crate::lane::snapshot::{captured, ToolReadView};
use crate::model::event::{
    ConfigUpdatePayloadView, HarnessEventView, LaneQueuedItemView, LaneSnapshotView,
    PlannedEventView,
};
use crate::model::message::AssistantMessageView;
use crate::model::session::{
    DurableStructuralPreparationView, InboxItemKind, InboxItemView, LaneConfigurationView,
    OperationErrorView, OperationResultRecordView, OperationStateView, PendingEntryView, QueueMode,
    TerminalStatus,
};
use crate::model::storage::{
    AddressView, CommitResultView, EntryView, NewEntryView, SessionStatsView,
};
use crate::reducer::{reconfigured, reduced};
use crate::transcript::{
    committed_events, emitted, emitted_one, lemma_emitted_concat, lifecycle, materialized, seq_at,
};
use crate::types::{ConfigView, LaneRuntimeStateView, PendingRowView};
use vstd::prelude::*;

verus! {

/// What is known of an operation.
pub struct KnownOperation {
    pub id: Seq<char>,
    pub kind: Seq<char>,
    pub started_at: u64,
    pub from_tip_id: Option<Seq<char>>,
    pub status: Seq<char>,
}

/// What is known of a lane.
pub struct Known {
    pub lane: Seq<char>,
    pub tip_id: Option<Seq<char>>,
    pub configuration: LaneConfigurationView,
    pub queues: Seq<LaneQueuedItemView>,
    pub operation: Option<KnownOperation>,
}

/// What a snapshot tells.
pub open spec fn known_from(snapshot: LaneSnapshotView) -> Known {
    Known {
        lane: snapshot.lane,
        tip_id: snapshot.tip_id,
        configuration: snapshot.configuration,
        queues: snapshot.queues,
        operation: match snapshot.operation {
            Some(operation) => Some(
                KnownOperation {
                    id: operation.id,
                    kind: operation.kind,
                    started_at: operation.started_at,
                    from_tip_id: operation.from_tip_id,
                    status: operation.status,
                },
            ),
            None => None,
        },
    }
}

/// What there is to know of a lane.
pub open spec fn known_of(
    lane: Seq<char>,
    state: LaneRuntimeStateView,
    queues: Seq<LaneQueuedItemView>,
) -> Known {
    Known {
        lane,
        tip_id: state.tip_id,
        configuration: state.configuration,
        queues,
        operation: match state.operation {
            Some(operation) => Some(
                KnownOperation {
                    id: operation.meta.operation_id,
                    kind: kind_of_intent(operation.meta.intent),
                    started_at: operation.meta.started_at,
                    from_tip_id: operation.meta.source_tip_id,
                    status: status_of(operation.state),
                },
            ),
            None => None,
        },
    }
}

/// A snapshot tells what there is to know of its lane.
pub proof fn law_a_snapshot_tells_what_there_is(
    lane: Seq<char>,
    state: LaneRuntimeStateView,
    scanned: Seq<EntryView>,
    rows: Seq<PendingRowView>,
    last_result: Option<OperationResultRecordView>,
    stats: SessionStatsView,
    entry: Option<EntryView>,
    partial: Option<AssistantMessageView>,
    reads: Seq<ToolReadView>,
    faulted: bool,
)
    ensures
        captured(
            lane,
            state,
            scanned,
            rows,
            last_result,
            stats,
            entry,
            partial,
            reads,
            faulted,
        ) matches Ok(snapshot) ==> (lane_queues(rows, state.inbox) matches Ok(queues)
            && known_from(snapshot) == known_of(lane, state, queues)),
{
}

/// An operation that has just started.
pub open spec fn begun(known: Known, id: Seq<char>, kind: Seq<char>, started_at: u64) -> Known {
    Known {
        operation: Some(
            KnownOperation {
                id,
                kind,
                started_at,
                from_tip_id: known.tip_id,
                status: "open"@,
            },
        ),
        ..known
    }
}

/// Whether an operation of a kind is known under an id.
pub open spec fn knows(known: Known, id: Seq<char>, kind: Seq<char>) -> bool {
    known.operation matches Some(operation) && operation.id == id && operation.kind == kind
}

/// What is known after an event.
pub open spec fn learned(known: Known, event: HarnessEventView) -> Known {
    if event.lane() is Some && event.lane() != Some(known.lane) {
        known
    } else {
        match event {
            HarnessEventView::RunStart { run_id, started_at, .. } => begun(
                known,
                run_id,
                "run"@,
                started_at,
            ),
            HarnessEventView::CompactionStart { run_id, started_at, .. } => if known.operation
                is Some {
                known
            } else {
                begun(known, run_id, "compaction"@, started_at)
            },
            HarnessEventView::NavigationStart { run_id, started_at, .. } => begun(
                known,
                run_id,
                "navigation"@,
                started_at,
            ),
            HarnessEventView::OperationAbort { operation_id, .. } => match known.operation {
                Some(operation) => if operation.id == operation_id {
                    Known {
                        operation: Some(KnownOperation { status: "aborting"@, ..operation }),
                        ..known
                    }
                } else {
                    known
                },
                None => known,
            },
            HarnessEventView::EntryAdded { entry, .. } => Known {
                tip_id: Some(entry.id()),
                ..known
            },
            HarnessEventView::QueueUpdate { queues, .. } => Known { queues, ..known },
            HarnessEventView::ConfigUpdate { payload, .. } => Known {
                configuration: reconfigured(known.configuration, payload),
                ..known
            },
            HarnessEventView::RunEnd { run_id, tip_id, .. } => if knows(known, run_id, "run"@) {
                Known { operation: None, tip_id, ..known }
            } else {
                known
            },
            HarnessEventView::CompactionEnd { run_id, .. } => if knows(
                known,
                run_id,
                "compaction"@,
            ) {
                Known { operation: None, ..known }
            } else {
                known
            },
            _ => known,
        }
    }
}

/// What is known after some events.
pub open spec fn learned_all(known: Known, events: Seq<HarnessEventView>) -> Known
    decreases events.len(),
{
    if events.len() == 0 {
        known
    } else {
        learned(learned_all(known, events.drop_last()), events.last())
    }
}

/// A snapshot after some events.
pub open spec fn reduced_all(snapshot: LaneSnapshotView, events: Seq<HarnessEventView>) ->
    LaneSnapshotView
    decreases events.len(),
{
    if events.len() == 0 {
        snapshot
    } else {
        reduced(reduced_all(snapshot, events.drop_last()), events.last())
    }
}

#[verifier::rlimit(60)]
#[verifier::spinoff_prover]
proof fn lemma_snapshot_learns(snapshot: LaneSnapshotView, event: HarnessEventView)
    ensures
        known_from(reduced(snapshot, event)) == learned(known_from(snapshot), event),
{
}

/// What a snapshot tells after events is what was known with what the events add.
pub proof fn law_snapshots_learn_from_events(
    snapshot: LaneSnapshotView,
    events: Seq<HarnessEventView>,
)
    ensures
        known_from(reduced_all(snapshot, events)) == learned_all(known_from(snapshot), events),
    decreases events.len(),
{
    if events.len() > 0 {
        law_snapshots_learn_from_events(snapshot, events.drop_last());
        lemma_snapshot_learns(reduced_all(snapshot, events.drop_last()), events.last());
    }
}

proof fn lemma_learned_concat(
    known: Known,
    first: Seq<HarnessEventView>,
    second: Seq<HarnessEventView>,
)
    ensures
        learned_all(known, first + second) == learned_all(learned_all(known, first), second),
    decreases second.len(),
{
    if second.len() == 0 {
        assert(first + second =~= first);
    } else {
        lemma_learned_concat(known, first, second.drop_last());
        assert((first + second).drop_last() =~= first + second.drop_last());
        assert((first + second).last() == second.last());
    }
}

proof fn lemma_learned_one(known: Known, event: HarnessEventView)
    ensures
        learned_all(known, seq![event]) == learned(known, event),
{
    assert(seq![event].drop_last() =~= Seq::empty());
    reveal_with_fuel(learned_all, 2);
}

proof fn lemma_learned_lifecycle(
    known: Known,
    entry: EntryView,
    run_id: Option<Seq<char>>,
)
    ensures
        learned_all(known, lifecycle(entry, known.lane, run_id)) == (Known {
            tip_id: Some(entry.id()),
            ..known
        }),
{
    let events = lifecycle(entry, known.lane, run_id);
    reveal_with_fuel(learned_all, 4);
    if entry is Message {
        assert(events.drop_last().last() == events[1]);
        assert(events.drop_last().drop_last().last() == events[0]);
        assert(events.drop_last().drop_last().drop_last() =~= Seq::empty());
    } else {
        assert(events.drop_last() =~= Seq::empty());
    }
}

/// The id of the last of some entries, or else what was there before.
pub open spec fn last_id(tip_id: Option<Seq<char>>, entries: Seq<NewEntryView>) -> Option<
    Seq<char>,
> {
    if entries.len() == 0 {
        tip_id
    } else {
        Some(entries.last().id())
    }
}

proof fn lemma_learned_entries(
    known: Known,
    entries: Seq<NewEntryView>,
    commit: CommitResultView,
    run_id: Option<Seq<char>>,
)
    ensures
        learned_all(known, committed_events(entries, commit, known.lane, run_id, 0)) == (Known {
            tip_id: last_id(known.tip_id, entries),
            ..known
        }),
    decreases entries.len(),
{
    if entries.len() > 0 {
        lemma_learned_entries(known, entries.drop_last(), commit, run_id);
        let last = entries.len() - 1;
        let entry = materialized(entries[last], seq_at(commit, last), commit.timestamp);
        let before = committed_events(entries.drop_last(), commit, known.lane, run_id, 0);
        let known_before = learned_all(known, before);
        lemma_learned_concat(known, before, lifecycle(entry, known.lane, run_id));
        lemma_learned_lifecycle(known_before, entry, run_id);
        assert(entry.id() == entries.last().id());
    }
}

/// What is known after the events of a commit.
pub open spec fn told(
    known: Known,
    plan: Seq<PlannedEventView>,
    commit: CommitResultView,
) -> Known {
    learned_all(known, emitted(plan, commit))
}

proof fn lemma_told_concat(
    known: Known,
    first: Seq<PlannedEventView>,
    second: Seq<PlannedEventView>,
    commit: CommitResultView,
)
    ensures
        told(known, first + second, commit) == told(told(known, first, commit), second, commit),
{
    lemma_emitted_concat(first, second, commit);
    lemma_learned_concat(known, emitted(first, commit), emitted(second, commit));
}

proof fn lemma_told_ready(known: Known, event: HarnessEventView, commit: CommitResultView)
    ensures
        told(known, seq![PlannedEventView::Ready(event)], commit) == learned(known, event),
{
    assert(ready(seq![event]) =~= seq![PlannedEventView::Ready(event)]);
    lemma_ready_emitted(seq![event], commit);
    lemma_learned_one(known, event);
}

proof fn lemma_told_entries(
    known: Known,
    entries: Seq<NewEntryView>,
    run_id: Seq<char>,
    commit: CommitResultView,
)
    requires
        entries.len() <= usize::MAX,
    ensures
        told(known, entry_events(entries, known.lane, run_id), commit) == (Known {
            tip_id: last_id(known.tip_id, entries),
            ..known
        }),
{
    lemma_entry_events_emitted(entries, commit, known.lane, run_id);
    lemma_learned_entries(known, entries, commit, Some(run_id));
}

/// Whether an observer that knows a lane still knows it after a command.
pub open spec fn keeps_track<T>(
    lane: Seq<char>,
    state: LaneRuntimeStateView,
    queues: Seq<LaneQueuedItemView>,
    command: LaneCommandView<T>,
    queues_after: Seq<LaneQueuedItemView>,
    commit: CommitResultView,
) -> bool {
    command matches LaneCommandView::Commit { next, events, .. } ==> told(
        known_of(lane, state, queues),
        events,
        commit,
    ) == known_of(lane, next, queues_after)
}

/// An observer keeps track of what is queued and taken back.
pub proof fn law_observers_follow_the_queue(
    lane: Seq<char>,
    state: LaneRuntimeStateView,
    queues: Seq<LaneQueuedItemView>,
    rows: Seq<PendingRowView>,
    entry_id: Seq<char>,
    kind: InboxItemKind,
    pending: PendingEntryView,
    consumed: bool,
    commit: CommitResultView,
)
    ensures
        queue_command(lane, state, rows, entry_id, kind, pending, ()) matches Ok(command) && (
        command matches LaneCommandView::Commit { next, .. } && lane_queues(
            rows,
            next.inbox,
        ) matches Ok(after) && keeps_track(lane, state, queues, command, after, commit)) || (
        queue_command(lane, state, rows, entry_id, kind, pending, ()) is Err),
        cancel_command(lane, state, rows, entry_id, consumed) matches Ok(
            LaneCommandView::Commit { next, writes, result, events },
        ) ==> (lane_queues(rows, next.inbox) matches Ok(after) && keeps_track(
            lane,
            state,
            queues,
            LaneCommandView::Commit { next, writes, result, events },
            after,
            commit,
        )),
{
    let known = known_of(lane, state, queues);
    if let Ok(LaneCommandView::Commit { next, events, .. }) = queue_command(
        lane,
        state,
        rows,
        entry_id,
        kind,
        pending,
        (),
    ) {
        let after = lane_queues(rows, next.inbox)->Ok_0;
        lemma_told_ready(
            known,
            HarnessEventView::QueueUpdate { lane, queues: after, recovery: None },
            commit,
        );
    }
    if let Ok(LaneCommandView::Commit { next, events, .. }) = cancel_command(
        lane,
        state,
        rows,
        entry_id,
        consumed,
    ) {
        let after = lane_queues(rows, next.inbox)->Ok_0;
        lemma_told_ready(
            known,
            HarnessEventView::QueueUpdate { lane, queues: after, recovery: None },
            commit,
        );
    }
}

/// An observer keeps track of the settings of a lane.
pub proof fn law_observers_follow_settings(
    lane: Seq<char>,
    state: LaneRuntimeStateView,
    queues: Seq<LaneQueuedItemView>,
    payload: ConfigUpdatePayloadView,
    commit: CommitResultView,
)
    ensures
        keeps_track(
            lane,
            state,
            queues,
            configuration_command(
                lane,
                state,
                reconfigured(state.configuration, payload),
                payload,
            ),
            queues,
            commit,
        ),
{
    lemma_told_ready(
        known_of(lane, state, queues),
        HarnessEventView::ConfigUpdate { lane: Some(lane), payload, recovery: None },
        commit,
    );
}

proof fn lemma_none_left_out(inbox: Seq<InboxItemView>)
    ensures
        without(inbox, Seq::empty()) == inbox,
    decreases inbox.len(),
{
    reveal(Seq::filter);
    if inbox.len() > 0 {
        lemma_none_left_out(inbox.drop_last());
        assert(without(inbox, Seq::empty()) =~= inbox);
    } else {
        assert(without(inbox, Seq::empty()) =~= inbox);
    }
}

/// An observer keeps track of a request to stop.
pub proof fn law_observers_follow_a_stop(
    lane: Seq<char>,
    operation_id: Seq<char>,
    state: LaneRuntimeStateView,
    rows: Seq<PendingRowView>,
    requested_at: u64,
    commit: CommitResultView,
)
    requires
        lane_queues(rows, state.inbox) is Ok,
    ensures
        abort_command(lane, operation_id, state, rows, requested_at) matches Ok(command) ==> (
        command matches LaneCommandView::Commit { next, .. } ==> (lane_queues(
            rows,
            next.inbox,
        ) matches Ok(after) && keeps_track(
            lane,
            state,
            lane_queues(rows, state.inbox)->Ok_0,
            command,
            after,
            commit,
        ))),
{
    let queues = lane_queues(rows, state.inbox)->Ok_0;
    let known = known_of(lane, state, queues);
    if let Ok(LaneCommandView::Commit { next, events, result, .. }) = abort_command(
        lane,
        operation_id,
        state,
        rows,
        requested_at,
    ) {
        let after = lane_queues(rows, next.inbox)->Ok_0;
        let removed = crate::lane::queue::abandoned(state.inbox);
        if let AnswerView::Granted { value } = result {
            let stop = HarnessEventView::OperationAbort {
                lane,
                operation_id,
                steer: value.steer,
                follow_up: value.follow_up,
                recovery: None,
            };
            let first = seq![PlannedEventView::Ready(stop)];
            lemma_told_ready(known, stop, commit);
            if removed.len() == 0 {
                assert(events =~= first);
                assert(crate::inbox::item_ids(removed) =~= Seq::empty());
                lemma_none_left_out(state.inbox);
            } else {
                let update = HarnessEventView::QueueUpdate {
                    lane,
                    queues: after,
                    recovery: None,
                };
                lemma_told_concat(known, first, seq![PlannedEventView::Ready(update)], commit);
                lemma_told_ready(told(known, first, commit), update, commit);
            }
        }
    }
}

proof fn lemma_split_inbox(
    inbox: Seq<InboxItemView>,
    steering_mode: QueueMode,
    follow_up_mode: QueueMode,
    n: nat,
)
    requires
        n <= inbox.len(),
    ensures
        split_inbox(inbox, steering_mode, follow_up_mode, true, n).len() <= n,
        split_inbox(inbox, steering_mode, follow_up_mode, true, n).len() == 0 ==> split_inbox(
            inbox,
            steering_mode,
            follow_up_mode,
            false,
            n,
        ) == inbox.take(n as int),
    decreases n,
{
    if n > 0 {
        lemma_split_inbox(inbox, steering_mode, follow_up_mode, (n - 1) as nat);
        assert(inbox.take(n as int) =~= inbox.take(n - 1).push(inbox[n - 1]));
    } else {
        assert(inbox.take(0) =~= Seq::empty());
    }
}

proof fn lemma_captured_len(rows: Seq<PendingRowView>, items: Seq<InboxItemView>)
    ensures
        captured_entries(rows, items) matches Ok(entries) ==> entries.len() == items.len(),
    decreases items.len(),
{
    if items.len() > 0 {
        lemma_captured_len(rows, items.drop_last());
    }
}

/// An observer keeps track of a run that is accepted.
pub proof fn law_observers_follow_an_accepted_run(
    lane: Seq<char>,
    operation_id: Seq<char>,
    started_at: u64,
    config: ConfigView,
    state: LaneRuntimeStateView,
    rows: Seq<PendingRowView>,
    prompt: Seq<ReservedMessageView>,
    commit: CommitResultView,
)
    requires
        lane_queues(rows, state.inbox) is Ok,
        state.inbox.len() + prompt.len() <= usize::MAX,
    ensures
        run_acceptance(
            lane,
            operation_id,
            started_at,
            config,
            state,
            rows,
            prompt,
        ) matches Ok(command) ==> (command matches LaneCommandView::Commit { next, .. } ==> (
        lane_queues(rows, next.inbox) matches Ok(after) && keeps_track(
            lane,
            state,
            lane_queues(rows, state.inbox)->Ok_0,
            command,
            after,
            commit,
        ))),
{
    let queues = lane_queues(rows, state.inbox)->Ok_0;
    let known = known_of(lane, state, queues);
    if let Ok(LaneCommandView::Commit { next, events, .. }) = run_acceptance(
        lane,
        operation_id,
        started_at,
        config,
        state,
        rows,
        prompt,
    ) {
        let n = state.inbox.len();
        let steering_mode = config.steering_mode;
        let follow_up_mode = config.follow_up_mode;
        let selected = split_inbox(state.inbox, steering_mode, follow_up_mode, true, n);
        let taken = captured_entries(rows, selected)->Ok_0;
        let entries = chained(state.tip_id, taken + prompt_entries(prompt));
        lemma_split_inbox(state.inbox, steering_mode, follow_up_mode, n);
        assert(state.inbox.take(n as int) =~= state.inbox);
        lemma_captured_len(rows, selected);
        assert(entries.len() > 0);
        let start = HarnessEventView::RunStart {
            lane,
            run_id: operation_id,
            started_at,
            recovery: None,
        };
        let first = seq![PlannedEventView::Ready(start)];
        let added = entry_events(entries, lane, operation_id);
        let after = lane_queues(rows, next.inbox)->Ok_0;
        let begun = told(known, first, commit);
        lemma_told_ready(known, start, commit);
        lemma_told_concat(known, first, added, commit);
        lemma_told_entries(begun, entries, operation_id, commit);
        if selected.len() == 0 {
            assert(events =~= first + added);
        } else {
            let update = HarnessEventView::QueueUpdate { lane, queues: after, recovery: None };
            lemma_told_concat(
                known,
                first + added,
                seq![PlannedEventView::Ready(update)],
                commit,
            );
            lemma_told_ready(told(known, first + added, commit), update, commit);
        }
    }
}

/// An observer keeps track of a compaction or a navigation that is accepted.
pub proof fn law_observers_follow_an_accepted_move(
    lane: Seq<char>,
    operation_id: Seq<char>,
    task_id: Seq<char>,
    started_at: u64,
    config: ConfigView,
    state: LaneRuntimeStateView,
    queues: Seq<LaneQueuedItemView>,
    observed_tip_id: Option<Seq<char>>,
    target_id: Option<Seq<char>>,
    summarize: bool,
    label: Option<Seq<char>>,
    custom_instructions: Option<Seq<char>>,
    target_exists: bool,
    preparation: Option<DurableStructuralPreparationView>,
    commit: CommitResultView,
)
    ensures
        keeps_track(
            lane,
            state,
            queues,
            compaction_acceptance(
                lane,
                operation_id,
                task_id,
                started_at,
                config,
                state,
                custom_instructions,
                preparation,
            ),
            queues,
            commit,
        ),
        keeps_track(
            lane,
            state,
            queues,
            navigation_acceptance(
                lane,
                operation_id,
                task_id,
                started_at,
                config,
                state,
                observed_tip_id,
                target_id,
                summarize,
                label,
                custom_instructions,
                target_exists,
                preparation,
            ),
            queues,
            commit,
        ),
{
    let known = known_of(lane, state, queues);
    lemma_told_ready(
        known,
        HarnessEventView::CompactionStart {
            lane,
            run_id: operation_id,
            reason: "manual"@,
            started_at,
            recovery: None,
        },
        commit,
    );
    lemma_told_ready(
        known,
        HarnessEventView::NavigationStart {
            lane,
            run_id: operation_id,
            target_id,
            started_at,
            recovery: None,
        },
        commit,
    );
}

proof fn lemma_appended_emitted(
    entries: Seq<NewEntryView>,
    commit: CommitResultView,
    lane: Seq<char>,
)
    requires
        entries.len() <= usize::MAX,
    ensures
        emitted(appended_events(entries, lane), commit) == committed_events(
            entries,
            commit,
            lane,
            None,
            0,
        ),
    decreases entries.len(),
{
    if entries.len() > 0 {
        lemma_appended_emitted(entries.drop_last(), commit, lane);
        assert(appended_events(entries, lane).drop_last() =~= appended_events(
            entries.drop_last(),
            lane,
        ));
    }
}

/// An observer keeps track of an entry that is appended to an idle lane, but for
/// the list of queued entries: that writes have left it is not announced.
pub proof fn law_observers_follow_an_appended_entry(
    lane: Seq<char>,
    state: LaneRuntimeStateView,
    queues: Seq<LaneQueuedItemView>,
    rows: Seq<PendingRowView>,
    id: Seq<char>,
    pending: PendingEntryView,
    commit: CommitResultView,
)
    requires
        state.operation is None,
        state.inbox.len() < usize::MAX,
    ensures
        append_command(lane, state, rows, id, pending) matches Ok(command) ==> keeps_track(
            lane,
            state,
            queues,
            command,
            queues,
            commit,
        ),
{
    let known = known_of(lane, state, queues);
    let items = of_kind(state.inbox, InboxItemKind::Write);
    if let Ok(before) = queued_writes(rows, items) {
        let given = before.push(placed_entry(id, None, pending));
        let entries = chained(state.tip_id, given);
        lemma_queued_len(rows, items);
        state.inbox.lemma_filter_len(|item: InboxItemView| item.kind == InboxItemKind::Write);
        law_chains_are_linked(state.tip_id, given);
        lemma_appended_emitted(entries, commit, lane);
        lemma_learned_entries(known, entries, commit, None);
        assert(entries.last().id() == given.last().id());
    }
}

proof fn lemma_queued_len(rows: Seq<PendingRowView>, items: Seq<InboxItemView>)
    ensures
        queued_writes(rows, items) matches Ok(entries) ==> entries.len() == items.len(),
    decreases items.len(),
{
    if items.len() > 0 {
        lemma_queued_len(rows, items.drop_last());
    }
}

/// An observer keeps track of the moves of a run: what a hook injects when it
/// starts, its requests, and their repetition.
pub proof fn law_observers_follow_a_run(
    lane: Seq<char>,
    state: LaneRuntimeStateView,
    queues: Seq<LaneQueuedItemView>,
    reserved: Seq<ReservedMessageView>,
    leaf: OperationStateView,
    response_entry_id: Seq<char>,
    usage_id: Seq<char>,
    intended_output_limit: u64,
    context_window: u64,
    commit: CommitResultView,
)
    requires
        state.operation matches Some(operation) && operation.meta.intent is Run
            && !operation.state.is_deferred() && !operation.state.cancelled(),
        reserved.len() <= usize::MAX,
    ensures
        ({
            let operation = state.operation->Some_0;
            let operation_id = operation.meta.operation_id;
            &&& run_start(
                lane,
                operation_id,
                state.tip_id,
                operation.state,
                reserved,
            ) matches Ok(command) ==> keeps_track(
                lane,
                state,
                queues,
                settled(lane, state, command),
                queues,
                commit,
            )
            &&& leaf is AssistantReady ==> keeps_track(
                lane,
                state,
                queues,
                settled(
                    lane,
                    state,
                    generation_intent(
                        lane,
                        operation_id,
                        leaf,
                        operation.state,
                        response_entry_id,
                        usage_id,
                        intended_output_limit,
                        context_window,
                    ),
                ),
                queues,
                commit,
            )
            &&& leaf is AssistantRetryWait ==> keeps_track(
                lane,
                state,
                queues,
                settled(
                    lane,
                    state,
                    retry_command(lane, operation_id, leaf, operation.state),
                ),
                queues,
                commit,
            )
        }),
{
    let known = known_of(lane, state, queues);
    let operation = state.operation->Some_0;
    let operation_id = operation.meta.operation_id;
    let entries = appended(state.tip_id, reserved);
    lemma_told_entries(known, entries, operation_id, commit);
    if let OperationStateView::AssistantReady { generation_context, .. } = leaf {
        lemma_told_ready(
            known,
            HarnessEventView::TurnStart {
                lane,
                run_id: operation_id,
                turn_id: generation_context.step_id,
                recovery: None,
            },
            commit,
        );
        assert(emitted(Seq::empty(), commit) =~= Seq::empty());
    }
    if let OperationStateView::AssistantRetryWait { generation_context, next_attempt, .. } = leaf {
        lemma_told_ready(
            known,
            HarnessEventView::RetryStart {
                lane,
                run_id: operation_id,
                step: generation_context.step_id,
                attempt: next_attempt,
                recovery: None,
            },
            commit,
        );
    }
}

/// An observer keeps track of a response, and of the end of a run that fails on it.
pub proof fn law_observers_follow_a_response(
    lane: Seq<char>,
    state: LaneRuntimeStateView,
    queues: Seq<LaneQueuedItemView>,
    response_entry_id: Seq<char>,
    usage_id: Seq<char>,
    settlement: SettlementView,
    due: Option<DueCompactionView>,
    recovery: bool,
    scratch: Seq<AddressView>,
    ended_at: u64,
    commit: CommitResultView,
)
    requires
        state.operation matches Some(operation) && operation.meta.intent is Run && (
        settlement.disposition matches DispositionView::Next(next) ==> next.cancelled()
            == operation.state.cancelled()),
    ensures
        ({
            let operation = state.operation->Some_0;
            keeps_track(
                lane,
                state,
                queues,
                settled(
                    lane,
                    state,
                    recorded(
                        lane,
                        operation.meta.operation_id,
                        response_entry_id,
                        usage_id,
                        state.tip_id,
                        operation.state,
                        operation.meta,
                        settlement,
                        due,
                        recovery,
                        scratch,
                        ended_at,
                    ),
                ),
                queues,
                commit,
            )
        }),
{
    let known = known_of(lane, state, queues);
    let operation = state.operation->Some_0;
    let operation_id = operation.meta.operation_id;
    let entry = response_entry(response_entry_id, state.tip_id, settlement.committed);
    let row = response_usage(usage_id, response_entry_id, settlement.committed);
    let added = PlannedEventView::Added { entry, write_index: 0, lane, recovery: Some(recovery) };
    let spent = PlannedEventView::Ledger { row, write_index: 1, lane };
    let first = seq![added];
    let second = seq![spent];
    lemma_emitted_single(added, commit);
    lemma_emitted_single(spent, commit);
    lemma_learned_one(known, emitted_one(added, commit)[0]);
    let after = told(known, first, commit);
    lemma_learned_one(after, emitted_one(spent, commit)[0]);
    lemma_told_concat(known, first, second, commit);
    assert(first + second =~= seq![added, spent]);
    if let DispositionView::Failed(error) = settlement.disposition {
        let end = HarnessEventView::RunEnd {
            lane,
            run_id: operation_id,
            from_tip_id: operation.meta.source_tip_id,
            tip_id: Some(response_entry_id),
            ended_at,
            status: TerminalStatus::Failed,
            error: Some(error),
            recovery: None,
        };
        let last = seq![PlannedEventView::Ready(end)];
        assert(seq![added, spent].push(PlannedEventView::Ready(end)) =~= seq![added, spent]
            + last);
        lemma_told_concat(known, seq![added, spent], last, commit);
        lemma_told_ready(told(known, seq![added, spent], commit), end, commit);
    }
}

proof fn lemma_emitted_single(event: PlannedEventView, commit: CommitResultView)
    ensures
        emitted(seq![event], commit) == emitted_one(event, commit),
{
    assert(seq![event].drop_last() =~= Seq::empty());
    assert(emitted(Seq::<PlannedEventView>::empty(), commit) =~= Seq::empty());
    assert(emitted(seq![event], commit) =~= emitted_one(event, commit));
}

/// An observer keeps track of a poll, and of the end of a run whose configuration
/// cannot be served.
pub proof fn law_observers_follow_a_poll(
    lane: Seq<char>,
    state: LaneRuntimeStateView,
    queues: Seq<LaneQueuedItemView>,
    deferred: OperationStateView,
    poll: u64,
    response_entry_id: Seq<char>,
    usage_id: Seq<char>,
    recovery: bool,
    error: OperationErrorView,
    scratch: Seq<AddressView>,
    ended_at: u64,
    commit: CommitResultView,
)
    requires
        state.operation matches Some(operation) && operation.meta.intent is Run,
    ensures
        ({
            let operation = state.operation->Some_0;
            let operation_id = operation.meta.operation_id;
            &&& operation.state.is_deferred() && deferred.is_deferred() ==> keeps_track(
                lane,
                state,
                queues,
                settled(
                    lane,
                    state,
                    poll_intent(
                        lane,
                        operation_id,
                        deferred,
                        operation.state,
                        poll,
                        response_entry_id,
                        usage_id,
                        recovery,
                    ),
                ),
                queues,
                commit,
            )
            &&& state.tip_id is Some ==> keeps_track(
                lane,
                state,
                queues,
                settled(
                    lane,
                    state,
                    configuration_failure(
                        lane,
                        operation_id,
                        state.tip_id,
                        operation.state,
                        operation.meta,
                        error,
                        scratch,
                        ended_at,
                    ),
                ),
                queues,
                commit,
            )
        }),
{
    let known = known_of(lane, state, queues);
    let operation = state.operation->Some_0;
    let operation_id = operation.meta.operation_id;
    if operation.state.is_deferred() && deferred.is_deferred() {
        let step_id = deferred.deferred_scope()->Some_0.step_id;
        let events = poll_events(lane, operation_id, step_id, poll, recovery);
        let resumed = HarnessEventView::RunResume {
            lane,
            run_id: operation_id,
            recovery: Some(recovery),
        };
        let turn = HarnessEventView::TurnStart {
            lane,
            run_id: operation_id,
            turn_id: poll_turn(step_id, poll),
            recovery: Some(recovery),
        };
        let first = seq![PlannedEventView::Ready(resumed)];
        let second = seq![PlannedEventView::Ready(turn)];
        assert(first + second =~= events);
        lemma_told_concat(known, first, second, commit);
        lemma_told_ready(known, resumed, commit);
        lemma_told_ready(told(known, first, commit), turn, commit);
    }
    if state.tip_id is Some {
        let end = HarnessEventView::RunEnd {
            lane,
            run_id: operation_id,
            from_tip_id: operation.meta.source_tip_id,
            tip_id: state.tip_id,
            ended_at,
            status: TerminalStatus::Failed,
            error: Some(error),
            recovery: None,
        };
        lemma_told_ready(known, end, commit);
    }
}

proof fn lemma_told_results(
    known: Known,
    tip_id: Option<Seq<char>>,
    items: Seq<PlacementItemView>,
    usage_ids: Seq<Option<Seq<char>>>,
    n: nat,
    commit: CommitResultView,
)
    requires
        known.tip_id == tip_id,
        n <= items.len(),
    ensures
        told(known, placed_events(known.lane, tip_id, items, usage_ids, n), commit) == (Known {
            tip_id: tip_before(tip_id, items, n as int),
            ..known
        }),
    decreases n,
{
    if n == 0 {
        assert(emitted(Seq::<PlannedEventView>::empty(), commit) =~= Seq::empty());
    } else {
        let m = (n - 1) as nat;
        lemma_told_results(known, tip_id, items, usage_ids, m, commit);
        let before = placed_events(known.lane, tip_id, items, usage_ids, m);
        let known_before = told(known, before, commit);
        let added = PlannedEventView::Added {
            entry: result_entry(items[m as int], tip_before(tip_id, items, m as int)),
            write_index: placed_writes(tip_id, items, usage_ids, m).len() as usize,
            lane: known.lane,
            recovery: None,
        };
        lemma_emitted_single(added, commit);
        lemma_learned_one(known_before, emitted_one(added, commit)[0]);
        lemma_told_concat(known, before, seq![added], commit);
        assert(before + seq![added] =~= before.push(added));
        if let Some((row, write_index)) = row_for(
            placed_rows(tip_id, items, usage_ids, items.len()),
            items[m as int].call.result_entry_id(),
        ) {
            let spent = PlannedEventView::Ledger { row, write_index, lane: known.lane };
            let known_after = told(known, before.push(added), commit);
            lemma_emitted_single(spent, commit);
            lemma_learned_one(known_after, emitted_one(spent, commit)[0]);
            lemma_told_concat(known, before.push(added), seq![spent], commit);
            assert(before.push(added) + seq![spent] =~= before.push(added).push(spent));
        }
    }
}

/// An observer keeps track of the results of tools, and of the tools that they
/// activate.
pub proof fn law_observers_follow_tool_results(
    lane: Seq<char>,
    state: LaneRuntimeStateView,
    queues: Seq<LaneQueuedItemView>,
    items: Seq<PlacementItemView>,
    usage_ids: Seq<Option<Seq<char>>>,
    arguments: Seq<AddressView>,
    commit: CommitResultView,
)
    requires
        state.operation matches Some(operation) && operation.state is Tools,
        items.len() > 0,
    ensures
        state.operation->Some_0.state matches OperationStateView::Tools { scope, batch }
            && keeps_track(
            lane,
            state,
            queues,
            settled(
                lane,
                state,
                placement_command(lane, state, scope, batch, items, usage_ids, arguments),
            ),
            queues,
            commit,
        ),
{
    let known = known_of(lane, state, queues);
    let active = state.configuration.active_tool_names;
    let added = activated(active, items, items.len());
    let first = placed_events(lane, state.tip_id, items, usage_ids, items.len());
    lemma_told_results(known, state.tip_id, items, usage_ids, items.len(), commit);
    if added.len() == 0 {
        assert(active + added =~= active);
        assert(first + Seq::<PlannedEventView>::empty() =~= first);
    } else {
        let update = HarnessEventView::ConfigUpdate {
            lane: Some(lane),
            payload: ConfigUpdatePayloadView::ActiveTools { value: active + added, previous: active },
            recovery: None,
        };
        lemma_told_ready(told(known, first, commit), update, commit);
        lemma_told_concat(known, first, seq![PlannedEventView::Ready(update)], commit);
    }
}

/// An observer keeps track of a run boundary: of what it takes from the inbox, and
/// of the end of the run.
pub proof fn law_observers_follow_a_boundary(
    lane: Seq<char>,
    state: LaneRuntimeStateView,
    rows: Seq<PendingRowView>,
    projectors: Seq<Seq<char>>,
    follow_up_when_no_trigger: bool,
    next: OperationStateView,
    scratch: Seq<AddressView>,
    ended_at: u64,
    commit: CommitResultView,
)
    requires
        state.operation matches Some(operation) && operation.meta.intent is Run
            && !operation.state.is_deferred() && next.cancelled() == operation.state.cancelled(),
        lane_queues(rows, state.inbox) is Ok,
        state.tip_id is Some,
        boundary_plan(
            projectors,
            lane,
            state.inbox,
            state.operation->Some_0.state.scope(),
            rows,
            state.tip_id,
            follow_up_when_no_trigger,
        ) matches Ok(placement) && placement.entries.len() <= usize::MAX,
    ensures
        ({
            let operation = state.operation->Some_0;
            let operation_id = operation.meta.operation_id;
            let placement = boundary_plan(
                projectors,
                lane,
                state.inbox,
                operation.state.scope(),
                rows,
                state.tip_id,
                follow_up_when_no_trigger,
            )->Ok_0;
            &&& lane_queues(rows, placement.inbox) is Ok
            &&& keeps_track(
                lane,
                state,
                lane_queues(rows, state.inbox)->Ok_0,
                settled(
                    lane,
                    state,
                    step_after(placement, lane, operation_id, next, Seq::empty()),
                ),
                lane_queues(rows, placement.inbox)->Ok_0,
                commit,
            )
            &&& keeps_track(
                lane,
                state,
                lane_queues(rows, state.inbox)->Ok_0,
                settled(
                    lane,
                    state,
                    end_after(
                        placement,
                        lane,
                        operation_id,
                        operation.state,
                        operation.meta,
                        scratch,
                        ended_at,
                        Seq::empty(),
                    ),
                ),
                lane_queues(rows, placement.inbox)->Ok_0,
                commit,
            )
        }),
{
    let queues = lane_queues(rows, state.inbox)->Ok_0;
    let known = known_of(lane, state, queues);
    let operation = state.operation->Some_0;
    let operation_id = operation.meta.operation_id;
    let scope = operation.state.scope();
    let placement = boundary_plan(
        projectors,
        lane,
        state.inbox,
        scope,
        rows,
        state.tip_id,
        follow_up_when_no_trigger,
    )->Ok_0;
    let items = boundary_selection(
        projectors,
        state.inbox,
        scope,
        rows,
        follow_up_when_no_trigger,
    )->Ok_0;
    let entries = loaded_all(rows, items)->Ok_0;
    assert(placement.entries == placed_entries(state.tip_id, items, entries));
    assert(placement.tip_id == tip_after(state.tip_id, items, items.len() as int));
    assert(last_id(state.tip_id, placement.entries) == placement.tip_id);
    let added = entry_events(placement.entries, lane, operation_id);
    let update = queue_events(placement, lane);
    lemma_told_entries(known, placement.entries, operation_id, commit);
    lemma_told_concat(known, added, ready(update), commit);
    let before = told(known, added, commit);
    lemma_ready_emitted(update, commit);
    if items.len() == 0 {
        assert(crate::inbox::item_ids(items) =~= Seq::empty());
        lemma_none_left_out(state.inbox);
        assert(update =~= Seq::empty());
    } else {
        lemma_learned_one(before, update[0]);
        assert(update =~= seq![update[0]]);
    }
    let placed = placement_events(placement, lane, operation_id);
    assert(ready(Seq::empty()) + placed =~= placed);
    let end = HarnessEventView::RunEnd {
        lane,
        run_id: operation_id,
        from_tip_id: operation.meta.source_tip_id,
        tip_id: placement.tip_id,
        ended_at,
        status: TerminalStatus::Completed,
        error: None,
        recovery: None,
    };
    let last = seq![PlannedEventView::Ready(end)];
    assert(placed.push(PlannedEventView::Ready(end)) =~= placed + last);
    lemma_told_concat(known, placed, last, commit);
    lemma_told_ready(told(known, placed, commit), end, commit);
}

/// An observer keeps track of an operation that is wound down, unless it was a
/// navigation: an observer looks at the lane again after that.
pub proof fn law_observers_follow_the_end_of_a_stopped_operation(
    lane: Seq<char>,
    state: LaneRuntimeStateView,
    queues: Seq<LaneQueuedItemView>,
    scratch: Seq<AddressView>,
    ended_at: u64,
    commit: CommitResultView,
)
    requires
        state.operation matches Some(operation) && !(operation.meta.intent is Navigation),
    ensures
        ({
            let operation = state.operation->Some_0;
            aborted_command(
                lane,
                operation.meta.operation_id,
                state.tip_id,
                operation.state,
                operation.meta,
                scratch,
                ended_at,
            ) matches Ok(command) ==> keeps_track(
                lane,
                state,
                queues,
                settled(lane, state, command),
                queues,
                commit,
            )
        }),
{
    reveal_strlit("run");
    reveal_strlit("compaction");
    let known = known_of(lane, state, queues);
    let operation = state.operation->Some_0;
    let operation_id = operation.meta.operation_id;
    let end = HarnessEventView::RunEnd {
        lane,
        run_id: operation_id,
        from_tip_id: operation.meta.source_tip_id,
        tip_id: state.tip_id,
        ended_at,
        status: TerminalStatus::Aborted,
        error: None,
        recovery: None,
    };
    let last = seq![PlannedEventView::Ready(end)];
    if operation.meta.intent is Run {
        if let Some(task) = operation.state.task() {
            let stop = HarnessEventView::CompactionEnd {
                lane,
                run_id: operation_id,
                reason: task.reason->Some_0,
                ended_at,
                status: TerminalStatus::Aborted,
                entry_id: None,
                error: None,
                recovery: None,
            };
            let first = seq![PlannedEventView::Ready(stop)];
            assert("run"@.len() != "compaction"@.len());
            lemma_told_ready(known, stop, commit);
            lemma_told_concat(known, first, last, commit);
            assert(first + last =~= seq![
                PlannedEventView::Ready(stop),
                PlannedEventView::Ready(end),
            ]);
        }
        lemma_told_ready(known, end, commit);
    } else {
        let stop = HarnessEventView::CompactionEnd {
            lane,
            run_id: operation_id,
            reason: "manual"@,
            ended_at,
            status: TerminalStatus::Aborted,
            entry_id: None,
            error: None,
            recovery: None,
        };
        lemma_told_ready(known, stop, commit);
    }
}

} // verus!
