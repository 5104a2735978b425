//! What observers are told of a commit.

use crate::command::{LaneCommandView, OperationCommandView};
use crate::drive::boundary::boundary_plan;
use crate::drive::checkpoint::{
    checkpoint_decision, run_start, DueCompactionView, ReservedMessageView,
};
use crate::drive::finish::{run_boundary_end, FollowUpView};
use crate::drive::lifecycle::{tool_shown, ResponseObserverView};
use crate::drive::recovery::recovered_events;
use crate::drive::tool_placement::{
    placed_events, placed_writes, placement_command, PlacementItemView,
};
use crate::lane::accept::split_inbox;
use crate::lane::intake::run_acceptance;
use crate::lane::queue::append_command;
use crate::lane::snapshot::observed;
use crate::laws::placement::entry_for;
use crate::laws::response::writes_in;
use crate::model::event::{HarnessEventView, PlannedEventView};
use crate::model::message::{
    AgentMessageView, AgentToolResultView, AssistantMessageView, ToolCallBlockView,
};
use crate::model::session::{
    Continuation, OperationMetaView, OperationScopeView, OperationStateView, PendingEntryView,
    ToolBatchView,
};
use crate::model::storage::{AddressView, WriteView};
use crate::types::{BoundaryPlacementView, ConfigView, LaneRuntimeStateView, PendingRowView};
use vstd::prelude::*;

verus! {

/// Whether a stretch of events tells of entries in order, each by the place of its write.
pub open spec fn tells_of(
    events: Seq<PlannedEventView>,
    start: int,
    writes: Seq<WriteView>,
    count: int,
    lane: Seq<char>,
    run_id: Option<Seq<char>>,
) -> bool {
    &&& 0 <= start
    &&& start + count <= events.len()
    &&& count <= writes.len()
    &&& forall|i: int|
        0 <= i < count ==> (#[trigger] writes[i] matches WriteView::InsertEntry(entry)
            && events[start + i] == (PlannedEventView::Lifecycle {
            entry,
            write_index: i as usize,
            lane,
            run_id,
        }))
}

/// The update of the queues that a boundary owes, if it took anything.
pub open spec fn queue_news(placement: BoundaryPlacementView, lane: Seq<char>) -> Seq<
    PlannedEventView,
> {
    if placement.queues is Some {
        seq![
            PlannedEventView::Ready(
                HarnessEventView::QueueUpdate {
                    lane,
                    queues: placement.queues->Some_0,
                    recovery: None,
                },
            ),
        ]
    } else {
        Seq::empty()
    }
}

/// A checkpoint tells of every entry that it appends, in order, then of the queues that are
/// left if it took anything, and last of a compaction if one starts.
pub proof fn law_a_checkpoint_tells_what_it_appends(
    lane: Seq<char>,
    operation_id: Seq<char>,
    config: ConfigView,
    default_delay_ms: u64,
    step_id: Seq<char>,
    state: LaneRuntimeStateView,
    current: OperationStateView,
    rows: Seq<PendingRowView>,
    due: Option<DueCompactionView>,
)
    requires
        current is Checkpoint,
    ensures
        ({
            let placement = boundary_plan(
                config.entry_projectors,
                lane,
                state.inbox,
                current->Checkpoint_scope,
                rows,
                state.tip_id,
                due is None && current->Checkpoint_continuation is MayFinish,
            )->Ok_0;
            let n = placement.entries.len() as int;
            checkpoint_decision(
                lane,
                operation_id,
                config,
                default_delay_ms,
                step_id,
                state,
                current,
                rows,
                due,
            ) matches Ok(OperationCommandView::Commit { writes, operation_state, events, .. }) ==> {
                &&& tells_of(events, 0, writes, n, lane, Some(operation_id))
                &&& events.subrange(n, events.len() as int) == queue_news(placement, lane) + if (
                operation_state is SummaryDeciding) {
                    seq![
                        PlannedEventView::CompactionStarted {
                            lane,
                            run_id: operation_id,
                            reason: "threshold"@,
                        },
                    ]
                } else {
                    Seq::empty()
                }
            }
        }),
{
    let scope = current->Checkpoint_scope;
    let taken = boundary_plan(
        config.entry_projectors,
        lane,
        state.inbox,
        scope,
        rows,
        state.tip_id,
        due is None && current->Checkpoint_continuation is MayFinish,
    );
    if let Ok(placement) = taken {
        let n = placement.entries.len() as int;
        if let Ok(OperationCommandView::Commit { writes, operation_state, events, .. }) =
            checkpoint_decision(
            lane,
            operation_id,
            config,
            default_delay_ms,
            step_id,
            state,
            current,
            rows,
            due,
        ) {
            assert forall|i: int| 0 <= i < n implies (#[trigger] writes[i]
                matches WriteView::InsertEntry(entry) && events[i]
                == (PlannedEventView::Lifecycle {
                entry,
                write_index: i as usize,
                lane,
                run_id: Some(operation_id),
            })) by {
                assert(writes[i] == placement.writes[i]);
            }
            let rest = queue_news(placement, lane) + if operation_state is SummaryDeciding {
                seq![
                    PlannedEventView::CompactionStarted {
                        lane,
                        run_id: operation_id,
                        reason: "threshold"@,
                    },
                ]
            } else {
                Seq::empty()
            };
            assert(events.subrange(n, events.len() as int) =~= rest);
        }
    }
}

/// The end of a run tells first what was pending, then of every entry that is appended, in
/// order, then of the queues that are left if any were taken, and last of the follow-up, or
/// that the run ended.
pub proof fn law_a_run_boundary_tells_what_it_appends(
    lane: Seq<char>,
    operation_id: Seq<char>,
    config: ConfigView,
    default_delay_ms: u64,
    step_id: Seq<char>,
    state: LaneRuntimeStateView,
    current: OperationStateView,
    meta: OperationMetaView,
    rows: Seq<PendingRowView>,
    continuation: Continuation,
    planned_entry_ids: Seq<Seq<char>>,
    before: Seq<HarnessEventView>,
    follow_up: Option<FollowUpView>,
    scratch: Seq<AddressView>,
    ended_at: u64,
    i: int,
)
    requires
        current is Checkpoint,
    ensures
        ({
            let placement = boundary_plan(
                config.entry_projectors,
                lane,
                state.inbox,
                current->Checkpoint_scope,
                rows,
                state.tip_id,
                true,
            )->Ok_0;
            let n = placement.entries.len() as int;
            let b = before.len() as int;
            let q = queue_news(placement, lane).len() as int;
            run_boundary_end(
                lane,
                operation_id,
                config,
                default_delay_ms,
                step_id,
                state,
                current,
                meta,
                rows,
                continuation,
                planned_entry_ids,
                before,
                follow_up,
                scratch,
                ended_at,
            ) matches Ok(command) ==> {
                let events = match command {
                    OperationCommandView::Commit { events, .. } => events,
                    OperationCommandView::Finish { events, .. } => events,
                    _ => Seq::empty(),
                };
                &&& 0 <= i < b ==> events[i] == PlannedEventView::Ready(before[i])
                &&& tells_of(events, b, writes_in(command), n, lane, Some(operation_id))
                &&& events.subrange(b + n, b + n + q) == queue_news(placement, lane)
                &&& placement.trigger_entry_id is Some ==> events.len() == b + n + q
                &&& placement.trigger_entry_id is None ==> events.len() == b + n + q + 1
                &&& placement.trigger_entry_id is None && command is Commit ==> (writes_in(
                    command,
                )[placement.writes.len() as int] matches WriteView::InsertEntry(entry)
                    && events.last() == (PlannedEventView::Lifecycle {
                    entry,
                    write_index: placement.writes.len() as usize,
                    lane,
                    run_id: Some(operation_id),
                }))
            }
        }),
{
    let scope = current->Checkpoint_scope;
    let taken = boundary_plan(
        config.entry_projectors,
        lane,
        state.inbox,
        scope,
        rows,
        state.tip_id,
        true,
    );
    if let Ok(placement) = taken {
        let n = placement.entries.len() as int;
        let b = before.len() as int;
        let q = queue_news(placement, lane).len() as int;
        if let Ok(command) = run_boundary_end(
            lane,
            operation_id,
            config,
            default_delay_ms,
            step_id,
            state,
            current,
            meta,
            rows,
            continuation,
            planned_entry_ids,
            before,
            follow_up,
            scratch,
            ended_at,
        ) {
            let writes = writes_in(command);
            let events = match command {
                OperationCommandView::Commit { events, .. } => events,
                OperationCommandView::Finish { events, .. } => events,
                _ => Seq::empty(),
            };
            assert forall|i: int| 0 <= i < n implies (#[trigger] writes[i]
                matches WriteView::InsertEntry(entry) && events[b + i]
                == (PlannedEventView::Lifecycle {
                entry,
                write_index: i as usize,
                lane,
                run_id: Some(operation_id),
            })) by {
                assert(writes[i] == placement.writes[i]);
            }
            assert(events.subrange(b + n, b + n + q) =~= queue_news(placement, lane));
        }
    }
}

/// A run tells of the messages that it starts behind; an accepted run of its start, of what
/// it appends and of the queues that are left if any were taken; an append of every entry
/// that it appends.
pub proof fn law_what_is_appended_is_told_in_order(
    lane: Seq<char>,
    operation_id: Seq<char>,
    started_at: u64,
    config: ConfigView,
    state: LaneRuntimeStateView,
    rows: Seq<PendingRowView>,
    reserved: Seq<ReservedMessageView>,
    current: OperationStateView,
    id: Seq<char>,
    pending: PendingEntryView,
)
    ensures
        run_start(lane, operation_id, state.tip_id, current, reserved) matches Ok(
            OperationCommandView::Commit { writes, events, .. },
        ) ==> events.len() == reserved.len() && tells_of(
            events,
            0,
            writes,
            reserved.len() as int,
            lane,
            Some(operation_id),
        ),
        run_acceptance(lane, operation_id, started_at, config, state, rows, reserved) matches Ok(
            LaneCommandView::Commit { writes, events, .. },
        ) ==> {
            let taken = split_inbox(
                state.inbox,
                config.steering_mode,
                config.follow_up_mode,
                true,
                state.inbox.len(),
            ).len();
            let count = (taken + reserved.len()) as int;
            &&& tells_of(events, 1, writes, count, lane, Some(operation_id))
            &&& events.len() == 1 + count + if taken > 0 {
                1int
            } else {
                0int
            }
            &&& taken > 0 ==> (events.last() matches PlannedEventView::Ready(
                HarnessEventView::QueueUpdate { lane: of, .. },
            ) && of == lane)
        },
        state.operation is None ==> (append_command(lane, state, rows, id, pending) matches Ok(
            LaneCommandView::Commit { writes, events, .. },
        ) ==> tells_of(events, 0, writes, events.len() as int, lane, None) && writes.len() == 2
            * events.len() + 1),
{
    if let Ok(OperationCommandView::Commit { writes, events, .. }) = run_start(
        lane,
        operation_id,
        state.tip_id,
        current,
        reserved,
    ) {
        assert forall|i: int| 0 <= i < reserved.len() implies (#[trigger] writes[i]
            matches WriteView::InsertEntry(entry) && events[i] == (PlannedEventView::Lifecycle {
            entry,
            write_index: i as usize,
            lane,
            run_id: Some(operation_id),
        })) by {}
    }
    if let Ok(LaneCommandView::Commit { writes, events, .. }) = run_acceptance(
        lane,
        operation_id,
        started_at,
        config,
        state,
        rows,
        reserved,
    ) {
        let selected = split_inbox(
            state.inbox,
            config.steering_mode,
            config.follow_up_mode,
            true,
            state.inbox.len(),
        );
        crate::laws::acceptance::lemma_captured(rows, selected);
        let count = (selected.len() + reserved.len()) as int;
        assert forall|i: int| 0 <= i < count implies (#[trigger] writes[i]
            matches WriteView::InsertEntry(entry) && events[1 + i]
            == (PlannedEventView::Lifecycle {
            entry,
            write_index: i as usize,
            lane,
            run_id: Some(operation_id),
        })) by {}
    }
    if state.operation is None {
        if let Ok(LaneCommandView::Commit { writes, events, .. }) = append_command(
            lane,
            state,
            rows,
            id,
            pending,
        ) {
            let items = crate::inbox::of_kind(
                state.inbox,
                crate::model::session::InboxItemKind::Write,
            );
            crate::laws::queue::lemma_queued_writes(rows, items);
            assert forall|i: int| 0 <= i < events.len() implies (#[trigger] writes[i]
                matches WriteView::InsertEntry(entry) && events[i] == (PlannedEventView::Lifecycle {
                entry,
                write_index: i as usize,
                lane,
                run_id: None,
            })) by {}
        }
    }
}

proof fn lemma_result_told(
    lane: Seq<char>,
    tip_id: Option<Seq<char>>,
    items: Seq<PlacementItemView>,
    usage_ids: Seq<Option<Seq<char>>>,
    n: nat,
    k: int,
)
    requires
        n <= items.len(),
        0 <= k < n,
        placed_writes(tip_id, items, usage_ids, items.len()).len() <= usize::MAX,
    ensures
        exists|e: int|
            0 <= e < placed_events(lane, tip_id, items, usage_ids, n).len() && (
            #[trigger] placed_events(lane, tip_id, items, usage_ids, n)[e]
                matches PlannedEventView::Added { entry, write_index, lane: of, recovery }
                && entry == entry_for(tip_id, items, k) && of == lane && recovery is None
                && write_index < placed_writes(tip_id, items, usage_ids, items.len()).len()
                && placed_writes(tip_id, items, usage_ids, items.len())[write_index as int]
                == WriteView::InsertEntry(entry)),
    decreases n,
{
    let m = (n - 1) as nat;
    let before = placed_events(lane, tip_id, items, usage_ids, m);
    let all = placed_events(lane, tip_id, items, usage_ids, n);
    let writes = placed_writes(tip_id, items, usage_ids, items.len());
    if k < m {
        lemma_result_told(lane, tip_id, items, usage_ids, m, k);
        let e = choose|e: int|
            0 <= e < before.len() && (#[trigger] before[e] matches PlannedEventView::Added {
                entry,
                write_index,
                lane: of,
                recovery,
            } && entry == entry_for(tip_id, items, k) && of == lane && recovery is None
                && write_index < writes.len() && writes[write_index as int]
                == WriteView::InsertEntry(entry));
        assert(all[e] == before[e]);
    } else {
        let own = placed_writes(tip_id, items, usage_ids, m);
        lemma_writes_prefix(tip_id, items, usage_ids, n, items.len());
        let here = placed_writes(tip_id, items, usage_ids, n);
        let at = own.len() as int;
        assert(here[at] == WriteView::InsertEntry(entry_for(tip_id, items, k)));
        assert(writes[at] == here[at]);
        assert(all[before.len() as int] == (PlannedEventView::Added {
            entry: entry_for(tip_id, items, k),
            write_index: own.len() as usize,
            lane,
            recovery: None,
        }));
    }
}

proof fn lemma_writes_prefix(
    tip_id: Option<Seq<char>>,
    items: Seq<PlacementItemView>,
    usage_ids: Seq<Option<Seq<char>>>,
    n: nat,
    all: nat,
)
    requires
        n <= all <= items.len(),
    ensures
        placed_writes(tip_id, items, usage_ids, n).len() <= placed_writes(
            tip_id,
            items,
            usage_ids,
            all,
        ).len(),
        forall|i: int|
            0 <= i < placed_writes(tip_id, items, usage_ids, n).len() ==> placed_writes(
                tip_id,
                items,
                usage_ids,
                n,
            )[i] == #[trigger] placed_writes(tip_id, items, usage_ids, all)[i],
    decreases all,
{
    if n < all {
        lemma_writes_prefix(tip_id, items, usage_ids, n, (all - 1) as nat);
    }
}

/// Every result that is placed is told of, as the entry that is stored, by the place of its
/// write.
pub proof fn law_placed_results_are_told_of(
    lane: Seq<char>,
    state: LaneRuntimeStateView,
    scope: OperationScopeView,
    batch: ToolBatchView,
    items: Seq<PlacementItemView>,
    usage_ids: Seq<Option<Seq<char>>>,
    arguments: Seq<AddressView>,
    k: int,
)
    requires
        0 <= k < items.len(),
        placed_writes(state.tip_id, items, usage_ids, items.len()).len() <= usize::MAX,
    ensures
        placement_command(lane, state, scope, batch, items, usage_ids, arguments)
            matches OperationCommandView::Commit { writes, events, .. } && exists|e: int|
            0 <= e < events.len() && (#[trigger] events[e] matches PlannedEventView::Added {
                entry,
                write_index,
                lane: of,
                recovery,
            } && entry == entry_for(state.tip_id, items, k) && of == lane && recovery is None
                && write_index < writes.len() && writes[write_index as int]
                == WriteView::InsertEntry(entry)),
{
    lemma_result_told(lane, state.tip_id, items, usage_ids, items.len(), k);
    let told = placed_events(lane, state.tip_id, items, usage_ids, items.len());
    let placed = placed_writes(state.tip_id, items, usage_ids, items.len());
    let e = choose|e: int|
        0 <= e < told.len() && (#[trigger] told[e] matches PlannedEventView::Added {
            entry,
            write_index,
            lane: of,
            recovery,
        } && entry == entry_for(state.tip_id, items, k) && of == lane && recovery is None
            && write_index < placed.len() && placed[write_index as int] == WriteView::InsertEntry(
            entry,
        ));
    if let OperationCommandView::Commit { writes, events, .. } = placement_command(
        lane,
        state,
        scope,
        batch,
        items,
        usage_ids,
        arguments,
    ) {
        assert(events[e] == told[e]);
        let at = told[e]->Added_write_index as int;
        assert(writes[at] == placed[at]);
    }
}

/// What observers are told while a response comes in or is recovered, and of a tool that
/// runs: each event is of the run and lane that it belongs to, with the message or output as
/// it is, and says whether the work was taken up again.
pub proof fn law_work_under_way_is_told_of_its_run(
    observer: ResponseObserverView,
    message: AssistantMessageView,
    event: serde_json::Value,
    frame: Option<serde_json::Value>,
    turn_id: Seq<char>,
    call: ToolCallBlockView,
    partial: AgentToolResultView,
)
    ensures
        observer.started(message) == (HarnessEventView::MessageStart {
            lane: observer.lane_name,
            run_id: Some(observer.run_id),
            message: AgentMessageView::Assistant(message),
            recovery: Some(observer.recovery),
        }),
        observer.updated(message, event, frame) == (HarnessEventView::MessageUpdate {
            lane: observer.lane_name,
            run_id: observer.run_id,
            message: AgentMessageView::Assistant(message),
            event,
            frame,
            recovery: Some(observer.recovery),
        }),
        observer.ended(message) == (HarnessEventView::MessageEnd {
            lane: observer.lane_name,
            run_id: Some(observer.run_id),
            message: AgentMessageView::Assistant(message),
            entry_id: Some(observer.response_entry_id),
            recovery: Some(observer.recovery),
        }),
        observer.recovery ==> recovered_events(
            observer.lane_name,
            observer.run_id,
            observer.response_entry_id,
            message,
        ) == seq![observer.started(message), observer.ended(message)],
        tool_shown(
            observer.lane_name,
            observer.run_id,
            turn_id,
            call,
            partial,
            observer.recovery,
        ) == (HarnessEventView::ToolUpdate {
            lane: observer.lane_name,
            run_id: observer.run_id,
            turn_id,
            tool_call_id: call.id,
            tool_name: call.name,
            partial_result: partial,
            recovery: Some(observer.recovery),
        }),
{
}

/// An observer of a lane hears of its own lane, of the harness as a whole, and of usage
/// wherever it arises; of nothing else.
pub proof fn law_an_observer_hears_of_its_lane(lane: Seq<char>, event: HarnessEventView)
    ensures
        observed(lane, event) <==> match event.lane() {
            None => true,
            Some(of) => of == lane || event is Usage,
        },
{
}

} // verus!
