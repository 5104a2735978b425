//! What is booked, prepared and shown whenever there is something to.

use crate::command::OperationCommandView;
use crate::drive::checkpoint::DueCompactionView;
use crate::drive::response::{recorded, SettlementView};
use crate::drive::structural_run::StructuralOutcomeView;
use crate::drive::tool_placement::{placed_rows, staged_message, turn_messages, PlacementItemView};
use crate::inbox::lane_queues;
use crate::lane::snapshot::{captured, shown_operation, ToolReadView};
use crate::laws::placement::result_of;
use crate::model::message::{AgentMessageView, AssistantMessageView, ToolResultMessageView};
use crate::model::session::{
    OperationMetaView, OperationResultRecordView, OperationStateView, ToolCallView,
};
use crate::model::storage::{
    AddressView, DurableValueView, EntryView, SessionStatsView, UsageRowView, WriteView,
};
use crate::transcript::entry_of;
use crate::types::{LaneRuntimeStateView, PendingRowView};
use vstd::prelude::*;

verus! {

/// A snapshot of a lane can be taken just if its queues can be read, its operation, if there
/// is one, can be shown, and its last operation, if there was one, has a result.
pub proof fn law_a_snapshot_can_be_taken(
    lane: Seq<char>,
    state: LaneRuntimeStateView,
    scanned: Seq<EntryView>,
    rows: Seq<PendingRowView>,
    last_result: Option<OperationResultRecordView>,
    stats: SessionStatsView,
    entry: Option<EntryView>,
    partial: Option<AssistantMessageView>,
    reads: Seq<ToolReadView>,
    faulted: bool,
)
    ensures
        captured(
            lane,
            state,
            scanned,
            rows,
            last_result,
            stats,
            entry,
            partial,
            reads,
            faulted,
        ) is Ok <==> {
            &&& lane_queues(rows, state.inbox) is Ok
            &&& state.last_operation_id is Some ==> last_result is Some
            &&& state.operation matches Some(operation) ==> shown_operation(
                operation,
                entry,
                partial,
                reads,
            ) is Ok
        },
{
}

/// The message that stands in an entry as the result of a tool.
pub open spec fn result_in(entry: Option<EntryView>) -> Option<ToolResultMessageView> {
    match entry {
        Some(EntryView::Message(made)) => match made.message {
            AgentMessageView::ToolResult(message) => Some(message),
            _ => None,
        },
        _ => None,
    }
}

/// The results of a turn are known just if each of its calls has one, staged or placed; they
/// are given one for each call, in the order of the calls, a staged one before a placed one.
pub proof fn law_a_turn_has_the_results_of_its_calls(
    items: Seq<PlacementItemView>,
    placed: Seq<EntryView>,
    calls: Seq<ToolCallView>,
)
    ensures
        match turn_messages(items, placed, calls) {
            Some(messages) => messages.len() == calls.len() && forall|i: int|
                0 <= i < calls.len() ==> Some(messages[i]) == (match staged_message(
                    items,
                    result_of(#[trigger] calls[i]),
                ) {
                    Some(message) => Some(message),
                    None => result_in(entry_of(placed, result_of(calls[i]))),
                }),
            None => exists|i: int|
                0 <= i < calls.len() && staged_message(items, result_of(#[trigger] calls[i]))
                    is None && result_in(entry_of(placed, result_of(calls[i]))) is None,
        },
    decreases calls.len(),
{
    if calls.len() > 0 {
        let rest = calls.drop_last();
        let last = calls.len() - 1;
        law_a_turn_has_the_results_of_its_calls(items, placed, rest);
        assert(calls[last] == calls.last());
        match turn_messages(items, placed, rest) {
            None => {
                let i = choose|i: int|
                    0 <= i < rest.len() && staged_message(items, result_of(#[trigger] rest[i]))
                        is None && result_in(entry_of(placed, result_of(rest[i]))) is None;
                assert(calls[i] == rest[i]);
            },
            Some(before) => {
                assert forall|i: int| 0 <= i < rest.len() implies #[trigger] calls[i]
                    == rest[i] by {}
                if let Some(messages) = turn_messages(items, placed, calls) {
                    assert forall|i: int| 0 <= i < calls.len() implies Some(messages[i]) == (
                    match staged_message(items, result_of(#[trigger] calls[i])) {
                        Some(message) => Some(message),
                        None => result_in(entry_of(placed, result_of(calls[i]))),
                    }) by {
                        if i < last {
                            assert(calls[i] == rest[i]);
                            assert(messages[i] == before[i]);
                        }
                    }
                }
            },
        }
    }
}

/// Whether a row books the usage of a result under an id.
pub open spec fn books(row: UsageRowView, item: PlacementItemView, usage_id: Seq<char>) -> bool {
    &&& row.id == usage_id
    &&& row.entry_id == Some(result_of(item.call))
    &&& Some(row.usage) == item.message.usage
    &&& !row.adjustment
    &&& row.details is None
}

/// Whether one of some rows books the usage of a result.
pub open spec fn booked(
    rows: Seq<(UsageRowView, usize)>,
    item: PlacementItemView,
    usage_id: Seq<char>,
) -> bool {
    exists|r: int| 0 <= r < rows.len() && books((#[trigger] rows[r]).0, item, usage_id)
}

/// Every result that reports usage, and has an id for it, is booked in a row.
pub proof fn law_the_usage_of_every_result_is_booked(
    tip_id: Option<Seq<char>>,
    items: Seq<PlacementItemView>,
    usage_ids: Seq<Option<Seq<char>>>,
    n: nat,
    k: int,
)
    requires
        n <= items.len(),
        0 <= k < n,
        items[k].message.usage is Some,
        usage_ids[k] is Some,
    ensures
        booked(placed_rows(tip_id, items, usage_ids, n), items[k], usage_ids[k]->Some_0),
    decreases n,
{
    let m = (n - 1) as nat;
    let before = placed_rows(tip_id, items, usage_ids, m);
    let all = placed_rows(tip_id, items, usage_ids, n);
    if k < m {
        law_the_usage_of_every_result_is_booked(tip_id, items, usage_ids, m, k);
        let r = choose|r: int|
            0 <= r < before.len() && books(
                (#[trigger] before[r]).0,
                items[k],
                usage_ids[k]->Some_0,
            );
        assert(all[r] == before[r]);
    } else {
        assert(books(all[before.len() as int].0, items[k], usage_ids[k]->Some_0));
    }
}

/// Nothing is booked but the usage of results: there are at most as many rows as results, and
/// none where no result reports usage.
pub proof fn law_no_usage_is_booked_without_a_result(
    tip_id: Option<Seq<char>>,
    items: Seq<PlacementItemView>,
    usage_ids: Seq<Option<Seq<char>>>,
    n: nat,
)
    requires
        n <= items.len(),
    ensures
        placed_rows(tip_id, items, usage_ids, n).len() <= n,
        (forall|k: int| 0 <= k < n ==> (#[trigger] items[k]).message.usage is None)
            ==> placed_rows(tip_id, items, usage_ids, n).len() == 0,
    decreases n,
{
    if n > 0 {
        law_no_usage_is_booked_without_a_result(tip_id, items, usage_ids, (n - 1) as nat);
        assert(items[n - 1].message.usage is None || items[n - 1].message.usage is Some);
    }
}

/// The preparation of a compaction is stored with a response just if the compaction is what
/// comes next.
pub proof fn law_a_preparation_is_stored_if_it_is_needed(
    lane: Seq<char>,
    operation_id: Seq<char>,
    response_entry_id: Seq<char>,
    usage_id: Seq<char>,
    tip_id: Option<Seq<char>>,
    current: OperationStateView,
    meta: OperationMetaView,
    settlement: SettlementView,
    due: Option<DueCompactionView>,
    recovery: bool,
    scratch: Seq<AddressView>,
    ended_at: u64,
    i: int,
)
    requires
        settlement.disposition is Next,
    ensures
        ({
            let next = settlement.disposition->Next_0;
            recorded(
                lane,
                operation_id,
                response_entry_id,
                usage_id,
                tip_id,
                current,
                meta,
                settlement,
                due,
                recovery,
                scratch,
                ended_at,
            ) matches OperationCommandView::Commit { writes, operation_state, .. } && {
                &&& operation_state == next
                &&& next is SummaryDeciding && due is Some ==> writes.last() == (
                WriteView::SetValue {
                    address: AddressView::OperationPreparation {
                        operation_id,
                        task_id: due->Some_0.task_id,
                    },
                    value: DurableValueView::Preparation(due->Some_0.preparation),
                }) && writes.len() == 5
                &&& !(next is SummaryDeciding && due is Some) ==> writes.len() == 4
                &&& 0 <= i < 4 ==> (writes[i] matches WriteView::SetValue { address, .. }
                    ==> !(address is OperationPreparation))
            }
        }),
{
}

/// A hook made a result just if the result says so; nothing else was made by one.
pub proof fn law_only_a_result_is_made_by_a_hook(outcome: StructuralOutcomeView)
    ensures
        match outcome {
            StructuralOutcomeView::Compaction { from_hook, result, .. } => outcome.from_hook()
                == from_hook && outcome.usage() == result.usage,
            StructuralOutcomeView::BranchSummary { from_hook, result, .. } => outcome.from_hook()
                == from_hook && outcome.usage() == result.usage,
            _ => !outcome.from_hook() && outcome.usage() is None,
        },
{
}

} // verus!
