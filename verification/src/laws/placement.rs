//! What running a batch of tool calls comes to.

use crate::command::OperationCommandView;
use crate::drive::terminal::deletions;
use crate::drive::tool_placement::{
    activated, asked_names, completed_by, completed_calls, first_open, names_added, placed_writes,
    placement_command, placement_items, placement_read, ready_end, result_message_events,
    result_writes, staged_message, staged_result, tip_before, turn_message, turn_messages,
    PlacementItemView, ToolBatchSource,
};
use crate::laws::boundary::{lemma_stored_is_loaded, stored};
use crate::model::event::{ConfigUpdatePayloadView, HarnessEventView, PlannedEventView};
use crate::model::message::{AgentMessageView, ToolResultMessageView};
use crate::model::session::{
    Continuation, OperationScopeView, OperationStateView, PendingEntryView, ToolBatchView,
    ToolCallView,
};
use crate::model::storage::{
    AddressView, DurableValueView, EntryView, NewEntryView, NewMessageEntryView, UsageRowView,
    WriteView,
};
use crate::transcript::entry_of;
use crate::types::{LaneRuntimeStateView, PendingRowView};
use vstd::prelude::*;

verus! {

/// The entry reserved for the result of a call.
pub open spec fn result_of(call: ToolCallView) -> Seq<char> {
    match call {
        ToolCallView::Planned { result_entry_id, .. } => result_entry_id,
        ToolCallView::EffectPending { result_entry_id, .. } => result_entry_id,
        ToolCallView::OutcomeReady { result_entry_id, .. } => result_entry_id,
        ToolCallView::Completed { result_entry_id, .. } => result_entry_id,
    }
}

/// The block of the answer that makes a call.
pub open spec fn block_of(call: ToolCallView) -> usize {
    match call {
        ToolCallView::Planned { source_index, .. } => source_index,
        ToolCallView::EffectPending { source_index, .. } => source_index,
        ToolCallView::OutcomeReady { source_index, .. } => source_index,
        ToolCallView::Completed { source_index, .. } => source_index,
    }
}

/// Whether two states are of the same call.
pub open spec fn same_call(a: ToolCallView, b: ToolCallView) -> bool {
    block_of(a) == block_of(b) && result_of(a) == result_of(b)
}

/// Whether a call that has its outcome asks to end the run.
pub open spec fn asks_to_end(call: ToolCallView) -> bool {
    call matches ToolCallView::OutcomeReady { terminate, .. } && terminate
}

/// Whether no two results are of the same call.
pub open spec fn results_distinct(items: Seq<PlacementItemView>) -> bool {
    forall|i: int, j: int|
        0 <= i < items.len() && 0 <= j < items.len() && i != j ==> !same_call(
            (#[trigger] items[i]).call,
            (#[trigger] items[j]).call,
        )
}

/// Whether a result answers a call.
pub open spec fn answers(items: Seq<PlacementItemView>, k: int, call: ToolCallView) -> bool {
    0 <= k < items.len() && same_call(items[k].call, call)
}

proof fn lemma_completed(
    calls: Seq<ToolCallView>,
    items: Seq<PlacementItemView>,
    n: nat,
    c: int,
)
    requires
        results_distinct(items),
        n <= items.len(),
        0 <= c < calls.len(),
    ensures
        completed_calls(calls, items, n).len() == calls.len(),
        same_call(completed_calls(calls, items, n)[c], calls[c]),
        (forall|k: int| 0 <= k < n ==> !answers(items, k, calls[c])) ==> completed_calls(
            calls,
            items,
            n,
        )[c] == calls[c],
        forall|k: int|
            0 <= k < n && #[trigger] answers(items, k, calls[c]) ==> completed_calls(
                calls,
                items,
                n,
            )[c] == (ToolCallView::Completed {
                source_index: block_of(calls[c]),
                result_entry_id: result_of(calls[c]),
                terminate: asks_to_end(items[k].call),
            }),
    decreases n,
{
    if n > 0 {
        let m = (n - 1) as nat;
        lemma_completed(calls, items, m, c);
        let before = completed_calls(calls, items, m);
        assert(completed_calls(calls, items, n) == completed_by(before, items[m as int]));
        assert forall|k: int| 0 <= k < n && #[trigger] answers(items, k, calls[c]) implies
            completed_calls(calls, items, n)[c] == (ToolCallView::Completed {
            source_index: block_of(calls[c]),
            result_entry_id: result_of(calls[c]),
            terminate: asks_to_end(items[k].call),
        }) by {
            if k < m {
                assert(!same_call(items[k].call, items[m as int].call));
            }
        }
        if forall|k: int| 0 <= k < n ==> !answers(items, k, calls[c]) {
            assert(!answers(items, m as int, calls[c]));
        }
    }
}

/// Placing results. The run leaves its batch once every call is completed, by an
/// earlier placement or by one of these results. Then it may finish just if every call
/// asked for that; if any call did not, the model is asked again. Until then it stays
/// with its batch, in which the calls that have results are completed and the others
/// are as they were.
pub proof fn law_a_batch_ends_the_run_only_if_every_call_asks(
    lane: Seq<char>,
    state: LaneRuntimeStateView,
    scope: OperationScopeView,
    batch: ToolBatchView,
    items: Seq<PlacementItemView>,
    usage_ids: Seq<Option<Seq<char>>>,
    arguments: Seq<AddressView>,
)
    requires
        results_distinct(items),
    ensures
        ({
            let done = forall|c: int|
                0 <= c < batch.calls.len() ==> (#[trigger] batch.calls[c]) is Completed || exists|
                    k: int,
                |
                    answers(items, k, batch.calls[c]);
            let all_ask = forall|c: int|
                0 <= c < batch.calls.len() ==> {
                    let call = #[trigger] batch.calls[c];
                    &&& forall|k: int| answers(items, k, call) ==> asks_to_end(items[k].call)
                    &&& (forall|k: int| !answers(items, k, call)) ==> (call
                        matches ToolCallView::Completed { terminate, .. } && terminate)
                };
            &&& placement_command(lane, state, scope, batch, items, usage_ids, arguments)
                matches OperationCommandView::Commit { operation_state, result, .. }
            &&& result == done
            &&& done ==> (operation_state matches OperationStateView::Checkpoint {
                scope: kept,
                continuation,
                trigger_entry_id,
            } && kept == scope && continuation == if all_ask {
                Continuation::MayFinish { include_final_assistant: false }
            } else {
                Continuation::NeedAssistant { overflow_recovery_used: false }
            } && (items.len() > 0 ==> trigger_entry_id == result_of(items.last().call)))
            &&& !done ==> (operation_state matches OperationStateView::Tools {
                scope: kept,
                batch: after,
            } && kept == scope && after.assistant_entry_id == batch.assistant_entry_id
                && after.turn_id == batch.turn_id && after.configuration == batch.configuration
                && after.calls.len() == batch.calls.len() && forall|c: int|
                0 <= c < batch.calls.len() ==> {
                    let call = batch.calls[c];
                    &&& (forall|k: int| !answers(items, k, call)) ==> #[trigger] after.calls[c]
                        == call
                    &&& forall|k: int|
                        #[trigger] answers(items, k, call) ==> after.calls[c]
                            == (ToolCallView::Completed {
                            source_index: block_of(call),
                            result_entry_id: result_of(call),
                            terminate: asks_to_end(items[k].call),
                        })
                })
        }),
{
    let calls = completed_calls(batch.calls, items, items.len());
    assert(calls.len() == batch.calls.len()) by {
        lemma_completed_len(batch.calls, items, items.len());
    }
    assert forall|c: int| 0 <= c < batch.calls.len() implies {
        &&& (forall|k: int| !answers(items, k, batch.calls[c])) ==> #[trigger] calls[c]
            == batch.calls[c]
        &&& forall|k: int|
            #[trigger] answers(items, k, batch.calls[c]) ==> calls[c] == (ToolCallView::Completed {
                source_index: block_of(batch.calls[c]),
                result_entry_id: result_of(batch.calls[c]),
                terminate: asks_to_end(items[k].call),
            })
    } by {
        lemma_completed(batch.calls, items, items.len(), c);
    }
    let done = forall|c: int|
        0 <= c < batch.calls.len() ==> (#[trigger] batch.calls[c]) is Completed || exists|k: int|
            answers(items, k, batch.calls[c]);
    assert(done ==> forall|c: int| 0 <= c < calls.len() ==> (#[trigger] calls[c]) is Completed);
    if !done {
        let c = choose|c: int|
            0 <= c < batch.calls.len() && !((#[trigger] batch.calls[c]) is Completed) && forall|
                k: int,
            |
                !answers(items, k, batch.calls[c]);
        assert(!(calls[c] is Completed));
    }
    let all_ask = forall|c: int|
        0 <= c < batch.calls.len() ==> {
            let call = #[trigger] batch.calls[c];
            &&& forall|k: int| answers(items, k, call) ==> asks_to_end(items[k].call)
            &&& (forall|k: int| !answers(items, k, call)) ==> (call
                matches ToolCallView::Completed { terminate, .. } && terminate)
        };
    if done && all_ask {
        assert forall|c: int| 0 <= c < calls.len() implies (#[trigger] calls[c]
            matches ToolCallView::Completed { terminate, .. } && terminate) by {
            let call = batch.calls[c];
            if exists|k: int| answers(items, k, call) {
                let k = choose|k: int| answers(items, k, call);
                assert(answers(items, k, call));
            }
        }
    }
    if done && !all_ask {
        let c = choose|c: int|
            0 <= c < batch.calls.len() && {
                let call = #[trigger] batch.calls[c];
                !((forall|k: int| answers(items, k, call) ==> asks_to_end(items[k].call)) && ((
                forall|k: int| !answers(items, k, call)) ==> (call
                    matches ToolCallView::Completed { terminate, .. } && terminate)))
            };
        let call = batch.calls[c];
        if exists|k: int| answers(items, k, call) && !asks_to_end(items[k].call) {
            let k = choose|k: int| answers(items, k, call) && !asks_to_end(items[k].call);
            assert(answers(items, k, call));
        }
        assert(!(calls[c] matches ToolCallView::Completed { terminate, .. } && terminate));
    }
}

proof fn lemma_completed_len(calls: Seq<ToolCallView>, items: Seq<PlacementItemView>, n: nat)
    ensures
        completed_calls(calls, items, n).len() == calls.len(),
    decreases n,
{
    if n > 0 {
        lemma_completed_len(calls, items, (n - 1) as nat);
    }
}

/// The entry of the `k`th result: behind the one before it, and the first behind the
/// tip.
pub open spec fn entry_for(
    tip_id: Option<Seq<char>>,
    items: Seq<PlacementItemView>,
    k: int,
) -> NewEntryView {
    NewEntryView::Message(
        NewMessageEntryView {
            id: result_of(items[k].call),
            parent_id: if k == 0 {
                tip_id
            } else {
                Some(result_of(items[k - 1].call))
            },
            custom_type: None,
            message: AgentMessageView::ToolResult(items[k].message),
            terminate: if asks_to_end(items[k].call) {
                Some(true)
            } else {
                None
            },
        },
    )
}

/// The usage of the `k`th result.
pub open spec fn usage_for(
    items: Seq<PlacementItemView>,
    usage_ids: Seq<Option<Seq<char>>>,
    k: int,
) -> Option<UsageRowView> {
    if usage_ids[k] is Some && items[k].message.usage is Some {
        Some(
            UsageRowView {
                id: usage_ids[k]->Some_0,
                seq: 0,
                usage: items[k].message.usage->Some_0,
                entry_id: Some(result_of(items[k].call)),
                adjustment: false,
                details: None,
            },
        )
    } else {
        None
    }
}

proof fn lemma_placed_write(
    tip_id: Option<Seq<char>>,
    items: Seq<PlacementItemView>,
    usage_ids: Seq<Option<Seq<char>>>,
    n: nat,
    k: int,
)
    requires
        n <= items.len(),
        0 <= k < n,
    ensures
        placed_writes(tip_id, items, usage_ids, n).contains(
            WriteView::InsertEntry(entry_for(tip_id, items, k)),
        ),
        placed_writes(tip_id, items, usage_ids, n).contains(
            WriteView::DeleteValue {
                address: AddressView::PendingEntry { entry_id: result_of(items[k].call) },
            },
        ),
        usage_for(items, usage_ids, k) matches Some(row) ==> placed_writes(
            tip_id,
            items,
            usage_ids,
            n,
        ).contains(WriteView::InsertUsage(row)),
    decreases n,
{
    let m = (n - 1) as nat;
    let before = placed_writes(tip_id, items, usage_ids, m);
    let all = placed_writes(tip_id, items, usage_ids, n);
    if k < m {
        lemma_placed_write(tip_id, items, usage_ids, m, k);
        assert forall|write: WriteView| #[trigger] before.contains(write) implies all.contains(
            write,
        ) by {
            let at = before.index_of(write);
            assert(all[at] == write);
        }
    } else {
        assert(all[before.len() as int] == WriteView::InsertEntry(entry_for(tip_id, items, k)));
        assert(all[before.len() as int + 1] == (WriteView::DeleteValue {
            address: AddressView::PendingEntry { entry_id: result_of(items[k].call) },
        }));
        if let Some(row) = usage_for(items, usage_ids, k) {
            assert(all[before.len() as int + 2] == WriteView::InsertUsage(row));
        }
    }
}

proof fn lemma_only_results(
    tip_id: Option<Seq<char>>,
    items: Seq<PlacementItemView>,
    usage_ids: Seq<Option<Seq<char>>>,
    n: nat,
    write: WriteView,
)
    requires
        n <= items.len(),
        placed_writes(tip_id, items, usage_ids, n).contains(write),
    ensures
        exists|k: int|
            0 <= k < n && (write == WriteView::InsertEntry(#[trigger] entry_for(tip_id, items, k))
                || write == (WriteView::DeleteValue {
                address: AddressView::PendingEntry { entry_id: result_of(items[k].call) },
            }) || (usage_for(items, usage_ids, k) matches Some(row) && write
                == WriteView::InsertUsage(row))),
    decreases n,
{
    if n > 0 {
        let m = (n - 1) as nat;
        let before = placed_writes(tip_id, items, usage_ids, m);
        let all = placed_writes(tip_id, items, usage_ids, n);
        let at = all.index_of(write);
        if at < before.len() {
            assert(before[at] == write);
            lemma_only_results(tip_id, items, usage_ids, m, write);
            let k = choose|k: int|
                0 <= k < m && (write == WriteView::InsertEntry(
                    #[trigger] entry_for(tip_id, items, k),
                ) || write == (WriteView::DeleteValue {
                    address: AddressView::PendingEntry { entry_id: result_of(items[k].call) },
                }) || (usage_for(items, usage_ids, k) matches Some(row) && write
                    == WriteView::InsertUsage(row)));
            assert(0 <= k < n && entry_for(tip_id, items, k) == entry_for(tip_id, items, k));
        } else {
            let own = result_writes(
                items[m as int],
                tip_before(tip_id, items, m as int),
                usage_ids[m as int],
            );
            let place = at - before.len();
            assert(own[place] == write);
            assert(own[0] == WriteView::InsertEntry(entry_for(tip_id, items, m as int)));
            assert(own[1] == (WriteView::DeleteValue {
                address: AddressView::PendingEntry { entry_id: result_of(items[m as int].call) },
            }));
            assert(own.len() == 3 ==> (usage_for(items, usage_ids, m as int) matches Some(row)
                && own[2] == WriteView::InsertUsage(row)));
            assert(place == 0 || place == 1 || place == 2);
        }
    }
}

/// What placing results stores. Each result is inserted under the entry reserved for
/// it, with its message, behind the one before it; its staged payload is dropped and
/// its usage booked; the last result is the tip of the lane and of storage. Nothing
/// else is inserted.
pub proof fn law_results_enter_the_transcript(
    lane: Seq<char>,
    state: LaneRuntimeStateView,
    scope: OperationScopeView,
    batch: ToolBatchView,
    items: Seq<PlacementItemView>,
    usage_ids: Seq<Option<Seq<char>>>,
    arguments: Seq<AddressView>,
    k: int,
    write: WriteView,
)
    requires
        0 <= k < items.len(),
    ensures
        ({
            let last = Some(result_of(items.last().call));
            &&& placement_command(lane, state, scope, batch, items, usage_ids, arguments)
                matches OperationCommandView::Commit { writes, lane: Some(patch), .. }
            &&& writes.contains(WriteView::InsertEntry(entry_for(state.tip_id, items, k)))
            &&& writes.contains(
                WriteView::DeleteValue {
                    address: AddressView::PendingEntry { entry_id: result_of(items[k].call) },
                },
            )
            &&& usage_for(items, usage_ids, k) matches Some(row) ==> writes.contains(
                WriteView::InsertUsage(row),
            )
            &&& writes.contains(
                WriteView::SetValue {
                    address: AddressView::BranchTip { lane },
                    value: DurableValueView::Tip(last),
                },
            )
            &&& patch.tip_id == Some(last)
            &&& patch.inbox is None
            &&& writes.contains(write) && write is InsertEntry ==> exists|j: int|
                0 <= j < items.len() && write == WriteView::InsertEntry(
                    #[trigger] entry_for(state.tip_id, items, j),
                )
            &&& writes.contains(write) && write is InsertUsage ==> exists|j: int|
                0 <= j < items.len() && (#[trigger] usage_for(items, usage_ids, j)
                    matches Some(row) && write == WriteView::InsertUsage(row))
        }),
{
    let tip_id = state.tip_id;
    let n = items.len();
    let command = placement_command(lane, state, scope, batch, items, usage_ids, arguments);
    let placed = placed_writes(tip_id, items, usage_ids, n);
    lemma_placed_write(tip_id, items, usage_ids, n, k);
    if let OperationCommandView::Commit { writes, .. } = command {
        assert forall|w: WriteView| #[trigger] placed.contains(w) implies writes.contains(w) by {
            let at = placed.index_of(w);
            assert(writes[at] == w);
        }
        let active = state.configuration.active_tool_names;
        let extra: int = if activated(active, items, n).len() == 0 {
            0
        } else {
            1
        };
        assert(writes[placed.len() + extra] == (WriteView::SetValue {
            address: AddressView::BranchTip { lane },
            value: DurableValueView::Tip(Some(result_of(items.last().call))),
        }));
        if writes.contains(write) && (write is InsertEntry || write is InsertUsage) {
            let at = writes.index_of(write);
            if at < placed.len() {
                assert(placed[at] == write);
                assert(placed.contains(write));
                lemma_only_results(tip_id, items, usage_ids, n, write);
                let j = choose|j: int|
                    0 <= j < n && (write == WriteView::InsertEntry(
                        #[trigger] entry_for(tip_id, items, j),
                    ) || write == (WriteView::DeleteValue {
                        address: AddressView::PendingEntry { entry_id: result_of(items[j].call) },
                    }) || (usage_for(items, usage_ids, j) matches Some(row) && write
                        == WriteView::InsertUsage(row)));
                assert(usage_for(items, usage_ids, j) == usage_for(items, usage_ids, j));
            }
        }
    }
}

proof fn lemma_names_added(
    active: Seq<Seq<char>>,
    added: Seq<Seq<char>>,
    names: Seq<Seq<char>>,
    name: Seq<char>,
)
    ensures
        names_added(active, added, names).contains(name) <==> added.contains(name) || (
        names.contains(name) && !active.contains(name)),
    decreases names.len(),
{
    if names.len() > 0 {
        lemma_names_added(active, added, names.drop_last(), name);
        let rest = names_added(active, added, names.drop_last());
        let last = names.last();
        if names.contains(name) && name != last {
            let at = names.index_of(name);
            assert(names.drop_last()[at] == name);
        }
        if names.drop_last().contains(name) {
            let at = names.drop_last().index_of(name);
            assert(names[at] == name);
        }
        assert(names.contains(last)) by {
            assert(names[names.len() - 1] == last);
        }
        if !(active.contains(last) || rest.contains(last)) {
            assert(rest.push(last)[rest.len() as int] == last);
            if rest.contains(name) {
                assert(rest.push(last)[rest.index_of(name)] == name);
            }
            if rest.push(last).contains(name) {
                let at = rest.push(last).index_of(name);
                if at < rest.len() {
                    assert(rest[at] == name);
                }
            }
        }
    }
}

proof fn lemma_activated(
    active: Seq<Seq<char>>,
    items: Seq<PlacementItemView>,
    n: nat,
    name: Seq<char>,
)
    requires
        n <= items.len(),
    ensures
        activated(active, items, n).contains(name) <==> !active.contains(name) && exists|k: int|
            0 <= k < n && names_tool(#[trigger] items[k], name),
    decreases n,
{
    if n > 0 {
        let m = (n - 1) as nat;
        lemma_activated(active, items, m, name);
        lemma_names_added(active, activated(active, items, m), asked_names(items[m as int]), name);
        if names_tool(items[m as int], name) {
            assert(0 <= m < n);
        }
        if exists|k: int| 0 <= k < m && names_tool(#[trigger] items[k], name) {
            let k = choose|k: int| 0 <= k < m && names_tool(#[trigger] items[k], name);
            assert(0 <= k < n && names_tool(items[k], name));
        }
    }
}

/// Whether a result asks for a tool to become active.
pub open spec fn names_tool(item: PlacementItemView, name: Seq<char>) -> bool {
    item.message.added_tool_names matches Some(names) && names.contains(name)
}

/// Placing results activates the tools that they name. The tools that were active stay
/// so, in order and ahead of the new ones; no other becomes active, and the model and
/// thinking level stay. A change is stored and announced, and only a change.
pub proof fn law_results_activate_the_tools_they_name(
    lane: Seq<char>,
    state: LaneRuntimeStateView,
    scope: OperationScopeView,
    batch: ToolBatchView,
    items: Seq<PlacementItemView>,
    usage_ids: Seq<Option<Seq<char>>>,
    arguments: Seq<AddressView>,
    name: Seq<char>,
)
    ensures
        ({
            let before = state.configuration;
            &&& placement_command(lane, state, scope, batch, items, usage_ids, arguments)
                matches OperationCommandView::Commit { writes, lane: Some(patch), events, .. }
            &&& patch.configuration matches Some(after)
            &&& after.model == before.model
            &&& after.thinking_level == before.thinking_level
            &&& before.active_tool_names.is_prefix_of(after.active_tool_names)
            &&& after.active_tool_names.contains(name) <==> before.active_tool_names.contains(name)
                || exists|k: int| 0 <= k < items.len() && names_tool(#[trigger] items[k], name)
            &&& after != before ==> writes.contains(
                WriteView::SetValue {
                    address: AddressView::LaneConfig { lane },
                    value: DurableValueView::Configuration(after),
                },
            ) && events.len() > 0 && events.last() == PlannedEventView::Ready(
                HarnessEventView::ConfigUpdate {
                    lane: Some(lane),
                    payload: ConfigUpdatePayloadView::ActiveTools {
                        value: after.active_tool_names,
                        previous: before.active_tool_names,
                    },
                    recovery: None,
                },
            )
        }),
{
    let active = state.configuration.active_tool_names;
    let n = items.len();
    let added = activated(active, items, n);
    lemma_activated(active, items, n, name);
    let all = active + added;
    if active.contains(name) {
        assert(all[active.index_of(name)] == name);
    }
    if added.contains(name) {
        assert(all[active.len() + added.index_of(name)] == name);
    }
    if all.contains(name) {
        let at = all.index_of(name);
        if at < active.len() {
            assert(active[at] == name);
        } else {
            assert(added[at - active.len()] == name);
        }
    }
    let placed = placed_writes(state.tip_id, items, usage_ids, n);
    if added.len() > 0 {
        if let OperationCommandView::Commit { writes, lane: Some(patch), .. } = placement_command(
            lane,
            state,
            scope,
            batch,
            items,
            usage_ids,
            arguments,
        ) {
            assert(writes[placed.len() as int] == (WriteView::SetValue {
                address: AddressView::LaneConfig { lane },
                value: DurableValueView::Configuration(patch.configuration->Some_0),
            }));
        }
    } else {
        assert(all =~= active);
    }
}

/// Whether the calls ahead of a place are completed.
pub open spec fn completed_up_to(calls: Seq<ToolCallView>, s: int) -> bool {
    0 <= s <= calls.len() && forall|i: int| 0 <= i < s ==> (#[trigger] calls[i]) is Completed
}

/// What a placement takes: the results of the calls that are next in line. All calls
/// ahead of them are completed, each of them has its outcome, and the call behind
/// them, if there is one, has none yet. Each goes with the tool result that was staged
/// for it. The results of the whole turn are given just with the last of them.
pub proof fn law_results_are_taken_in_call_order(
    source: ToolBatchSource,
    rows: Seq<PendingRowView>,
    placed: Seq<EntryView>,
    calls: Seq<ToolCallView>,
)
    ensures
        match placement_read(source, rows, placed, calls) {
            Err(_) => true,
            Ok(None) => exists|s: int|
                #[trigger] completed_up_to(calls, s) && (s < calls.len() ==> !(calls[s]
                    is Completed) && !(calls[s] is OutcomeReady)),
            Ok(Some(read)) => exists|s: int|
                #[trigger] completed_up_to(calls, s) && s + read.items.len() <= calls.len()
                    && read.items.len() > 0 && (forall|k: int|
                    0 <= k < read.items.len() ==> {
                        let item = #[trigger] read.items[k];
                        &&& item.call == calls[s + k]
                        &&& item.call is OutcomeReady
                        &&& stored(
                            rows,
                            result_of(item.call),
                            PendingEntryView::Message {
                                payload: AgentMessageView::ToolResult(item.message),
                            },
                        )
                        &&& source.calls@.contains_key(block_of(item.call))
                        &&& item.message.tool_call_id == source.calls@[block_of(
                            item.call,
                        )].deep_view().id
                        &&& item.message.tool_name == source.calls@[block_of(
                            item.call,
                        )].deep_view().name
                    }) && (s + read.items.len() < calls.len() ==> !(calls[s + read.items.len()]
                    is OutcomeReady)) && (read.turn_results is Some <==> s + read.items.len()
                    == calls.len()),
        },
{
    let start = first_open(calls, 0);
    let end = ready_end(calls, start);
    lemma_first_open(calls, 0);
    lemma_ready_end(calls, start);
    match placement_read(source, rows, placed, calls) {
        Err(_) => {},
        Ok(None) => {
            assert(completed_up_to(calls, start));
        },
        Ok(Some(read)) => {
            lemma_items_read(source, rows, calls, start, end);
            let s = start;
            assert(completed_up_to(calls, s));
            assert(s + read.items.len() == end);
            assert forall|k: int| 0 <= k < read.items.len() implies {
                let item = #[trigger] read.items[k];
                &&& item.call == calls[s + k]
                &&& item.call is OutcomeReady
                &&& stored(
                    rows,
                    result_of(item.call),
                    PendingEntryView::Message {
                        payload: AgentMessageView::ToolResult(item.message),
                    },
                )
                &&& source.calls@.contains_key(block_of(item.call))
                &&& item.message.tool_call_id == source.calls@[block_of(item.call)].deep_view().id
                &&& item.message.tool_name == source.calls@[block_of(item.call)].deep_view().name
            } by {
                let item = read.items[k];
                assert(calls[s + k] is OutcomeReady);
                lemma_stored_is_loaded(
                    rows,
                    result_of(item.call),
                    PendingEntryView::Message {
                        payload: AgentMessageView::ToolResult(item.message),
                    },
                );
            }
        },
    }
}

proof fn lemma_first_open(calls: Seq<ToolCallView>, start: int)
    requires
        0 <= start <= calls.len(),
    ensures
        start <= first_open(calls, start) <= calls.len(),
        forall|i: int|
            start <= i < first_open(calls, start) ==> (#[trigger] calls[i]) is Completed,
        first_open(calls, start) < calls.len() ==> !(calls[first_open(calls, start)]
            is Completed),
    decreases calls.len() - start,
{
    if start < calls.len() && calls[start] is Completed {
        lemma_first_open(calls, start + 1);
    }
}

proof fn lemma_ready_end(calls: Seq<ToolCallView>, start: int)
    requires
        0 <= start <= calls.len(),
    ensures
        start <= ready_end(calls, start) <= calls.len(),
        forall|i: int|
            start <= i < ready_end(calls, start) ==> (#[trigger] calls[i]) is OutcomeReady,
        ready_end(calls, start) < calls.len() ==> !(calls[ready_end(calls, start)]
            is OutcomeReady),
    decreases calls.len() - start,
{
    if start < calls.len() && calls[start] is OutcomeReady {
        lemma_ready_end(calls, start + 1);
    }
}

proof fn lemma_items_read(
    source: ToolBatchSource,
    rows: Seq<PendingRowView>,
    calls: Seq<ToolCallView>,
    start: int,
    end: int,
)
    requires
        0 <= start <= end <= calls.len(),
        placement_items(source, rows, calls, start, end) is Ok,
    ensures
        ({
            let items = placement_items(source, rows, calls, start, end)->Ok_0;
            &&& items.len() == end - start
            &&& forall|k: int|
                0 <= k < items.len() ==> (#[trigger] items[k]).call == calls[start + k]
                    && staged_result(source, rows, calls[start + k]) == Ok::<
                    ToolResultMessageView,
                    Seq<char>,
                >(items[k].message)
        }),
    decreases end - start,
{
    if start < end {
        lemma_items_read(source, rows, calls, start, end - 1);
    }
}

proof fn lemma_turn(
    items: Seq<PlacementItemView>,
    placed: Seq<EntryView>,
    calls: Seq<ToolCallView>,
)
    requires
        turn_messages(items, placed, calls) is Some,
    ensures
        turn_messages(items, placed, calls)->Some_0.len() == calls.len(),
        forall|c: int|
            0 <= c < calls.len() ==> turn_message(items, placed, result_of(#[trigger] calls[c]))
                == Some(turn_messages(items, placed, calls)->Some_0[c]),
    decreases calls.len(),
{
    if calls.len() > 0 {
        let rest = calls.drop_last();
        lemma_turn(items, placed, rest);
        assert forall|c: int| 0 <= c < calls.len() implies turn_message(
            items,
            placed,
            result_of(#[trigger] calls[c]),
        ) == Some(turn_messages(items, placed, calls)->Some_0[c]) by {
            if c < rest.len() {
                assert(rest[c] == calls[c]);
            }
        }
    }
}

proof fn lemma_staged_message(items: Seq<PlacementItemView>, id: Seq<char>)
    ensures
        match staged_message(items, id) {
            Some(message) => exists|k: int|
                0 <= k < items.len() && result_of((#[trigger] items[k]).call) == id
                    && items[k].message == message,
            None => forall|k: int|
                0 <= k < items.len() ==> result_of((#[trigger] items[k]).call) != id,
        },
    decreases items.len(),
{
    if items.len() > 0 {
        let last = items.len() - 1;
        if result_of(items[last].call) == id {
            assert(items[last].message == items.last().message);
        } else {
            lemma_staged_message(items.drop_last(), id);
            if let Some(message) = staged_message(items.drop_last(), id) {
                let k = choose|k: int|
                    0 <= k < items.drop_last().len() && result_of(
                        (#[trigger] items.drop_last()[k]).call,
                    ) == id && items.drop_last()[k].message == message;
                assert(items[k] == items.drop_last()[k]);
            } else {
                assert forall|k: int| 0 <= k < items.len() implies result_of(
                    (#[trigger] items[k]).call,
                ) != id by {
                    if k < last {
                        assert(items.drop_last()[k] == items[k]);
                    }
                }
            }
        }
    }
}

/// The results of a turn: one for each call, in the order of the calls, taken from
/// the results that are placed now or from the transcript.
pub proof fn law_a_turn_ends_with_a_result_for_each_call(
    source: ToolBatchSource,
    rows: Seq<PendingRowView>,
    placed: Seq<EntryView>,
    calls: Seq<ToolCallView>,
    c: int,
)
    requires
        0 <= c < calls.len(),
        placement_read(source, rows, placed, calls) matches Ok(Some(read)) && read.turn_results
            is Some,
    ensures
        placement_read(source, rows, placed, calls) matches Ok(Some(read)) && (read.turn_results
            matches Some(results) && results.len() == calls.len() && ((exists|k: int|
            0 <= k < read.items.len() && result_of((#[trigger] read.items[k]).call) == result_of(
                calls[c],
            ) && read.items[k].message == results[c]) || (entry_of(placed, result_of(calls[c]))
            matches Some(EntryView::Message(entry)) && entry.message
            == AgentMessageView::ToolResult(results[c])))),
{
    let read = placement_read(source, rows, placed, calls)->Ok_0->Some_0;
    lemma_turn(read.items, placed, calls);
    assert(turn_message(read.items, placed, result_of(calls[c])) == Some(
        read.turn_results->Some_0[c],
    ));
    lemma_staged_message(read.items, result_of(calls[c]));
}

/// The results of tools are announced in order, each with a start and an end that
/// names its entry.
pub proof fn law_results_are_announced_in_order(
    lane: Seq<char>,
    operation_id: Seq<char>,
    items: Seq<PlacementItemView>,
    recovery: bool,
    n: nat,
    k: int,
)
    requires
        n <= items.len(),
        0 <= k < n,
    ensures
        ({
            let events = result_message_events(lane, operation_id, items, recovery, n);
            let message = AgentMessageView::ToolResult(items[k].message);
            &&& events.len() == 2 * n
            &&& events[2 * k] == (HarnessEventView::MessageStart {
                lane,
                run_id: Some(operation_id),
                message,
                recovery: Some(recovery),
            })
            &&& events[2 * k + 1] == (HarnessEventView::MessageEnd {
                lane,
                run_id: Some(operation_id),
                message,
                entry_id: Some(result_of(items[k].call)),
                recovery: Some(recovery),
            })
        }),
    decreases n,
{
    if k < n - 1 {
        law_results_are_announced_in_order(
            lane,
            operation_id,
            items,
            recovery,
            (n - 1) as nat,
            k,
        );
    } else {
        lemma_announced_len(lane, operation_id, items, recovery, (n - 1) as nat);
    }
}

proof fn lemma_announced_len(
    lane: Seq<char>,
    operation_id: Seq<char>,
    items: Seq<PlacementItemView>,
    recovery: bool,
    n: nat,
)
    ensures
        result_message_events(lane, operation_id, items, recovery, n).len() == 2 * n,
    decreases n,
{
    if n > 0 {
        lemma_announced_len(lane, operation_id, items, recovery, (n - 1) as nat);
    }
}

/// The stored arguments of a turn are deleted once its batch is complete, and not
/// before.
pub proof fn law_arguments_go_with_their_batch(
    lane: Seq<char>,
    state: LaneRuntimeStateView,
    scope: OperationScopeView,
    batch: ToolBatchView,
    items: Seq<PlacementItemView>,
    usage_ids: Seq<Option<Seq<char>>>,
    arguments: Seq<AddressView>,
    i: int,
)
    requires
        0 <= i < arguments.len(),
        arguments[i] is OperationToolArgs,
    ensures
        placement_command(lane, state, scope, batch, items, usage_ids, arguments)
            matches OperationCommandView::Commit { writes, operation_state, .. } && (
        operation_state is Checkpoint <==> writes.contains(
            WriteView::DeleteValue { address: arguments[i] },
        )),
{
    let n = items.len();
    let write = WriteView::DeleteValue { address: arguments[i] };
    if let OperationCommandView::Commit { writes, operation_state, .. } = placement_command(
        lane,
        state,
        scope,
        batch,
        items,
        usage_ids,
        arguments,
    ) {
        let placed = placed_writes(state.tip_id, items, usage_ids, n);
        if operation_state is Checkpoint {
            let at = writes.len() - arguments.len() + i;
            assert(deletions(arguments)[i] == write);
            assert(writes[at] == write);
        }
        if writes.contains(write) && !(operation_state is Checkpoint) {
            let at = writes.index_of(write);
            if at < placed.len() {
                assert(placed[at] == write);
                assert(placed.contains(write));
                lemma_only_results(state.tip_id, items, usage_ids, n, write);
            }
        }
    }
}

} // verus!
