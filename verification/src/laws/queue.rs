//! What queueing, appending and stopping come to.

use crate::command::LaneCommandView;
use crate::drive::boundary::{distinct_ids, lemma_in_filter, placed_entry};
use crate::inbox::{item_ids, lane_queues, loaded, of_kind, payload_of, pending_messages};
use crate::lane::accept::{split_inbox, AnswerView};
use crate::lane::intake::run_acceptance;
use crate::lane::queue::{
    abandoned, abandoned_messages, abort_command, append_command, cancel_command, queue_command,
    queued_writes,
};
use crate::laws::boundary::{lemma_stored_is_loaded, made_of, stored};
use crate::model::event::{HarnessEventView, LaneQueuedItemView, PlannedEventView};
use crate::model::message::AgentMessageView;
use crate::model::session::{
    Control, DurableLaneStateView, InboxItemKind, InboxItemView, OperationView, PendingEntryView,
    QueueMode,
};
use crate::model::storage::{AddressView, DurableValueView, WriteView};
use crate::types::{
    CancelQueuedKind, HarnessErrorView, LaneRuntimeStateView, PendingPayloadView, PendingRowView,
};
use vstd::prelude::*;

verus! {

/// The write that records what a lane is about.
pub open spec fn records_lane(
    lane: Seq<char>,
    state: LaneRuntimeStateView,
) -> WriteView {
    WriteView::SetValue {
        address: AddressView::LaneState { lane },
        value: DurableValueView::Lane(
            DurableLaneStateView {
                current_operation_id: match state.operation {
                    Some(operation) => Some(operation.meta.operation_id),
                    None => None,
                },
                last_operation_id: state.last_operation_id,
                inbox: state.inbox,
            },
        ),
    }
}

/// What is queued goes to the end of the inbox under its id and kind, with its payload
/// stored. Nothing else of the lane changes, and observers get the queues as they are
/// then.
pub proof fn law_what_is_queued_goes_to_the_end(
    lane: Seq<char>,
    state: LaneRuntimeStateView,
    rows: Seq<PendingRowView>,
    entry_id: Seq<char>,
    kind: InboxItemKind,
    pending: PendingEntryView,
)
    ensures
        queue_command(lane, state, rows, entry_id, kind, pending, entry_id) matches Ok(command)
            ==> (command matches LaneCommandView::Commit { writes, next, result, events } && next
            == (LaneRuntimeStateView {
            inbox: state.inbox.push(InboxItemView { entry_id, kind }),
            ..state
        }) && writes == seq![
            WriteView::SetValue {
                address: AddressView::PendingEntry { entry_id },
                value: DurableValueView::Pending(pending),
            },
            records_lane(lane, next),
        ] && result == entry_id && (lane_queues(rows, next.inbox) matches Ok(queues) && events
            == seq![
            PlannedEventView::Ready(HarnessEventView::QueueUpdate { lane, queues, recovery: None }),
        ])),
        queue_command(lane, state, rows, entry_id, kind, pending, entry_id) is Err
            ==> lane_queues(rows, state.inbox.push(InboxItemView { entry_id, kind })) is Err,
{
}

proof fn lemma_queues(rows: Seq<PendingRowView>, inbox: Seq<InboxItemView>)
    ensures
        lane_queues(rows, inbox) matches Ok(queues) ==> queues.len() == inbox.len() && forall|
            i: int,
        |
            0 <= i < inbox.len() ==> shows(rows, #[trigger] inbox[i], queues[i]),
    decreases inbox.len(),
{
    if inbox.len() > 0 {
        let rest = inbox.drop_last();
        lemma_queues(rows, rest);
        if let Ok(queues) = lane_queues(rows, inbox) {
            assert forall|i: int| 0 <= i < inbox.len() implies shows(
                rows,
                #[trigger] inbox[i],
                queues[i],
            ) by {
                if i < rest.len() {
                    assert(rest[i] == inbox[i]);
                } else {
                    let entry = loaded(rows, inbox[i], "Pending "@)->Ok_0;
                    lemma_stored_is_loaded(rows, inbox[i].entry_id, entry);
                    assert(stored(rows, inbox[i].entry_id, entry));
                }
            }
        }
    }
}

/// Whether an item shows a queued entry: its id, its kind and what is stored for it.
pub open spec fn shows(
    rows: Seq<PendingRowView>,
    item: InboxItemView,
    shown: LaneQueuedItemView,
) -> bool {
    match shown {
        LaneQueuedItemView::Message { entry_id, kind, message } => entry_id == item.entry_id && kind
            == item.kind && stored(
            rows,
            item.entry_id,
            PendingEntryView::Message { payload: message },
        ),
        LaneQueuedItemView::Custom { entry_id, kind, custom_type, data } => entry_id
            == item.entry_id && kind == item.kind && kind == InboxItemKind::Write && stored(
            rows,
            item.entry_id,
            PendingEntryView::Custom { custom_type, payload: data },
        ),
    }
}

/// The queues of a lane show each entry of its inbox, in order, with its kind and what is
/// stored for it. Only a write may be anything but a message.
pub proof fn law_queues_show_the_inbox(
    rows: Seq<PendingRowView>,
    inbox: Seq<InboxItemView>,
    i: int,
)
    requires
        0 <= i < inbox.len(),
    ensures
        lane_queues(rows, inbox) matches Ok(queues) ==> queues.len() == inbox.len() && shows(
            rows,
            inbox[i],
            queues[i],
        ),
{
    lemma_queues(rows, inbox);
    if let Ok(queues) = lane_queues(rows, inbox) {
        assert(shows(rows, inbox[i], queues[i]));
    }
}

/// What the writes that are queued become.
pub proof fn lemma_queued_writes(rows: Seq<PendingRowView>, items: Seq<InboxItemView>)
    ensures
        queued_writes(rows, items) matches Ok(entries) ==> entries.len() == items.len() && forall|
            i: int,
        |
            0 <= i < items.len() ==> (payload_of(rows, (#[trigger] items[i]).entry_id) matches Some(
                PendingPayloadView::Decoded(entry),
            ) && entries[i] == placed_entry(items[i].entry_id, None, entry)),
    decreases items.len(),
{
    if items.len() > 0 {
        let rest = items.drop_last();
        lemma_queued_writes(rows, rest);
        if let Ok(entries) = queued_writes(rows, items) {
            assert forall|i: int| 0 <= i < items.len() implies (payload_of(
                rows,
                (#[trigger] items[i]).entry_id,
            ) matches Some(PendingPayloadView::Decoded(entry)) && entries[i] == placed_entry(
                items[i].entry_id,
                None,
                entry,
            )) by {
                if i < rest.len() {
                    assert(rest[i] == items[i]);
                }
            }
        }
    }
}

/// Appending to a lane. While an operation runs, the entry is queued as a write.
/// Otherwise the writes that are queued are appended in order, and the entry behind them,
/// each behind the one before it and the first behind the tip; their payloads are dropped,
/// the entry is the tip of the lane and of storage, and everything else stays queued.
pub proof fn law_an_append_goes_behind_the_queued_writes(
    lane: Seq<char>,
    state: LaneRuntimeStateView,
    rows: Seq<PendingRowView>,
    id: Seq<char>,
    pending: PendingEntryView,
    i: int,
)
    ensures
        append_command(lane, state, rows, id, pending) matches Ok(command) ==> {
            let earlier = state.inbox.filter(
                |item: InboxItemView| item.kind == InboxItemKind::Write,
            );
            let n = earlier.len() as int;
            &&& command matches LaneCommandView::Commit { writes, next, result, events }
            &&& result == id
            &&& next.operation == state.operation
            &&& next.configuration == state.configuration
            &&& next.last_operation_id == state.last_operation_id
            &&& if state.operation is Some {
                &&& next.tip_id == state.tip_id
                &&& next.inbox == state.inbox.push(
                    InboxItemView { entry_id: id, kind: InboxItemKind::Write },
                )
                &&& writes == seq![
                    WriteView::SetValue {
                        address: AddressView::PendingEntry { entry_id: id },
                        value: DurableValueView::Pending(pending),
                    },
                    records_lane(lane, next),
                ]
            } else {
                &&& next.tip_id == Some(id)
                &&& next.inbox == state.inbox.filter(
                    |item: InboxItemView| item.kind != InboxItemKind::Write,
                )
                &&& writes.len() == 2 * n + 3
                &&& 0 <= i < n ==> exists|entry: PendingEntryView|
                    #[trigger] stored(rows, earlier[i].entry_id, entry) && (writes[i]
                        matches WriteView::InsertEntry(made) && made_of(
                        made,
                        earlier[i].entry_id,
                        if i == 0 {
                            state.tip_id
                        } else {
                            Some(earlier[i - 1].entry_id)
                        },
                        entry,
                    ))
                &&& writes[n] matches WriteView::InsertEntry(made)
                &&& made_of(
                    made,
                    id,
                    if n == 0 {
                        state.tip_id
                    } else {
                        Some(earlier[n - 1].entry_id)
                    },
                    pending,
                )
                &&& 0 <= i < n ==> writes[n + 1 + i] == (WriteView::DeleteValue {
                    address: AddressView::PendingEntry { entry_id: earlier[i].entry_id },
                })
                &&& writes[2 * n + 1] == (WriteView::SetValue {
                    address: AddressView::BranchTip { lane },
                    value: DurableValueView::Tip(Some(id)),
                })
                &&& writes[2 * n + 2] == records_lane(lane, next)
            }
        },
{
    let earlier = of_kind(state.inbox, InboxItemKind::Write);
    let keep = |item: InboxItemView| item.kind == InboxItemKind::Write;
    let n = earlier.len() as int;
    lemma_queued_writes(rows, earlier);
    if state.operation is None {
        if let Ok(LaneCommandView::Commit { writes, .. }) = append_command(
            lane,
            state,
            rows,
            id,
            pending,
        ) {
            let queued = queued_writes(rows, earlier)->Ok_0;
            let all = queued.push(placed_entry(id, None, pending));
            if n > 0 {
                assert(all[n - 1].id() == earlier[n - 1].entry_id);
            }
            if 0 <= i < n {
                let entry = payload_of(rows, earlier[i].entry_id)->Some_0->Decoded_0;
                lemma_stored_is_loaded(rows, earlier[i].entry_id, entry);
                if i > 0 {
                    assert(all[i - 1].id() == earlier[i - 1].entry_id);
                }
                assert(all[i] == placed_entry(earlier[i].entry_id, None, entry));
                assert(stored(rows, earlier[i].entry_id, entry));
                assert(made_of(
                    writes[i]->InsertEntry_0,
                    earlier[i].entry_id,
                    if i == 0 {
                        state.tip_id
                    } else {
                        Some(earlier[i - 1].entry_id)
                    },
                    entry,
                ));
            }
        }
    }
}

/// Taking back a queued entry removes it from the inbox and drops its payload; the rest
/// stays in order. An entry that is not queued cannot be taken back: it has entered the
/// transcript, or there never was one. Then nothing changes.
pub proof fn law_a_queued_entry_is_taken_back(
    lane: Seq<char>,
    state: LaneRuntimeStateView,
    rows: Seq<PendingRowView>,
    entry_id: Seq<char>,
    consumed: bool,
)
    ensures
        ({
            let queued = exists|i: int|
                0 <= i < state.inbox.len() && (#[trigger] state.inbox[i]).entry_id == entry_id;
            let decided = cancel_command(lane, state, rows, entry_id, consumed);
            &&& !queued ==> decided == Ok::<LaneCommandView<CancelQueuedKind>, Seq<char>>(
                LaneCommandView::Return {
                    result: if consumed {
                        CancelQueuedKind::AlreadyConsumed
                    } else {
                        CancelQueuedKind::NotFound
                    },
                },
            )
            &&& queued && decided is Ok ==> (decided->Ok_0 matches LaneCommandView::Commit {
                writes,
                next,
                result,
                events,
            } && result == CancelQueuedKind::Cancelled && next.inbox == state.inbox.filter(
                |item: InboxItemView| item.entry_id != entry_id,
            ) && next == (LaneRuntimeStateView { inbox: next.inbox, ..state }) && writes == seq![
                WriteView::DeleteValue { address: AddressView::PendingEntry { entry_id } },
                records_lane(lane, next),
            ] && (lane_queues(rows, next.inbox) matches Ok(queues) && events == seq![
                PlannedEventView::Ready(
                    HarnessEventView::QueueUpdate { lane, queues, recovery: None },
                ),
            ]))
        }),
{
    let ids = item_ids(state.inbox);
    if ids.contains(entry_id) {
        let i = ids.index_of(entry_id);
        assert(state.inbox[i].entry_id == entry_id);
    }
    if exists|i: int|
        0 <= i < state.inbox.len() && (#[trigger] state.inbox[i]).entry_id == entry_id {
        let i = choose|i: int|
            0 <= i < state.inbox.len() && (#[trigger] state.inbox[i]).entry_id == entry_id;
        assert(ids[i] == entry_id);
    }
    let left = |item: InboxItemView| !seq![entry_id].contains(item.entry_id);
    let other = |item: InboxItemView| item.entry_id != entry_id;
    assert forall|i: int| 0 <= i < state.inbox.len() implies left(#[trigger] state.inbox[i])
        == other(state.inbox[i]) by {
        assert(seq![entry_id][0] == entry_id);
    }
    crate::drive::boundary::lemma_filter_agrees(state.inbox, left, other);
}

proof fn lemma_given_back(
    rows: Seq<PendingRowView>,
    items: Seq<InboxItemView>,
    steer: bool,
)
    requires
        forall|i: int|
            0 <= i < items.len() ==> (payload_of(rows, (#[trigger] items[i]).entry_id) matches Some(
                PendingPayloadView::Decoded(PendingEntryView::Message { .. }),
            )),
    ensures
        ({
            let mine = items.filter(
                |item: InboxItemView| (item.kind == InboxItemKind::Steer) == steer,
            );
            &&& abandoned_messages(rows, items, steer) matches Ok(messages)
            &&& messages.len() == mine.len()
            &&& forall|i: int|
                0 <= i < mine.len() ==> payload_of(rows, (#[trigger] mine[i]).entry_id) == Some(
                    PendingPayloadView::Decoded(PendingEntryView::Message { payload: messages[i] }),
                )
        }),
    decreases items.len(),
{
    reveal(Seq::filter);
    if items.len() > 0 {
        let rest = items.drop_last();
        assert forall|i: int| 0 <= i < rest.len() implies (payload_of(
            rows,
            (#[trigger] rest[i]).entry_id,
        ) matches Some(PendingPayloadView::Decoded(PendingEntryView::Message { .. }))) by {
            assert(rest[i] == items[i]);
        }
        lemma_given_back(rows, rest, steer);
        let last = items.len() - 1;
        assert(items[last] == items.last());
    }
}

proof fn lemma_filter_twice(inbox: Seq<InboxItemView>, steer: bool)
    ensures
        abandoned(inbox).filter(|item: InboxItemView| (item.kind == InboxItemKind::Steer) == steer)
            == inbox.filter(
            |item: InboxItemView|
                item.kind == if steer {
                    InboxItemKind::Steer
                } else {
                    InboxItemKind::FollowUp
                },
        ),
    decreases inbox.len(),
{
    reveal(Seq::filter);
    if inbox.len() > 0 {
        lemma_filter_twice(inbox.drop_last(), steer);
        let before = abandoned(inbox.drop_last());
        let last = inbox.last();
        if last.kind == InboxItemKind::Steer || last.kind == InboxItemKind::FollowUp {
            assert(before.push(last).drop_last() =~= before);
        }
    }
}

/// A request to stop. It is refused where the operation does not own the lane, whose
/// owner is told. The first request marks the leaf with its time and gives back what was
/// queued to steer the run and to follow it, each in order; both are taken from the inbox
/// and their payloads dropped. The rest of the lane stays.
pub proof fn law_a_request_to_stop_gives_back_what_was_queued(
    lane: Seq<char>,
    operation_id: Seq<char>,
    state: LaneRuntimeStateView,
    rows: Seq<PendingRowView>,
    requested_at: u64,
    i: int,
)
    requires
        forall|k: int|
            0 <= k < state.inbox.len() && ((#[trigger] state.inbox[k]).kind == InboxItemKind::Steer
                || state.inbox[k].kind == InboxItemKind::FollowUp) ==> exists|
                message: AgentMessageView,
            | #[trigger]
                stored(
                    rows,
                    state.inbox[k].entry_id,
                    PendingEntryView::Message { payload: message },
                ),
    ensures
        ({
            let decided = abort_command(lane, operation_id, state, rows, requested_at);
            match state.operation {
                None => decided matches Ok(
                    LaneCommandView::Return { result: AnswerView::Refused { error } },
                ) && (error matches HarnessErrorView::OperationMismatch { expected, current, .. }
                    && expected == operation_id && current is None),
                Some(operation) => if operation.meta.operation_id != operation_id {
                    decided matches Ok(
                        LaneCommandView::Return { result: AnswerView::Refused { error } },
                    ) && (error matches HarnessErrorView::OperationMismatch {
                        expected,
                        current,
                        ..
                    } && expected == operation_id && current == Some(operation.meta.operation_id))
                } else if operation.state.control() is CancelRequested {
                    decided matches Ok(
                        LaneCommandView::Return { result: AnswerView::Granted { value } },
                    ) && !value.newly_requested && value.steer.len() == 0 && value.follow_up.len()
                        == 0 && value.operation_id == operation_id
                } else {
                    decided matches Ok(command) ==> {
                        let steers = state.inbox.filter(
                            |item: InboxItemView| item.kind == InboxItemKind::Steer,
                        );
                        let follow_ups = state.inbox.filter(
                            |item: InboxItemView| item.kind == InboxItemKind::FollowUp,
                        );
                        &&& command matches LaneCommandView::Commit {
                            writes,
                            next,
                            result: AnswerView::Granted { value },
                            events,
                        }
                        &&& value.newly_requested
                        &&& value.operation_id == operation_id
                        &&& value.steer.len() == steers.len()
                        &&& value.follow_up.len() == follow_ups.len()
                        &&& 0 <= i < steers.len() ==> stored(
                            rows,
                            steers[i].entry_id,
                            PendingEntryView::Message { payload: value.steer[i] },
                        )
                        &&& 0 <= i < follow_ups.len() ==> stored(
                            rows,
                            follow_ups[i].entry_id,
                            PendingEntryView::Message { payload: value.follow_up[i] },
                        )
                        &&& next.operation == Some(
                            OperationView {
                                meta: operation.meta,
                                state: operation.state.with_control(
                                    Control::CancelRequested { requested_at },
                                ),
                            },
                        )
                        &&& next.tip_id == state.tip_id
                        &&& next.configuration == state.configuration
                        &&& next.last_operation_id == state.last_operation_id
                        &&& writes.contains(records_lane(lane, next))
                        &&& writes.contains(
                            WriteView::SetValue {
                                address: AddressView::OperationState { operation_id },
                                value: DurableValueView::State(next.operation->Some_0.state),
                            },
                        )
                        &&& 0 <= i < state.inbox.len() && (state.inbox[i].kind
                            == InboxItemKind::Steer || state.inbox[i].kind
                            == InboxItemKind::FollowUp) ==> writes.contains(
                            WriteView::DeleteValue {
                                address: AddressView::PendingEntry {
                                    entry_id: state.inbox[i].entry_id,
                                },
                            },
                        )
                        &&& events[0] == PlannedEventView::Ready(
                            HarnessEventView::OperationAbort {
                                lane,
                                operation_id,
                                steer: value.steer,
                                follow_up: value.follow_up,
                                recovery: None,
                            },
                        )
                    }
                },
            }
        }),
{
    if let Some(operation) = state.operation {
        if operation.meta.operation_id == operation_id && !(operation.state.control()
            is CancelRequested) {
            if let Ok(LaneCommandView::Commit { writes, next, .. }) = abort_command(
                lane,
                operation_id,
                state,
                rows,
                requested_at,
            ) {
                let removed = abandoned(state.inbox);
                let goes = |item: InboxItemView|
                    item.kind == InboxItemKind::Steer || item.kind == InboxItemKind::FollowUp;
                assert forall|k: int| 0 <= k < removed.len() implies (payload_of(
                    rows,
                    (#[trigger] removed[k]).entry_id,
                ) matches Some(PendingPayloadView::Decoded(PendingEntryView::Message { .. }))) by {
                    assert(removed.contains(removed[k]));
                    lemma_in_filter(state.inbox, goes, removed[k]);
                    let at = state.inbox.index_of(removed[k]);
                    let message = choose|message: AgentMessageView| #[trigger]
                        stored(
                            rows,
                            state.inbox[at].entry_id,
                            PendingEntryView::Message { payload: message },
                        );
                    lemma_stored_is_loaded(
                        rows,
                        removed[k].entry_id,
                        PendingEntryView::Message { payload: message },
                    );
                }
                lemma_given_back(rows, removed, true);
                lemma_given_back(rows, removed, false);
                lemma_filter_twice(state.inbox, true);
                lemma_filter_twice(state.inbox, false);
                let steer_kind = |item: InboxItemView| item.kind == InboxItemKind::Steer;
                let follow_kind = |item: InboxItemView| item.kind == InboxItemKind::FollowUp;
                let first = |item: InboxItemView|
                    item.kind == if true {
                        InboxItemKind::Steer
                    } else {
                        InboxItemKind::FollowUp
                    };
                let second = |item: InboxItemView|
                    item.kind == if false {
                        InboxItemKind::Steer
                    } else {
                        InboxItemKind::FollowUp
                    };
                crate::drive::boundary::lemma_filter_agrees(state.inbox, steer_kind, first);
                crate::drive::boundary::lemma_filter_agrees(state.inbox, follow_kind, second);
                let steers = state.inbox.filter(steer_kind);
                let follow_ups = state.inbox.filter(follow_kind);
                let steer = abandoned_messages(rows, removed, true)->Ok_0;
                let follow_up = abandoned_messages(rows, removed, false)->Ok_0;
                if 0 <= i < steers.len() {
                    assert(payload_of(rows, steers[i].entry_id) == Some(
                        PendingPayloadView::Decoded(
                            PendingEntryView::Message { payload: steer[i] },
                        ),
                    ));
                    lemma_stored_is_loaded(
                        rows,
                        steers[i].entry_id,
                        PendingEntryView::Message { payload: steer[i] },
                    );
                }
                if 0 <= i < follow_ups.len() {
                    assert(payload_of(rows, follow_ups[i].entry_id) == Some(
                        PendingPayloadView::Decoded(
                            PendingEntryView::Message { payload: follow_up[i] },
                        ),
                    ));
                    lemma_stored_is_loaded(
                        rows,
                        follow_ups[i].entry_id,
                        PendingEntryView::Message { payload: follow_up[i] },
                    );
                }
                let n = removed.len() as int;
                assert(writes[n] == (WriteView::SetValue {
                    address: AddressView::OperationState { operation_id },
                    value: DurableValueView::State(next.operation->Some_0.state),
                }));
                assert(writes[n + 1] == records_lane(lane, next));
                if 0 <= i < state.inbox.len() && goes(state.inbox[i]) {
                    assert(state.inbox.contains(state.inbox[i]));
                    lemma_in_filter(state.inbox, goes, state.inbox[i]);
                    let at = removed.index_of(state.inbox[i]);
                    assert(writes[at] == (WriteView::DeleteValue {
                        address: AddressView::PendingEntry { entry_id: state.inbox[i].entry_id },
                    }));
                }
            }
        }
    }
}

proof fn lemma_pending_messages(
    rows: Seq<PendingRowView>,
    ids: Seq<Seq<char>>,
    description: Seq<char>,
)
    ensures
        pending_messages(rows, ids, description) matches Ok(messages) ==> messages.len()
            == ids.len() && forall|i: int|
            0 <= i < ids.len() ==> (#[trigger] messages[i]).0 == ids[i] && payload_of(rows, ids[i])
                == Some(
                PendingPayloadView::Decoded(PendingEntryView::Message { payload: messages[i].1 }),
            ),
    decreases ids.len(),
{
    if ids.len() > 0 {
        lemma_pending_messages(rows, ids.drop_last(), description);
    }
}

/// Reading queued messages gives, for each id in order, the message that is stored.
pub proof fn law_queued_messages_are_those_stored(
    rows: Seq<PendingRowView>,
    ids: Seq<Seq<char>>,
    description: Seq<char>,
    i: int,
)
    requires
        0 <= i < ids.len(),
    ensures
        pending_messages(rows, ids, description) matches Ok(messages) ==> messages.len()
            == ids.len() && messages[i].0 == ids[i] && stored(
            rows,
            ids[i],
            PendingEntryView::Message { payload: messages[i].1 },
        ),
{
    lemma_pending_messages(rows, ids, description);
    if let Ok(messages) = pending_messages(rows, ids, description) {
        assert(messages[i].0 == ids[i]);
        lemma_stored_is_loaded(
            rows,
            ids[i],
            PendingEntryView::Message { payload: messages[i].1 },
        );
    }
}

proof fn lemma_split_order(
    inbox: Seq<InboxItemView>,
    steering_mode: QueueMode,
    follow_up_mode: QueueMode,
    taken: bool,
    n: nat,
    i: int,
    j: int,
    a: int,
    b: int,
)
    requires
        distinct_ids(inbox),
        n <= inbox.len(),
        0 <= i < j < split_inbox(inbox, steering_mode, follow_up_mode, taken, n).len(),
        0 <= a < inbox.len(),
        0 <= b < inbox.len(),
        split_inbox(inbox, steering_mode, follow_up_mode, taken, n)[i] == inbox[a],
        split_inbox(inbox, steering_mode, follow_up_mode, taken, n)[j] == inbox[b],
    ensures
        a < b,
        b < n,
    decreases n,
{
    let m = (n - 1) as nat;
    let rest = split_inbox(inbox, steering_mode, follow_up_mode, taken, m);
    if j < rest.len() {
        lemma_split_order(inbox, steering_mode, follow_up_mode, taken, m, i, j, a, b);
    } else {
        assert(inbox[b] == inbox[m as int]);
        assert(b == m);
        lemma_split_bound(inbox, steering_mode, follow_up_mode, taken, m, i, a);
    }
}

proof fn lemma_split_bound(
    inbox: Seq<InboxItemView>,
    steering_mode: QueueMode,
    follow_up_mode: QueueMode,
    taken: bool,
    n: nat,
    i: int,
    a: int,
)
    requires
        distinct_ids(inbox),
        n <= inbox.len(),
        0 <= i < split_inbox(inbox, steering_mode, follow_up_mode, taken, n).len(),
        0 <= a < inbox.len(),
        split_inbox(inbox, steering_mode, follow_up_mode, taken, n)[i] == inbox[a],
    ensures
        a < n,
    decreases n,
{
    let m = (n - 1) as nat;
    let rest = split_inbox(inbox, steering_mode, follow_up_mode, taken, m);
    if i < rest.len() {
        lemma_split_bound(inbox, steering_mode, follow_up_mode, taken, m, i, a);
    } else {
        assert(inbox[a] == inbox[m as int]);
        assert(a == m);
    }
}

/// What an accepted run leaves in the inbox stays in order, and what it takes from it
/// enters the transcript in order.
pub proof fn law_an_accepted_run_keeps_the_order(
    lane: Seq<char>,
    operation_id: Seq<char>,
    started_at: u64,
    config: crate::types::ConfigView,
    state: LaneRuntimeStateView,
    rows: Seq<PendingRowView>,
    prompt: Seq<crate::drive::checkpoint::ReservedMessageView>,
    i: int,
    j: int,
    a: int,
    b: int,
)
    requires
        distinct_ids(state.inbox),
        0 <= a < state.inbox.len(),
        0 <= b < state.inbox.len(),
    ensures
        run_acceptance(lane, operation_id, started_at, config, state, rows, prompt) matches Ok(
            LaneCommandView::Commit { writes, next, .. },
        ) ==> {
            let count = split_inbox(
                state.inbox,
                config.steering_mode,
                config.follow_up_mode,
                true,
                state.inbox.len(),
            ).len();
            &&& 0 <= i < j < next.inbox.len() && next.inbox[i] == state.inbox[a] && next.inbox[j]
                == state.inbox[b] ==> a < b
            &&& 0 <= i < j < count && (writes[i] matches WriteView::InsertEntry(entry)
                && entry.id() == state.inbox[a].entry_id) && (writes[j]
                matches WriteView::InsertEntry(entry) && entry.id() == state.inbox[b].entry_id)
                ==> a < b
        },
{
    if let Ok(LaneCommandView::Commit { writes, next, .. }) = run_acceptance(
        lane,
        operation_id,
        started_at,
        config,
        state,
        rows,
        prompt,
    ) {
        if 0 <= i < j < next.inbox.len() && next.inbox[i] == state.inbox[a] && next.inbox[j]
            == state.inbox[b] {
            lemma_split_order(
                state.inbox,
                config.steering_mode,
                config.follow_up_mode,
                false,
                state.inbox.len(),
                i,
                j,
                a,
                b,
            );
        }
        let selected = split_inbox(
            state.inbox,
            config.steering_mode,
            config.follow_up_mode,
            true,
            state.inbox.len(),
        );
        crate::laws::acceptance::lemma_captured(rows, selected);
        if 0 <= i < j < selected.len() && writes[i]->InsertEntry_0.id() == state.inbox[a].entry_id
            && writes[j]->InsertEntry_0.id() == state.inbox[b].entry_id {
            let c = lemma_split_origin(
                state.inbox,
                config.steering_mode,
                config.follow_up_mode,
                true,
                state.inbox.len(),
                i,
            );
            let d = lemma_split_origin(
                state.inbox,
                config.steering_mode,
                config.follow_up_mode,
                true,
                state.inbox.len(),
                j,
            );
            assert(writes[i]->InsertEntry_0.id() == selected[i].entry_id);
            assert(writes[j]->InsertEntry_0.id() == selected[j].entry_id);
            assert(state.inbox[c].entry_id == state.inbox[a].entry_id);
            assert(state.inbox[d].entry_id == state.inbox[b].entry_id);
            assert(c == a && d == b);
            lemma_split_order(
                state.inbox,
                config.steering_mode,
                config.follow_up_mode,
                true,
                state.inbox.len(),
                i,
                j,
                a,
                b,
            );
        }
    }
}

proof fn lemma_split_origin(
    inbox: Seq<InboxItemView>,
    steering_mode: QueueMode,
    follow_up_mode: QueueMode,
    taken: bool,
    n: nat,
    i: int,
) -> (c: int)
    requires
        n <= inbox.len(),
        0 <= i < split_inbox(inbox, steering_mode, follow_up_mode, taken, n).len(),
    ensures
        0 <= c < n,
        split_inbox(inbox, steering_mode, follow_up_mode, taken, n)[i] == inbox[c],
    decreases n,
{
    let m = (n - 1) as nat;
    let rest = split_inbox(inbox, steering_mode, follow_up_mode, taken, m);
    if i < rest.len() {
        lemma_split_origin(inbox, steering_mode, follow_up_mode, taken, m, i)
    } else {
        m as int
    }
}

} // verus!
