//! The queues of a lane: adding to them, taking back, and writing when idle.

use crate::command::{LaneCommand, LaneCommandView};
use crate::drive::boundary::{
    delete_payloads, distinct_ids, insert_entries, insertions, lemma_filter_agrees, lemma_in_filter,
    lemma_left_out, lemma_same_id, payload_deletions, placed_entry, tip_write, write_tip,
};
use crate::durable::{
    committed, holds, in_step, lane_record, lemma_committed_push, lemma_spared, spares,
};
use crate::inbox::{
    about_item, find_payload, ids_of, item_ids, item_message, items_of_kind, items_without,
    lane_queues, lemma_filter_step, of_kind, payload_of, read_lane_queues, without,
};
use crate::json::Json;
use crate::lane::accept::{
    chain_new_entries, chained, invalid_message, pending_entry_write, refuse_message, Answer,
    AnswerView,
};
use crate::lane::settle::{
    durable_lane_state, keeps_step, lane_state_write, operation_state_write, with_cancel_requested,
    write_lane_state, write_operation_state,
};
use crate::model::event::{
    HarnessEvent, HarnessEventView, LaneQueuedItem, LaneQueuedItemView, PlannedEvent,
    PlannedEventView,
};
use crate::model::message::{AgentMessage, AgentMessageView, Usage};
use crate::model::session::{
    Control, DurableLaneState, InboxItem, InboxItemKind, InboxItemView, Operation, OperationView,
    PendingEntry, PendingEntryView,
};
use crate::model::storage::{
    Address, AddressView, DurableValue, DurableValueView, NewEntry, NewEntryView, UsageRow,
    UsageRowView, Write, WriteView,
};
use crate::state::is_cancelled;
use crate::text::{debug_text, join, quoted, text_in};
use crate::transcript::{append_all, is_pending, is_pending_assistant, lemma_prefix_push};
use crate::types::{
    AbortRequest, AbortRequestView, CancelQueuedKind, HarnessError, HarnessErrorView,
    LaneRuntimeState, LaneRuntimeStateView, PendingPayload, PendingPayloadView, PendingRow,
    PendingRowView, QueueEntry, QueueEntryView, RecordUsageOutcome, RecordUsageOutcomeView,
};
use vstd::prelude::*;

verus! {

fn record_of(state: &LaneRuntimeState, inbox: Vec<InboxItem>) -> (r: DurableLaneState)
    ensures
        r.deep_view() == lane_record(
            LaneRuntimeStateView { inbox: inbox.deep_view(), ..state.deep_view() },
        ),
{
    durable_lane_state(
        match &state.operation {
            Some(operation) => Some(operation.meta.operation_id.clone()),
            None => None,
        },
        inbox,
        state.last_operation_id.clone(),
    )
}

/// A lane with another inbox.
pub open spec fn with_inbox(
    state: LaneRuntimeStateView,
    inbox: Seq<InboxItemView>,
) -> LaneRuntimeStateView {
    LaneRuntimeStateView { inbox, ..state }
}

fn put_inbox(state: LaneRuntimeState, inbox: Vec<InboxItem>) -> (r: LaneRuntimeState)
    ensures
        r.deep_view() == with_inbox(state.deep_view(), inbox.deep_view()),
{
    LaneRuntimeState {
        tip_id: state.tip_id,
        configuration: state.configuration,
        inbox,
        last_operation_id: state.last_operation_id,
        operation: state.operation,
    }
}

/// The event that shows new queues.
pub open spec fn queue_update(
    lane: Seq<char>,
    queues: Seq<LaneQueuedItemView>,
) -> PlannedEventView {
    PlannedEventView::Ready(HarnessEventView::QueueUpdate { lane, queues, recovery: None })
}

fn plan_queue_update(lane_name: &String, queues: Vec<LaneQueuedItem>) -> (r: PlannedEvent)
    ensures
        r.deep_view() == queue_update(lane_name@, queues.deep_view()),
{
    PlannedEvent::Ready(
        HarnessEvent::QueueUpdate { lane: lane_name.clone(), queues, recovery: None },
    )
}

/// The write that stores the payload of a queued entry.
pub open spec fn payload_write(entry_id: Seq<char>, pending: PendingEntryView) -> WriteView {
    WriteView::SetValue {
        address: AddressView::PendingEntry { entry_id },
        value: DurableValueView::Pending(pending),
    }
}

/// An inbox with one more item.
pub open spec fn queued(
    inbox: Seq<InboxItemView>,
    entry_id: Seq<char>,
    kind: InboxItemKind,
) -> Seq<InboxItemView> {
    inbox.push(InboxItemView { entry_id, kind })
}

/// The commit that queues an entry: its payload is stored and the lane recorded
/// with it. The rows are the payloads of the whole inbox, the new one included.
pub open spec fn queue_command<T>(
    lane: Seq<char>,
    state: LaneRuntimeStateView,
    rows: Seq<PendingRowView>,
    entry_id: Seq<char>,
    kind: InboxItemKind,
    pending: PendingEntryView,
    result: T,
) -> Result<LaneCommandView<T>, Seq<char>> {
    let inbox = queued(state.inbox, entry_id, kind);
    match lane_queues(rows, inbox) {
        Err(message) => Err(message),
        Ok(queues) => Ok(
            LaneCommandView::Commit {
                writes: seq![
                    payload_write(entry_id, pending),
                    lane_state_write(lane, lane_record(with_inbox(state, inbox))),
                ],
                next: with_inbox(state, inbox),
                result,
                events: seq![queue_update(lane, queues)],
            },
        ),
    }
}

fn queue_entry<T: DeepView>(
    lane_name: &String,
    state: LaneRuntimeState,
    rows: &Vec<PendingRow>,
    entry_id: &String,
    kind: InboxItemKind,
    pending: PendingEntry,
    result: T,
) -> (r: Result<LaneCommand<T>, String>)
    ensures
        match queue_command(
            lane_name@,
            state.deep_view(),
            rows.deep_view(),
            entry_id@,
            kind,
            pending.deep_view(),
            result.deep_view(),
        ) {
            Ok(command) => r is Ok && r->Ok_0.deep_view() == command,
            Err(message) => r is Err && r->Err_0@ == message,
        },
{
    let ghost state_view = state.deep_view();
    let mut inbox = state.inbox.clone();
    let item = InboxItem { entry_id: entry_id.clone(), kind };
    inbox.push(item);
    assert(inbox.deep_view() =~= queued(state_view.inbox, entry_id@, kind));
    match read_lane_queues(rows, &inbox) {
        Err(message) => Err(message),
        Ok(queues) => {
            let record = record_of(&state, inbox.clone());
            let ghost pending_view = pending.deep_view();
            let ghost record_view = record.deep_view();
            let ghost queues_view = queues.deep_view();
            let writes = vec![
                Write::SetValue {
                    address: Address::PendingEntry { entry_id: entry_id.clone() },
                    value: DurableValue::Pending(pending),
                },
                write_lane_state(lane_name, record),
            ];
            assert(writes.deep_view() =~= seq![
                payload_write(entry_id@, pending_view),
                lane_state_write(lane_name@, record_view),
            ]);
            let events = vec![plan_queue_update(lane_name, queues)];
            assert(events.deep_view() =~= seq![queue_update(lane_name@, queues_view)]);
            Ok(LaneCommand::Commit { writes, next: put_inbox(state, inbox), result, events })
        },
    }
}

/// Queues a message.
pub fn enqueue(
    lane_name: &String,
    state: LaneRuntimeState,
    rows: &Vec<PendingRow>,
    entry_id: &String,
    kind: InboxItemKind,
    message: AgentMessage,
) -> (r: Result<LaneCommand<QueueEntry>, String>)
    ensures
        match queue_command(
            lane_name@,
            state.deep_view(),
            rows.deep_view(),
            entry_id@,
            kind,
            PendingEntryView::Message { payload: message.deep_view() },
            QueueEntryView { entry_id: entry_id@ },
        ) {
            Ok(command) => r is Ok && r->Ok_0.deep_view() == command,
            Err(message) => r is Err && r->Err_0@ == message,
        },
{
    queue_entry(
        lane_name,
        state,
        rows,
        entry_id,
        kind,
        PendingEntry::Message { payload: message },
        QueueEntry { entry_id: entry_id.clone() },
    )
}

/// The message that queued input makes. Input without text and images is
/// refused.
pub fn queued_message(lane_name: &String, text: &String, images: &Vec<Json>, timestamp: u64) -> (r:
    Result<AgentMessage, HarnessError>)
    ensures
        r is Err <==> text@.len() == 0 && images.len() == 0,
        r is Err ==> r->Err_0.deep_view() == invalid_message(
            lane_name@,
            "empty"@,
            "Queued input must contain text or an image"@,
        ),
        r is Ok ==> r->Ok_0.deep_view() == crate::lane::accept::user_message(
            crate::lane::accept::user_blocks(text@, images.deep_view()),
            timestamp,
        ),
{
    match crate::lane::accept::input_message(text, images, timestamp) {
        Some(message) => Ok(message),
        None => Err(
            refuse_message(lane_name, "empty", "Queued input must contain text or an image"),
        ),
    }
}

/// Refuses to append a response that is still streaming.
pub fn check_append(lane_name: &String, pending: &PendingEntry) -> (r: Result<(), HarnessError>)
    ensures
        r is Err <==> (pending.deep_view() matches PendingEntryView::Message { payload }
            && is_pending(payload)),
        r is Err ==> r->Err_0.deep_view() == invalid_message(
            lane_name@,
            "pending_assistant"@,
            "Cannot append a pending assistant message"@,
        ),
{
    if let PendingEntry::Message { payload } = pending {
        if is_pending_assistant(payload) {
            return Err(
                refuse_message(
                    lane_name,
                    "pending_assistant",
                    "Cannot append a pending assistant message",
                ),
            );
        }
    }
    Ok(())
}

/// The entries of queued writes, or why the first unusable one cannot be
/// appended.
pub open spec fn queued_writes(rows: Seq<PendingRowView>, items: Seq<InboxItemView>) -> Result<
    Seq<NewEntryView>,
    Seq<char>,
>
    decreases items.len(),
{
    if items.len() == 0 {
        Ok(Seq::empty())
    } else {
        let id = items.last().entry_id;
        match queued_writes(rows, items.drop_last()) {
            Err(message) => Err(message),
            Ok(entries) => match payload_of(rows, id) {
                None => Err("Pending write "@ + id + " is missing its payload"@),
                Some(PendingPayloadView::Undecodable(reason)) => Err(reason),
                Some(PendingPayloadView::Decoded(entry)) => Ok(
                    entries.push(placed_entry(id, None, entry)),
                ),
            },
        }
    }
}

proof fn lemma_writes_fail(rows: Seq<PendingRowView>, items: Seq<InboxItemView>, n: int)
    requires
        0 <= n <= items.len(),
        queued_writes(rows, items.take(n)) is Err,
    ensures
        queued_writes(rows, items) == queued_writes(rows, items.take(n)),
    decreases items.len(),
{
    if n < items.len() {
        assert(items.drop_last().take(n) =~= items.take(n));
        lemma_writes_fail(rows, items.drop_last(), n);
    } else {
        assert(items.take(n) =~= items);
    }
}

fn load_writes(rows: &Vec<PendingRow>, items: &Vec<InboxItem>) -> (r: Result<Vec<NewEntry>, String>)
    ensures
        match queued_writes(rows.deep_view(), items.deep_view()) {
            Ok(entries) => r is Ok && r->Ok_0.deep_view() == entries,
            Err(message) => r is Err && r->Err_0@ == message,
        },
{
    let mut entries: Vec<NewEntry> = Vec::new();
    let mut i: usize = 0;
    assert(entries.deep_view() =~= Seq::empty());
    while i < items.len()
        invariant
            i <= items.len(),
            queued_writes(rows.deep_view(), items.deep_view().take(i as int)) == Ok::<
                Seq<NewEntryView>,
                Seq<char>,
            >(entries.deep_view()),
        decreases items.len() - i,
    {
        let ghost before = entries.deep_view();
        proof {
            lemma_prefix_push(*items, i as int);
        }
        match find_payload(rows, &items[i].entry_id) {
            Some(PendingPayload::Decoded(pending)) => {
                let entry = pending_entry_write(items[i].entry_id.clone(), pending.clone());
                entries.push(entry);
                assert(entries.deep_view() =~= before.push(entry.deep_view()));
            },
            Some(PendingPayload::Undecodable(reason)) => {
                proof {
                    lemma_writes_fail(rows.deep_view(), items.deep_view(), i as int + 1);
                }
                return Err(reason.clone());
            },
            None => {
                proof {
                    lemma_writes_fail(rows.deep_view(), items.deep_view(), i as int + 1);
                }
                let named = join("Pending write ".to_string(), items[i].entry_id.as_str());
                return Err(join(named, " is missing its payload"));
            },
        }
        i += 1;
    }
    assert(items.deep_view().take(i as int) =~= items.deep_view());
    Ok(entries)
}

/// The items of an inbox that are not writes.
pub open spec fn other_items(inbox: Seq<InboxItemView>) -> Seq<InboxItemView> {
    inbox.filter(|item: InboxItemView| item.kind != InboxItemKind::Write)
}

fn items_but_writes(inbox: &Vec<InboxItem>) -> (r: Vec<InboxItem>)
    ensures
        r.deep_view() == other_items(inbox.deep_view()),
{
    let ghost keep = |item: InboxItemView| item.kind != InboxItemKind::Write;
    let mut items: Vec<InboxItem> = Vec::new();
    let mut i: usize = 0;
    assert(items.deep_view() =~= inbox.deep_view().take(0).filter(keep)) by {
        reveal(Seq::filter);
    }
    while i < inbox.len()
        invariant
            i <= inbox.len(),
            keep == (|item: InboxItemView| item.kind != InboxItemKind::Write),
            items.deep_view() == inbox.deep_view().take(i as int).filter(keep),
        decreases inbox.len() - i,
    {
        let ghost before = items.deep_view();
        proof {
            lemma_filter_step(inbox.deep_view(), i as int, keep);
        }
        if inbox[i].kind != InboxItemKind::Write {
            items.push(inbox[i].clone());
            assert(items.deep_view() =~= before.push(inbox[i as int].deep_view()));
        }
        i += 1;
    }
    assert(inbox.deep_view().take(i as int) =~= inbox.deep_view());
    items
}

/// The planned events of entries that are appended outside any run.
pub open spec fn appended_events(entries: Seq<NewEntryView>, lane: Seq<char>) -> Seq<
    PlannedEventView,
> {
    Seq::new(
        entries.len(),
        |i: int|
            PlannedEventView::Lifecycle {
                entry: entries[i],
                write_index: i as usize,
                lane,
                run_id: None,
            },
    )
}

fn plan_appended_events(entries: &Vec<NewEntry>, lane_name: &String) -> (r: Vec<PlannedEvent>)
    ensures
        r.deep_view() == appended_events(entries.deep_view(), lane_name@),
{
    let ghost expected = appended_events(entries.deep_view(), lane_name@);
    let mut events: Vec<PlannedEvent> = Vec::new();
    let mut i: usize = 0;
    while i < entries.len()
        invariant
            i <= entries.len(),
            events.len() == i,
            expected == appended_events(entries.deep_view(), lane_name@),
            forall|k: int| 0 <= k < i ==> #[trigger] events.deep_view()[k] == expected[k],
        decreases entries.len() - i,
    {
        let ghost before = events.deep_view();
        let event = PlannedEvent::Lifecycle {
            entry: entries[i].clone(),
            write_index: i,
            lane: lane_name.clone(),
            run_id: None,
        };
        events.push(event);
        assert(events.deep_view() =~= before.push(event.deep_view()));
        i += 1;
    }
    assert(events.deep_view() =~= expected);
    events
}

/// The commit that appends an entry. On an idle lane it enters the transcript
/// behind the writes that were queued; otherwise it is queued itself.
pub open spec fn append_command(
    lane: Seq<char>,
    state: LaneRuntimeStateView,
    rows: Seq<PendingRowView>,
    id: Seq<char>,
    pending: PendingEntryView,
) -> Result<LaneCommandView<Seq<char>>, Seq<char>> {
    if state.operation is Some {
        queue_command(lane, state, rows, id, InboxItemKind::Write, pending, id)
    } else {
        let items = of_kind(state.inbox, InboxItemKind::Write);
        match queued_writes(rows, items) {
            Err(message) => Err(message),
            Ok(queued) => {
                let entries = chained(state.tip_id, queued.push(placed_entry(id, None, pending)));
                let next = LaneRuntimeStateView {
                    tip_id: Some(id),
                    inbox: other_items(state.inbox),
                    ..state
                };
                Ok(
                    LaneCommandView::Commit {
                        writes: insertions(entries) + payload_deletions(items) + seq![
                            tip_write(lane, Some(id)),
                            lane_state_write(lane, lane_record(next)),
                        ],
                        next,
                        result: id,
                        events: appended_events(entries, lane),
                    },
                )
            },
        }
    }
}

/// Appends an entry to a lane.
pub fn append(
    lane_name: &String,
    state: LaneRuntimeState,
    rows: &Vec<PendingRow>,
    id: &String,
    pending: PendingEntry,
) -> (r: Result<LaneCommand<String>, String>)
    ensures
        match append_command(
            lane_name@,
            state.deep_view(),
            rows.deep_view(),
            id@,
            pending.deep_view(),
        ) {
            Ok(command) => r is Ok && r->Ok_0.deep_view() == command,
            Err(message) => r is Err && r->Err_0@ == message,
        },
{
    if state.operation.is_some() {
        return queue_entry(
            lane_name,
            state,
            rows,
            id,
            InboxItemKind::Write,
            pending,
            id.clone(),
        );
    }
    let items = items_of_kind(&state.inbox, InboxItemKind::Write);
    let mut entries = match load_writes(rows, &items) {
        Ok(entries) => entries,
        Err(message) => {
            return Err(message);
        },
    };
    let ghost queued = entries.deep_view();
    let entry = pending_entry_write(id.clone(), pending);
    entries.push(entry);
    assert(entries.deep_view() =~= queued.push(entry.deep_view()));
    let chain = chain_new_entries(state.tip_id.clone(), entries);
    let inbox = items_but_writes(&state.inbox);
    let mut writes = insert_entries(&chain);
    append_all(&mut writes, delete_payloads(&items));
    let ghost moved = writes.deep_view();
    let ghost last = state.last_operation_id.deep_view();
    let record = durable_lane_state(None, inbox.clone(), state.last_operation_id.clone());
    let ghost record_view = record.deep_view();
    writes.push(write_tip(lane_name, Some(id.clone())));
    writes.push(write_lane_state(lane_name, record));
    assert(writes.deep_view() =~= moved + seq![
        tip_write(lane_name@, Some(id@)),
        lane_state_write(lane_name@, record_view),
    ]);
    let events = plan_appended_events(&chain, lane_name);
    Ok(
        LaneCommand::Commit {
            writes,
            next: LaneRuntimeState {
                tip_id: Some(id.clone()),
                configuration: state.configuration,
                inbox,
                last_operation_id: state.last_operation_id,
                operation: state.operation,
            },
            result: id.clone(),
            events,
        },
    )
}

/// The commit that takes a queued entry back.
pub open spec fn cancel_command(
    lane: Seq<char>,
    state: LaneRuntimeStateView,
    rows: Seq<PendingRowView>,
    entry_id: Seq<char>,
    consumed: bool,
) -> Result<LaneCommandView<CancelQueuedKind>, Seq<char>> {
    if !item_ids(state.inbox).contains(entry_id) {
        Ok(
            LaneCommandView::Return {
                result: if consumed {
                    CancelQueuedKind::AlreadyConsumed
                } else {
                    CancelQueuedKind::NotFound
                },
            },
        )
    } else {
        let inbox = without(state.inbox, seq![entry_id]);
        match lane_queues(rows, inbox) {
            Err(message) => Err(message),
            Ok(queues) => Ok(
                LaneCommandView::Commit {
                    writes: seq![
                        WriteView::DeleteValue { address: AddressView::PendingEntry { entry_id } },
                        lane_state_write(lane, lane_record(with_inbox(state, inbox))),
                    ],
                    next: with_inbox(state, inbox),
                    result: CancelQueuedKind::Cancelled,
                    events: seq![queue_update(lane, queues)],
                },
            ),
        }
    }
}

/// Takes a queued entry back. `consumed` tells whether the transcript has an
/// entry of that id.
pub fn cancel_queued(
    lane_name: &String,
    state: LaneRuntimeState,
    rows: &Vec<PendingRow>,
    entry_id: &String,
    consumed: bool,
) -> (r: Result<LaneCommand<CancelQueuedKind>, String>)
    ensures
        match cancel_command(
            lane_name@,
            state.deep_view(),
            rows.deep_view(),
            entry_id@,
            consumed,
        ) {
            Ok(command) => r is Ok && r->Ok_0.deep_view() == command,
            Err(message) => r is Err && r->Err_0@ == message,
        },
{
    let ids = ids_of(&state.inbox);
    if !text_in(&ids, entry_id) {
        return Ok(
            LaneCommand::Return {
                result: if consumed {
                    CancelQueuedKind::AlreadyConsumed
                } else {
                    CancelQueuedKind::NotFound
                },
            },
        );
    }
    let cancelled = vec![entry_id.clone()];
    assert(cancelled.deep_view() =~= seq![entry_id@]);
    let inbox = items_without(&state.inbox, &cancelled);
    match read_lane_queues(rows, &inbox) {
        Err(message) => Err(message),
        Ok(queues) => {
            let record = record_of(&state, inbox.clone());
            let ghost record_view = record.deep_view();
            let ghost queues_view = queues.deep_view();
            let writes = vec![
                Write::DeleteValue {
                    address: Address::PendingEntry { entry_id: entry_id.clone() },
                },
                write_lane_state(lane_name, record),
            ];
            assert(writes.deep_view() =~= seq![
                WriteView::DeleteValue { address: AddressView::PendingEntry { entry_id: entry_id@ } },
                lane_state_write(lane_name@, record_view),
            ]);
            let events = vec![plan_queue_update(lane_name, queues)];
            assert(events.deep_view() =~= seq![queue_update(lane_name@, queues_view)]);
            Ok(
                LaneCommand::Commit {
                    writes,
                    next: put_inbox(state, inbox),
                    result: CancelQueuedKind::Cancelled,
                    events,
                },
            )
        },
    }
}

/// Records usage.
pub fn record_usage(
    state: LaneRuntimeState,
    usage_id: &String,
    usage: Usage,
    entry_id: Option<String>,
    details: Option<Json>,
) -> (r: LaneCommand<RecordUsageOutcome>)
    ensures
        r.deep_view() == (LaneCommandView::Commit {
            writes: seq![
                WriteView::InsertUsage(
                    UsageRowView {
                        id: usage_id@,
                        seq: 0,
                        usage: usage.deep_view(),
                        entry_id: entry_id.deep_view(),
                        adjustment: false,
                        details: details.deep_view(),
                    },
                ),
            ],
            next: state.deep_view(),
            result: RecordUsageOutcomeView { usage_id: usage_id@ },
            events: Seq::empty(),
        }),
{
    let write = Write::InsertUsage(
        UsageRow {
            id: usage_id.clone(),
            seq: 0,
            usage,
            entry_id,
            adjustment: false,
            details,
        },
    );
    let ghost write_view = write.deep_view();
    let writes = vec![write];
    assert(writes.deep_view() =~= seq![write_view]);
    let events: Vec<PlannedEvent> = Vec::new();
    assert(events.deep_view() =~= Seq::empty());
    LaneCommand::Commit {
        writes,
        next: state,
        result: RecordUsageOutcome { usage_id: usage_id.clone() },
        events,
    }
}

/// The items that a request to stop takes from the inbox.
pub open spec fn abandoned(inbox: Seq<InboxItemView>) -> Seq<InboxItemView> {
    inbox.filter(
        |item: InboxItemView|
            item.kind == InboxItemKind::Steer || item.kind == InboxItemKind::FollowUp,
    )
}

fn abandoned_items(inbox: &Vec<InboxItem>) -> (r: Vec<InboxItem>)
    ensures
        r.deep_view() == abandoned(inbox.deep_view()),
{
    let ghost keep = |item: InboxItemView|
        item.kind == InboxItemKind::Steer || item.kind == InboxItemKind::FollowUp;
    let mut items: Vec<InboxItem> = Vec::new();
    let mut i: usize = 0;
    assert(items.deep_view() =~= inbox.deep_view().take(0).filter(keep)) by {
        reveal(Seq::filter);
    }
    while i < inbox.len()
        invariant
            i <= inbox.len(),
            keep == (|item: InboxItemView|
                item.kind == InboxItemKind::Steer || item.kind == InboxItemKind::FollowUp),
            items.deep_view() == inbox.deep_view().take(i as int).filter(keep),
        decreases inbox.len() - i,
    {
        let ghost before = items.deep_view();
        proof {
            lemma_filter_step(inbox.deep_view(), i as int, keep);
        }
        if inbox[i].kind == InboxItemKind::Steer || inbox[i].kind == InboxItemKind::FollowUp {
            items.push(inbox[i].clone());
            assert(items.deep_view() =~= before.push(inbox[i as int].deep_view()));
        }
        i += 1;
    }
    assert(inbox.deep_view().take(i as int) =~= inbox.deep_view());
    items
}

/// The messages of abandoned items of a kind, or why the first item without a
/// payload cannot be given back. Payloads that are no messages are passed over.
pub open spec fn abandoned_messages(
    rows: Seq<PendingRowView>,
    items: Seq<InboxItemView>,
    steer: bool,
) -> Result<Seq<AgentMessageView>, Seq<char>>
    decreases items.len(),
{
    if items.len() == 0 {
        Ok(Seq::empty())
    } else {
        let item = items.last();
        match abandoned_messages(rows, items.drop_last(), steer) {
            Err(message) => Err(message),
            Ok(messages) => match payload_of(rows, item.entry_id) {
                None => Err(about_item("Pending "@, item, " is missing its message"@)),
                Some(PendingPayloadView::Undecodable(reason)) => Err(reason),
                Some(PendingPayloadView::Decoded(PendingEntryView::Message { payload })) => {
                    if (item.kind == InboxItemKind::Steer) == steer {
                        Ok(messages.push(payload))
                    } else {
                        Ok(messages)
                    }
                },
                Some(_) => Ok(messages),
            },
        }
    }
}

proof fn lemma_abandoned_fail(
    rows: Seq<PendingRowView>,
    items: Seq<InboxItemView>,
    steer: bool,
    n: int,
)
    requires
        0 <= n <= items.len(),
        abandoned_messages(rows, items.take(n), steer) is Err,
    ensures
        abandoned_messages(rows, items, steer) == abandoned_messages(rows, items.take(n), steer),
    decreases items.len(),
{
    if n < items.len() {
        assert(items.drop_last().take(n) =~= items.take(n));
        lemma_abandoned_fail(rows, items.drop_last(), steer, n);
    } else {
        assert(items.take(n) =~= items);
    }
}

fn load_abandoned(rows: &Vec<PendingRow>, items: &Vec<InboxItem>, steer: bool) -> (r: Result<
    Vec<AgentMessage>,
    String,
>)
    ensures
        match abandoned_messages(rows.deep_view(), items.deep_view(), steer) {
            Ok(messages) => r is Ok && r->Ok_0.deep_view() == messages,
            Err(message) => r is Err && r->Err_0@ == message,
        },
{
    let mut messages: Vec<AgentMessage> = Vec::new();
    let mut i: usize = 0;
    assert(messages.deep_view() =~= Seq::empty());
    while i < items.len()
        invariant
            i <= items.len(),
            abandoned_messages(rows.deep_view(), items.deep_view().take(i as int), steer) == Ok::<
                Seq<AgentMessageView>,
                Seq<char>,
            >(messages.deep_view()),
        decreases items.len() - i,
    {
        let ghost before = messages.deep_view();
        proof {
            lemma_prefix_push(*items, i as int);
        }
        match find_payload(rows, &items[i].entry_id) {
            None => {
                proof {
                    lemma_abandoned_fail(
                        rows.deep_view(),
                        items.deep_view(),
                        steer,
                        i as int + 1,
                    );
                }
                return Err(item_message("Pending ", &items[i], " is missing its message"));
            },
            Some(PendingPayload::Undecodable(reason)) => {
                proof {
                    lemma_abandoned_fail(
                        rows.deep_view(),
                        items.deep_view(),
                        steer,
                        i as int + 1,
                    );
                }
                return Err(reason.clone());
            },
            Some(PendingPayload::Decoded(PendingEntry::Message { payload })) => {
                let is_steer = items[i].kind == InboxItemKind::Steer;
                if is_steer == steer {
                    messages.push(payload.clone());
                    assert(messages.deep_view() =~= before.push(payload.deep_view()));
                }
            },
            Some(_) => {},
        }
        i += 1;
    }
    assert(items.deep_view().take(i as int) =~= items.deep_view());
    Ok(messages)
}

/// The refusal of a request for an operation that does not own its lane.
pub open spec fn mismatch_of(
    lane: Seq<char>,
    expected: Seq<char>,
    current: Option<Seq<char>>,
    last: Option<Seq<char>>,
) -> HarnessErrorView {
    HarnessErrorView::OperationMismatch {
        lane,
        expected,
        current,
        last,
        message: "Operation "@ + expected + " does not own lane "@ + debug_text(lane),
    }
}

/// Refuses a request for an operation that does not own its lane.
pub fn mismatch(
    lane_name: &String,
    expected: &String,
    current: Option<String>,
    last: Option<String>,
) -> (r: HarnessError)
    ensures
        r.deep_view() == mismatch_of(
            lane_name@,
            expected@,
            current.deep_view(),
            last.deep_view(),
        ),
{
    let named = join(join("Operation ".to_string(), expected.as_str()), " does not own lane ");
    HarnessError::OperationMismatch {
        lane: lane_name.clone(),
        expected: expected.clone(),
        current,
        last,
        message: join(named, quoted(lane_name.as_str()).as_str()),
    }
}

/// The commit that asks an operation to stop.
///
/// Its leaf is marked, and what was queued to steer or follow it is given back.
/// An operation is asked once: later requests change nothing.
pub open spec fn abort_command(
    lane: Seq<char>,
    operation_id: Seq<char>,
    state: LaneRuntimeStateView,
    rows: Seq<PendingRowView>,
    requested_at: u64,
) -> Result<LaneCommandView<AnswerView<AbortRequestView>>, Seq<char>> {
    match state.operation {
        None => Ok(
            LaneCommandView::Return {
                result: AnswerView::Refused {
                    error: mismatch_of(lane, operation_id, None, state.last_operation_id),
                },
            },
        ),
        Some(operation) => if operation.meta.operation_id != operation_id {
            Ok(
                LaneCommandView::Return {
                    result: AnswerView::Refused {
                        error: mismatch_of(
                            lane,
                            operation_id,
                            Some(operation.meta.operation_id),
                            state.last_operation_id,
                        ),
                    },
                },
            )
        } else if operation.state.cancelled() {
            Ok(
                LaneCommandView::Return {
                    result: AnswerView::Granted {
                        value: AbortRequestView {
                            operation_id,
                            newly_requested: false,
                            steer: Seq::empty(),
                            follow_up: Seq::empty(),
                        },
                    },
                },
            )
        } else {
            let removed = abandoned(state.inbox);
            let inbox = without(state.inbox, item_ids(removed));
            match (
                abandoned_messages(rows, removed, true),
                abandoned_messages(rows, removed, false),
                lane_queues(rows, inbox),
            ) {
                (Err(message), _, _) => Err(message),
                (_, Err(message), _) => Err(message),
                (_, _, Err(message)) => Err(message),
                (Ok(steer), Ok(follow_up), Ok(queues)) => Ok(
                    aborted_lane(
                        lane,
                        operation,
                        state,
                        removed,
                        inbox,
                        steer,
                        follow_up,
                        queues,
                        requested_at,
                    ),
                ),
            }
        },
    }
}

/// The commit of a request to stop.
pub open spec fn aborted_lane(
    lane: Seq<char>,
    operation: OperationView,
    state: LaneRuntimeStateView,
    removed: Seq<InboxItemView>,
    inbox: Seq<InboxItemView>,
    steer: Seq<AgentMessageView>,
    follow_up: Seq<AgentMessageView>,
    queues: Seq<LaneQueuedItemView>,
    requested_at: u64,
) -> LaneCommandView<AnswerView<AbortRequestView>> {
    let operation_id = operation.meta.operation_id;
    let leaf = operation.state.with_control(Control::CancelRequested { requested_at });
    let next = LaneRuntimeStateView {
        inbox,
        operation: Some(OperationView { meta: operation.meta, state: leaf }),
        ..state
    };
    LaneCommandView::Commit {
        writes: payload_deletions(removed) + seq![
            operation_state_write(operation_id, leaf),
            lane_state_write(lane, lane_record(next)),
        ],
        next,
        result: AnswerView::Granted {
            value: AbortRequestView { operation_id, newly_requested: true, steer, follow_up },
        },
        events: seq![
            PlannedEventView::Ready(
                HarnessEventView::OperationAbort {
                    lane,
                    operation_id,
                    steer,
                    follow_up,
                    recovery: None,
                },
            ),
        ] + if removed.len() == 0 {
            Seq::empty()
        } else {
            seq![queue_update(lane, queues)]
        },
    }
}

fn commit_abort(
    lane_name: &String,
    operation: Operation,
    state: LaneRuntimeState,
    removed: Vec<InboxItem>,
    inbox: Vec<InboxItem>,
    steer: Vec<AgentMessage>,
    follow_up: Vec<AgentMessage>,
    queues: Vec<LaneQueuedItem>,
    requested_at: u64,
) -> (r: LaneCommand<Answer<AbortRequest>>)
    ensures
        r.deep_view() == aborted_lane(
            lane_name@,
            operation.deep_view(),
            state.deep_view(),
            removed.deep_view(),
            inbox.deep_view(),
            steer.deep_view(),
            follow_up.deep_view(),
            queues.deep_view(),
            requested_at,
        ),
{
    let ghost removed_view = removed.deep_view();
    let ghost queues_view = queues.deep_view();
    let operation_id = operation.meta.operation_id.clone();
    let leaf = with_cancel_requested(operation.state, requested_at);
    let record = durable_lane_state(
        Some(operation_id.clone()),
        inbox.clone(),
        state.last_operation_id.clone(),
    );
    let ghost record_view = record.deep_view();
    let ghost leaf_view = leaf.deep_view();
    let mut writes = delete_payloads(&removed);
    let ghost dropped = writes.deep_view();
    writes.push(write_operation_state(&operation_id, leaf.clone()));
    writes.push(write_lane_state(lane_name, record));
    assert(writes.deep_view() =~= dropped + seq![
        operation_state_write(operation_id@, leaf_view),
        lane_state_write(lane_name@, record_view),
    ]);
    let abort = PlannedEvent::Ready(
        HarnessEvent::OperationAbort {
            lane: lane_name.clone(),
            operation_id: operation_id.clone(),
            steer: steer.clone(),
            follow_up: follow_up.clone(),
            recovery: None,
        },
    );
    let ghost abort_view = abort.deep_view();
    let mut events = vec![abort];
    if removed.len() > 0 {
        events.push(plan_queue_update(lane_name, queues));
    }
    assert(events.deep_view() =~= seq![abort_view] + if removed_view.len() == 0 {
        Seq::empty()
    } else {
        seq![queue_update(lane_name@, queues_view)]
    });
    LaneCommand::Commit {
        writes,
        next: LaneRuntimeState {
            tip_id: state.tip_id,
            configuration: state.configuration,
            inbox,
            last_operation_id: state.last_operation_id,
            operation: Some(Operation { meta: operation.meta, state: leaf }),
        },
        result: Answer::Granted {
            value: AbortRequest { operation_id, newly_requested: true, steer, follow_up },
        },
        events,
    }
}

/// Asks an operation to stop.
pub fn request_abort(
    lane_name: &String,
    operation_id: &String,
    state: LaneRuntimeState,
    rows: &Vec<PendingRow>,
    requested_at: u64,
) -> (r: Result<LaneCommand<Answer<AbortRequest>>, String>)
    ensures
        match abort_command(
            lane_name@,
            operation_id@,
            state.deep_view(),
            rows.deep_view(),
            requested_at,
        ) {
            Ok(command) => r is Ok && r->Ok_0.deep_view() == command,
            Err(message) => r is Err && r->Err_0@ == message,
        },
{
    let operation = match &state.operation {
        None => {
            return Ok(
                LaneCommand::Return {
                    result: Answer::Refused {
                        error: mismatch(
                            lane_name,
                            operation_id,
                            None,
                            state.last_operation_id,
                        ),
                    },
                },
            );
        },
        Some(operation) => operation.clone(),
    };
    if operation.meta.operation_id != *operation_id {
        return Ok(
            LaneCommand::Return {
                result: Answer::Refused {
                    error: mismatch(
                        lane_name,
                        operation_id,
                        Some(operation.meta.operation_id),
                        state.last_operation_id,
                    ),
                },
            },
        );
    }
    if is_cancelled(&operation.state) {
        let steer: Vec<AgentMessage> = Vec::new();
        let follow_up: Vec<AgentMessage> = Vec::new();
        assert(steer.deep_view() =~= Seq::empty());
        assert(follow_up.deep_view() =~= Seq::empty());
        return Ok(
            LaneCommand::Return {
                result: Answer::Granted {
                    value: AbortRequest {
                        operation_id: operation_id.clone(),
                        newly_requested: false,
                        steer,
                        follow_up,
                    },
                },
            },
        );
    }
    let removed = abandoned_items(&state.inbox);
    let steer = match load_abandoned(rows, &removed, true) {
        Ok(messages) => messages,
        Err(message) => {
            return Err(message);
        },
    };
    let follow_up = match load_abandoned(rows, &removed, false) {
        Ok(messages) => messages,
        Err(message) => {
            return Err(message);
        },
    };
    let inbox = items_without(&state.inbox, &ids_of(&removed));
    let queues = match read_lane_queues(rows, &inbox) {
        Ok(queues) => queues,
        Err(message) => {
            return Err(message);
        },
    };
    Ok(
        commit_abort(
            lane_name,
            operation,
            state,
            removed,
            inbox,
            steer,
            follow_up,
            queues,
            requested_at,
        ),
    )
}

/// A request to stop takes what was queued to steer or follow the operation, and
/// leaves everything else in the inbox, in order.
pub proof fn law_stopping_leaves_the_rest_queued(
    lane: Seq<char>,
    operation_id: Seq<char>,
    state: LaneRuntimeStateView,
    rows: Seq<PendingRowView>,
    requested_at: u64,
)
    requires
        distinct_ids(state.inbox),
    ensures
        abort_command(lane, operation_id, state, rows, requested_at) matches Ok(
            LaneCommandView::Commit { next, .. },
        ) ==> next.inbox == state.inbox.filter(
            |item: InboxItemView|
                item.kind != InboxItemKind::Steer && item.kind != InboxItemKind::FollowUp,
        ),
{
    let inbox = state.inbox;
    let steers = |item: InboxItemView|
        item.kind == InboxItemKind::Steer || item.kind == InboxItemKind::FollowUp;
    let removed = abandoned(inbox);
    let ids = item_ids(removed);
    let left = |item: InboxItemView| !ids.contains(item.entry_id);
    let other = |item: InboxItemView|
        item.kind != InboxItemKind::Steer && item.kind != InboxItemKind::FollowUp;
    assert forall|i: int| 0 <= i < inbox.len() implies left(#[trigger] inbox[i]) == other(
        inbox[i],
    ) by {
        let item = inbox[i];
        assert(inbox.contains(item));
        lemma_in_filter(inbox, steers, item);
        if steers(item) {
            let at = removed.index_of(item);
            assert(ids[at] == item.entry_id);
        }
        if ids.contains(item.entry_id) {
            let at = ids.index_of(item.entry_id);
            assert(removed.contains(removed[at]));
            lemma_in_filter(inbox, steers, removed[at]);
            lemma_same_id(inbox, item, removed[at]);
        }
    }
    lemma_filter_agrees(inbox, left, other);
}

/// Asking a second time to stop changes nothing: the request is not new, and
/// nothing is committed.
pub proof fn law_stopping_twice_is_stopping_once(
    lane: Seq<char>,
    operation_id: Seq<char>,
    state: LaneRuntimeStateView,
    rows: Seq<PendingRowView>,
    requested_at: u64,
    again_rows: Seq<PendingRowView>,
    again_at: u64,
    next: LaneRuntimeStateView,
)
    requires
        abort_command(lane, operation_id, state, rows, requested_at) matches Ok(
            LaneCommandView::Commit { next: after, .. },
        ) && after == next,
    ensures
        next.operation matches Some(operation) && operation.state.cancelled(),
        abort_command(lane, operation_id, next, again_rows, again_at) == Ok::<
            LaneCommandView<AnswerView<AbortRequestView>>,
            Seq<char>,
        >(
            LaneCommandView::Return {
                result: AnswerView::Granted {
                    value: AbortRequestView {
                        operation_id,
                        newly_requested: false,
                        steer: Seq::empty(),
                        follow_up: Seq::empty(),
                    },
                },
            },
        ),
{
}

/// Asking to stop keeps the lane in step with storage.
pub proof fn law_asking_to_stop_keeps_step(
    store: Map<AddressView, DurableValueView>,
    lane: Seq<char>,
    operation_id: Seq<char>,
    state: LaneRuntimeStateView,
    rows: Seq<PendingRowView>,
    requested_at: u64,
)
    requires
        in_step(store, lane, state),
    ensures
        abort_command(lane, operation_id, state, rows, requested_at) matches Ok(command)
            ==> keeps_step(store, lane, command),
{
    if let Ok(LaneCommandView::Commit { writes, next, .. }) = abort_command(
        lane,
        operation_id,
        state,
        rows,
        requested_at,
    ) {
        let removed = abandoned(state.inbox);
        let dropped = payload_deletions(removed);
        let leaf = next.operation->Some_0.state;
        let move_leaf = operation_state_write(operation_id, leaf);
        let record = lane_state_write(lane, lane_record(next));
        assert(writes =~= dropped.push(move_leaf).push(record));
        assert(spares(dropped, AddressView::BranchTip { lane }));
        assert(spares(dropped, AddressView::LaneConfig { lane }));
        assert(spares(dropped, AddressView::OperationMeta { operation_id }));
        lemma_spared(store, dropped, AddressView::BranchTip { lane });
        lemma_spared(store, dropped, AddressView::LaneConfig { lane });
        lemma_spared(store, dropped, AddressView::OperationMeta { operation_id });
        lemma_committed_push(store, dropped, move_leaf);
        lemma_committed_push(store, dropped.push(move_leaf), record);
    }
}

/// Queueing an entry and taking one back keep the lane in step with storage, and
/// a queued entry's payload is stored.
pub proof fn law_queueing_keeps_step(
    store: Map<AddressView, DurableValueView>,
    lane: Seq<char>,
    state: LaneRuntimeStateView,
    rows: Seq<PendingRowView>,
    entry_id: Seq<char>,
    kind: InboxItemKind,
    pending: PendingEntryView,
    consumed: bool,
)
    requires
        in_step(store, lane, state),
    ensures
        queue_command(lane, state, rows, entry_id, kind, pending, ()) matches Ok(command)
            ==> keeps_step(store, lane, command) && (command matches LaneCommandView::Commit {
            writes,
            next,
            ..
        } && holds(
            committed(store, writes),
            AddressView::PendingEntry { entry_id },
            DurableValueView::Pending(pending),
        ) && next.inbox.last() == (InboxItemView { entry_id, kind })),
        cancel_command(lane, state, rows, entry_id, consumed) matches Ok(command) ==> keeps_step(
            store,
            lane,
            command,
        ),
{
    if let Ok(LaneCommandView::Commit { writes, next, .. }) = queue_command(
        lane,
        state,
        rows,
        entry_id,
        kind,
        pending,
        (),
    ) {
        lemma_two_writes(store, lane, state, next, writes);
    }
    if let Ok(LaneCommandView::Commit { writes, next, .. }) = cancel_command(
        lane,
        state,
        rows,
        entry_id,
        consumed,
    ) {
        lemma_two_writes(store, lane, state, next, writes);
    }
}

/// Queued entries keep distinct ids: a fresh one may join, and any may be taken
/// back.
pub proof fn law_queueing_keeps_ids_distinct(
    lane: Seq<char>,
    state: LaneRuntimeStateView,
    rows: Seq<PendingRowView>,
    entry_id: Seq<char>,
    kind: InboxItemKind,
    pending: PendingEntryView,
    consumed: bool,
)
    requires
        distinct_ids(state.inbox),
    ensures
        !item_ids(state.inbox).contains(entry_id) ==> (queue_command(
            lane,
            state,
            rows,
            entry_id,
            kind,
            pending,
            (),
        ) matches Ok(LaneCommandView::Commit { next, .. }) ==> distinct_ids(next.inbox)),
        cancel_command(lane, state, rows, entry_id, consumed) matches Ok(
            LaneCommandView::Commit { next, .. },
        ) ==> distinct_ids(next.inbox) && !item_ids(next.inbox).contains(entry_id),
{
    if !item_ids(state.inbox).contains(entry_id) {
        let inbox = queued(state.inbox, entry_id, kind);
        assert forall|i: int, j: int|
            0 <= i < inbox.len() && 0 <= j < inbox.len() && i != j implies (
        #[trigger] inbox[i]).entry_id != (#[trigger] inbox[j]).entry_id by {
            let k = if i < j {
                i
            } else {
                j
            };
            assert(item_ids(state.inbox)[k] == state.inbox[k].entry_id);
        }
    }
    let rest = without(state.inbox, seq![entry_id]);
    lemma_left_out(state.inbox, seq![entry_id]);
    if item_ids(rest).contains(entry_id) {
        let i = item_ids(rest).index_of(entry_id);
        let left = |item: InboxItemView| !seq![entry_id].contains(item.entry_id);
        state.inbox.lemma_filter_pred(left, i);
        assert(seq![entry_id][0] == entry_id);
    }
}

proof fn lemma_two_writes(
    store: Map<AddressView, DurableValueView>,
    lane: Seq<char>,
    state: LaneRuntimeStateView,
    next: LaneRuntimeStateView,
    writes: Seq<WriteView>,
)
    requires
        in_step(store, lane, state),
        next == with_inbox(state, next.inbox),
        writes.len() == 2,
        writes[0] matches WriteView::SetValue { address, .. } ==> address is PendingEntry,
        writes[0] matches WriteView::DeleteValue { address } ==> address is PendingEntry,
        writes[0] is SetValue || writes[0] is DeleteValue,
        writes[1] == lane_state_write(lane, lane_record(next)),
    ensures
        in_step(committed(store, writes), lane, next),
        writes[0] matches WriteView::SetValue { address, value } ==> holds(
            committed(store, writes),
            address,
            value,
        ),
{
    let first = Seq::<WriteView>::empty().push(writes[0]);
    assert(writes =~= first.push(writes[1]));
    lemma_committed_push(store, Seq::empty(), writes[0]);
    lemma_committed_push(store, first, writes[1]);
}

/// Appending an entry keeps the lane in step with storage.
pub proof fn law_appending_keeps_step(
    store: Map<AddressView, DurableValueView>,
    lane: Seq<char>,
    state: LaneRuntimeStateView,
    rows: Seq<PendingRowView>,
    id: Seq<char>,
    pending: PendingEntryView,
)
    requires
        in_step(store, lane, state),
    ensures
        append_command(lane, state, rows, id, pending) matches Ok(command) ==> keeps_step(
            store,
            lane,
            command,
        ),
{
    let decision = append_command(lane, state, rows, id, pending);
    if let Ok(LaneCommandView::Commit { writes, next, .. }) = decision {
        if state.operation is Some {
            lemma_two_writes(store, lane, state, next, writes);
        } else {
            let items = of_kind(state.inbox, InboxItemKind::Write);
            let entries = chained(
                state.tip_id,
                queued_writes(rows, items)->Ok_0.push(placed_entry(id, None, pending)),
            );
            let moved = insertions(entries) + payload_deletions(items);
            let tip = tip_write(lane, Some(id));
            let record = lane_state_write(lane, lane_record(next));
            assert(writes =~= moved.push(tip).push(record));
            assert(spares(moved, AddressView::LaneConfig { lane }));
            lemma_spared(store, moved, AddressView::LaneConfig { lane });
            lemma_committed_push(store, moved, tip);
            lemma_committed_push(store, moved.push(tip), record);
        }
    }
}

} // verus!
