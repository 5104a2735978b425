//! The inbox of a lane: which queued entries a step takes, in which order, and
//! what their payloads are.

use crate::model::event::{LaneQueuedItem, LaneQueuedItemView};
use crate::model::message::{AgentMessage, AgentMessageView};
use crate::model::session::{
    InboxItem, InboxItemKind, InboxItemView, PendingEntry, PendingEntryView, QueueMode,
};
use crate::text::{join, text_in};
use crate::transcript::lemma_prefix_push;
use crate::types::{PendingPayload, PendingPayloadView, PendingRow, PendingRowView};
use vstd::prelude::*;

verus! {

/// The ids of queued entries.
pub open spec fn item_ids(items: Seq<InboxItemView>) -> Seq<Seq<char>> {
    items.map_values(|item: InboxItemView| item.entry_id)
}

/// The ids of queued entries.
pub fn ids_of(items: &Vec<InboxItem>) -> (r: Vec<String>)
    ensures
        r.deep_view() == item_ids(items.deep_view()),
{
    let mut ids: Vec<String> = Vec::new();
    let mut i: usize = 0;
    while i < items.len()
        invariant
            i <= items.len(),
            ids.len() == i,
            forall|k: int| 0 <= k < i ==> #[trigger] ids[k]@ == items[k].deep_view().entry_id,
        decreases items.len() - i,
    {
        ids.push(items[i].entry_id.clone());
        i += 1;
    }
    assert(ids.deep_view() =~= item_ids(items.deep_view()));
    ids
}

/// One more element of a filtered sequence.
pub proof fn lemma_filter_step<A>(items: Seq<A>, n: int, keep: spec_fn(A) -> bool)
    requires
        0 <= n < items.len(),
    ensures
        items.take(n + 1).filter(keep) == if keep(items[n]) {
            items.take(n).filter(keep).push(items[n])
        } else {
            items.take(n).filter(keep)
        },
{
    reveal(Seq::filter);
    assert(items.take(n + 1).drop_last() =~= items.take(n));
    assert(items.take(n + 1).last() == items[n]);
}

/// The queued entries of one kind.
pub open spec fn of_kind(inbox: Seq<InboxItemView>, kind: InboxItemKind) -> Seq<InboxItemView> {
    inbox.filter(|item: InboxItemView| item.kind == kind)
}

/// The queued entries of one kind.
pub fn items_of_kind(inbox: &Vec<InboxItem>, kind: InboxItemKind) -> (r: Vec<InboxItem>)
    ensures
        r.deep_view() == of_kind(inbox.deep_view(), kind),
{
    let ghost keep = |item: InboxItemView| item.kind == kind;
    let mut items: Vec<InboxItem> = Vec::new();
    let mut i: usize = 0;
    assert(items.deep_view() =~= inbox.deep_view().take(0).filter(keep)) by {
        reveal(Seq::filter);
    }
    while i < inbox.len()
        invariant
            i <= inbox.len(),
            keep == (|item: InboxItemView| item.kind == kind),
            items.deep_view() == inbox.deep_view().take(i as int).filter(keep),
        decreases inbox.len() - i,
    {
        let ghost before = items.deep_view();
        proof {
            lemma_filter_step(inbox.deep_view(), i as int, keep);
        }
        if inbox[i].kind == kind {
            items.push(inbox[i].clone());
            assert(items.deep_view() =~= before.push(inbox[i as int].deep_view()));
        }
        i += 1;
    }
    assert(inbox.deep_view().take(i as int) =~= inbox.deep_view());
    items
}

/// The entries a mode takes of those that are eligible.
pub open spec fn taken(items: Seq<InboxItemView>, mode: QueueMode) -> Seq<InboxItemView> {
    if mode == QueueMode::OneAtATime && items.len() > 1 {
        items.take(1)
    } else {
        items
    }
}

/// Takes as many entries as the mode says.
pub fn take_items(items: Vec<InboxItem>, mode: QueueMode) -> (r: Vec<InboxItem>)
    ensures
        r.deep_view() == taken(items.deep_view(), mode),
{
    let ghost all = items.deep_view();
    let mut items = items;
    if mode == QueueMode::OneAtATime {
        items.truncate(1);
    }
    assert(items.deep_view() =~= taken(all, mode));
    items
}

/// The queued entries whose ids are not among those given.
pub open spec fn without(inbox: Seq<InboxItemView>, ids: Seq<Seq<char>>) -> Seq<InboxItemView> {
    inbox.filter(|item: InboxItemView| !ids.contains(item.entry_id))
}

/// The queued entries whose ids are not among those given.
pub fn items_without(inbox: &Vec<InboxItem>, ids: &Vec<String>) -> (r: Vec<InboxItem>)
    ensures
        r.deep_view() == without(inbox.deep_view(), ids.deep_view()),
{
    let ghost keep = |item: InboxItemView| !ids.deep_view().contains(item.entry_id);
    let mut items: Vec<InboxItem> = Vec::new();
    let mut i: usize = 0;
    assert(items.deep_view() =~= inbox.deep_view().take(0).filter(keep)) by {
        reveal(Seq::filter);
    }
    while i < inbox.len()
        invariant
            i <= inbox.len(),
            keep == (|item: InboxItemView| !ids.deep_view().contains(item.entry_id)),
            items.deep_view() == inbox.deep_view().take(i as int).filter(keep),
        decreases inbox.len() - i,
    {
        let ghost before = items.deep_view();
        proof {
            lemma_filter_step(inbox.deep_view(), i as int, keep);
        }
        if !text_in(ids, &inbox[i].entry_id) {
            items.push(inbox[i].clone());
            assert(items.deep_view() =~= before.push(inbox[i as int].deep_view()));
        }
        i += 1;
    }
    assert(inbox.deep_view().take(i as int) =~= inbox.deep_view());
    items
}

/// What storage has for a queued entry: its first row.
pub open spec fn payload_of(rows: Seq<PendingRowView>, entry_id: Seq<char>) -> Option<
    PendingPayloadView,
>
    decreases rows.len(),
{
    if rows.len() == 0 {
        None
    } else {
        match payload_of(rows.drop_last(), entry_id) {
            Some(payload) => Some(payload),
            None => if rows.last().entry_id == entry_id {
                Some(rows.last().payload)
            } else {
                None
            },
        }
    }
}

/// Looks up what storage has for a queued entry.
pub fn find_payload<'a>(rows: &'a Vec<PendingRow>, entry_id: &String) -> (r: Option<
    &'a PendingPayload,
>)
    ensures
        r.deep_view() == payload_of(rows.deep_view(), entry_id@),
{
    let mut i: usize = 0;
    while i < rows.len()
        invariant
            i <= rows.len(),
            payload_of(rows.deep_view().take(i as int), entry_id@) is None,
        decreases rows.len() - i,
    {
        proof {
            lemma_prefix_push(*rows, i as int);
        }
        if rows[i].entry_id == *entry_id {
            proof {
                lemma_payload_stays(rows.deep_view(), i as int + 1, entry_id@);
            }
            return Some(&rows[i].payload);
        }
        i += 1;
    }
    assert(rows.deep_view().take(i as int) =~= rows.deep_view());
    None
}

proof fn lemma_payload_stays(rows: Seq<PendingRowView>, n: int, entry_id: Seq<char>)
    requires
        0 <= n <= rows.len(),
        payload_of(rows.take(n), entry_id) is Some,
    ensures
        payload_of(rows, entry_id) == payload_of(rows.take(n), entry_id),
    decreases rows.len(),
{
    if n < rows.len() {
        assert(rows.drop_last().take(n) =~= rows.take(n));
        lemma_payload_stays(rows.drop_last(), n, entry_id);
    } else {
        assert(rows.take(n) =~= rows);
    }
}

/// The name of an inbox kind.
pub open spec fn kind_name(kind: InboxItemKind) -> Seq<char> {
    match kind {
        InboxItemKind::Steer => "Steer"@,
        InboxItemKind::FollowUp => "FollowUp"@,
        InboxItemKind::NextRun => "NextRun"@,
        InboxItemKind::Write => "Write"@,
    }
}

fn kind_text(kind: InboxItemKind) -> (r: &'static str)
    ensures
        r@ == kind_name(kind),
{
    match kind {
        InboxItemKind::Steer => "Steer",
        InboxItemKind::FollowUp => "FollowUp",
        InboxItemKind::NextRun => "NextRun",
        InboxItemKind::Write => "Write",
    }
}

/// A message about a queued entry.
pub open spec fn about_item(head: Seq<char>, item: InboxItemView, tail: Seq<char>) -> Seq<char> {
    head + kind_name(item.kind) + " entry "@ + item.entry_id + tail
}

/// Words a message about a queued entry.
pub fn item_message(head: &str, item: &InboxItem, tail: &str) -> (r: String)
    ensures
        r@ == about_item(head@, item.deep_view(), tail@),
{
    let named = join(join(head.to_string(), kind_text(item.kind)), " entry ");
    join(join(named, item.entry_id.as_str()), tail)
}

/// The payload of a queued entry, or why it cannot be used. Only writes may be
/// other than messages.
pub open spec fn loaded(
    rows: Seq<PendingRowView>,
    item: InboxItemView,
    not_a_message: Seq<char>,
) -> Result<PendingEntryView, Seq<char>> {
    match payload_of(rows, item.entry_id) {
        None => Err(about_item("Pending "@, item, " is missing its payload"@)),
        Some(PendingPayloadView::Undecodable(reason)) => Err(reason),
        Some(PendingPayloadView::Decoded(entry)) => if item.kind != InboxItemKind::Write
            && !(entry is Message) {
            Err(about_item(not_a_message, item, " is not a message"@))
        } else {
            Ok(entry)
        },
    }
}

/// Loads the payload of a queued entry.
pub fn load_item(rows: &Vec<PendingRow>, item: &InboxItem, not_a_message: &str) -> (r: Result<
    PendingEntry,
    String,
>)
    ensures
        match loaded(rows.deep_view(), item.deep_view(), not_a_message@) {
            Ok(entry) => r is Ok && r->Ok_0.deep_view() == entry,
            Err(message) => r is Err && r->Err_0@ == message,
        },
{
    match find_payload(rows, &item.entry_id) {
        None => Err(item_message("Pending ", item, " is missing its payload")),
        Some(payload) => match payload {
            PendingPayload::Undecodable(reason) => Err(reason.clone()),
            PendingPayload::Decoded(entry) => {
                if item.kind != InboxItemKind::Write {
                    if let PendingEntry::Custom { .. } = entry {
                        return Err(item_message(not_a_message, item, " is not a message"));
                    }
                }
                Ok(entry.clone())
            },
        },
    }
}

/// A queued entry with its payload.
pub open spec fn queued_item(item: InboxItemView, entry: PendingEntryView) -> LaneQueuedItemView {
    match entry {
        PendingEntryView::Message { payload } => LaneQueuedItemView::Message {
            entry_id: item.entry_id,
            kind: item.kind,
            message: payload,
        },
        PendingEntryView::Custom { custom_type, payload } => LaneQueuedItemView::Custom {
            entry_id: item.entry_id,
            kind: item.kind,
            custom_type,
            data: payload,
        },
    }
}

/// The queues of a lane with their payloads, or why the first unusable entry
/// cannot be shown.
pub open spec fn lane_queues(rows: Seq<PendingRowView>, inbox: Seq<InboxItemView>) -> Result<
    Seq<LaneQueuedItemView>,
    Seq<char>,
>
    decreases inbox.len(),
{
    if inbox.len() == 0 {
        Ok(Seq::empty())
    } else {
        match lane_queues(rows, inbox.drop_last()) {
            Err(message) => Err(message),
            Ok(queues) => match loaded(rows, inbox.last(), "Pending "@) {
                Err(message) => Err(message),
                Ok(entry) => Ok(queues.push(queued_item(inbox.last(), entry))),
            },
        }
    }
}

/// An unusable entry stays one, whatever follows it.
proof fn lemma_queues_fail(rows: Seq<PendingRowView>, inbox: Seq<InboxItemView>, n: int)
    requires
        0 <= n <= inbox.len(),
        lane_queues(rows, inbox.take(n)) is Err,
    ensures
        lane_queues(rows, inbox) == lane_queues(rows, inbox.take(n)),
    decreases inbox.len(),
{
    if n < inbox.len() {
        assert(inbox.drop_last().take(n) =~= inbox.take(n));
        lemma_queues_fail(rows, inbox.drop_last(), n);
    } else {
        assert(inbox.take(n) =~= inbox);
    }
}

/// Shows the queues of a lane.
pub fn read_lane_queues(rows: &Vec<PendingRow>, inbox: &Vec<InboxItem>) -> (r: Result<
    Vec<LaneQueuedItem>,
    String,
>)
    ensures
        match lane_queues(rows.deep_view(), inbox.deep_view()) {
            Ok(queues) => r is Ok && r->Ok_0.deep_view() == queues,
            Err(message) => r is Err && r->Err_0@ == message,
        },
{
    let mut queues: Vec<LaneQueuedItem> = Vec::new();
    let mut i: usize = 0;
    assert(queues.deep_view() =~= Seq::empty());
    while i < inbox.len()
        invariant
            i <= inbox.len(),
            lane_queues(rows.deep_view(), inbox.deep_view().take(i as int)) == Ok::<
                Seq<LaneQueuedItemView>,
                Seq<char>,
            >(queues.deep_view()),
        decreases inbox.len() - i,
    {
        proof {
            lemma_prefix_push(*inbox, i as int);
        }
        match load_item(rows, &inbox[i], "Pending ") {
            Err(message) => {
                proof {
                    lemma_queues_fail(rows.deep_view(), inbox.deep_view(), i as int + 1);
                }
                return Err(message);
            },
            Ok(entry) => {
                let ghost before = queues.deep_view();
                let item = match entry {
                    PendingEntry::Message { payload } => LaneQueuedItem::Message {
                        entry_id: inbox[i].entry_id.clone(),
                        kind: inbox[i].kind,
                        message: payload,
                    },
                    PendingEntry::Custom { custom_type, payload } => LaneQueuedItem::Custom {
                        entry_id: inbox[i].entry_id.clone(),
                        kind: inbox[i].kind,
                        custom_type,
                        data: payload,
                    },
                };
                queues.push(item);
                assert(queues.deep_view() =~= before.push(item.deep_view()));
            },
        }
        i += 1;
    }
    assert(inbox.deep_view().take(i as int) =~= inbox.deep_view());
    Ok(queues)
}

/// The messages stored for some queued entries, or why the first unusable one
/// cannot be read.
pub open spec fn pending_messages(
    rows: Seq<PendingRowView>,
    ids: Seq<Seq<char>>,
    description: Seq<char>,
) -> Result<Seq<(Seq<char>, AgentMessageView)>, Seq<char>>
    decreases ids.len(),
{
    if ids.len() == 0 {
        Ok(Seq::empty())
    } else {
        let id = ids.last();
        match pending_messages(rows, ids.drop_last(), description) {
            Err(message) => Err(message),
            Ok(messages) => match payload_of(rows, id) {
                Some(PendingPayloadView::Undecodable(reason)) => Err(reason),
                Some(PendingPayloadView::Decoded(PendingEntryView::Message { payload })) => Ok(
                    messages.push((id, payload)),
                ),
                _ => Err(description + " "@ + id + " is missing its message payload"@),
            },
        }
    }
}

proof fn lemma_messages_fail(
    rows: Seq<PendingRowView>,
    ids: Seq<Seq<char>>,
    description: Seq<char>,
    n: int,
)
    requires
        0 <= n <= ids.len(),
        pending_messages(rows, ids.take(n), description) is Err,
    ensures
        pending_messages(rows, ids, description) == pending_messages(
            rows,
            ids.take(n),
            description,
        ),
    decreases ids.len(),
{
    if n < ids.len() {
        assert(ids.drop_last().take(n) =~= ids.take(n));
        lemma_messages_fail(rows, ids.drop_last(), description, n);
    } else {
        assert(ids.take(n) =~= ids);
    }
}

/// Reads the messages stored for some queued entries.
pub fn read_pending_messages(rows: &Vec<PendingRow>, ids: &Vec<String>, description: &str) -> (r:
    Result<Vec<(String, AgentMessage)>, String>)
    ensures
        match pending_messages(rows.deep_view(), ids.deep_view(), description@) {
            Ok(messages) => r is Ok && r->Ok_0.deep_view() == messages,
            Err(message) => r is Err && r->Err_0@ == message,
        },
{
    let mut messages: Vec<(String, AgentMessage)> = Vec::new();
    let mut i: usize = 0;
    assert(messages.deep_view() =~= Seq::empty());
    while i < ids.len()
        invariant
            i <= ids.len(),
            pending_messages(rows.deep_view(), ids.deep_view().take(i as int), description@)
                == Ok::<Seq<(Seq<char>, AgentMessageView)>, Seq<char>>(messages.deep_view()),
        decreases ids.len() - i,
    {
        let ghost before = messages.deep_view();
        proof {
            lemma_prefix_push(*ids, i as int);
        }
        match find_payload(rows, &ids[i]) {
            Some(PendingPayload::Undecodable(reason)) => {
                proof {
                    lemma_messages_fail(
                        rows.deep_view(),
                        ids.deep_view(),
                        description@,
                        i as int + 1,
                    );
                }
                return Err(reason.clone());
            },
            Some(PendingPayload::Decoded(PendingEntry::Message { payload })) => {
                let pair = (ids[i].clone(), payload.clone());
                messages.push(pair);
                assert(messages.deep_view() =~= before.push((ids[i as int]@, payload.deep_view())));
            },
            _ => {
                proof {
                    lemma_messages_fail(
                        rows.deep_view(),
                        ids.deep_view(),
                        description@,
                        i as int + 1,
                    );
                }
                let named = join(join(description.to_string(), " "), ids[i].as_str());
                return Err(join(named, " is missing its message payload"));
            },
        }
        i += 1;
    }
    assert(ids.deep_view().take(i as int) =~= ids.deep_view());
    Ok(messages)
}

} // verus!
