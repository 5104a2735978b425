//! Transcripts: how inserted entries come out of a commit, and which events they
//! cause.

use crate::json::{
    from_text, member, member_of, members_of, null_of, set_member, text, text_of, text_value, Json,
};
use crate::model::event::{HarnessEvent, HarnessEventView, PlannedEvent, PlannedEventView};
use crate::model::message::{AgentMessage, AgentMessageView, StopReason};
use crate::model::storage::{
    BranchSummaryEntry, BranchSummaryEntryView, CommitResult, CommitResultView, CompactionEntry,
    CompactionEntryView, CustomEntry, CustomEntryView, Entry, EntryBase, EntryBaseView, EntryView,
    MessageEntry, MessageEntryView, NewEntry, NewEntryView, UsageRowView,
};
use vstd::prelude::*;

verus! {

impl NewEntryView {
    /// The id of the entry.
    pub open spec fn id(self) -> Seq<char> {
        match self {
            NewEntryView::Message(entry) => entry.id,
            NewEntryView::Compaction(entry) => entry.id,
            NewEntryView::BranchSummary(entry) => entry.id,
            NewEntryView::Custom(entry) => entry.id,
        }
    }

    /// The entry that this one follows.
    pub open spec fn parent_id(self) -> Option<Seq<char>> {
        match self {
            NewEntryView::Message(entry) => entry.parent_id,
            NewEntryView::Compaction(entry) => entry.parent_id,
            NewEntryView::BranchSummary(entry) => entry.parent_id,
            NewEntryView::Custom(entry) => entry.parent_id,
        }
    }
}

impl NewEntry {
    /// The id of the entry.
    pub fn id(&self) -> (r: &String)
        ensures
            r@ == self.deep_view().id(),
    {
        match self {
            NewEntry::Message(entry) => &entry.id,
            NewEntry::Compaction(entry) => &entry.id,
            NewEntry::BranchSummary(entry) => &entry.id,
            NewEntry::Custom(entry) => &entry.id,
        }
    }
}

impl EntryView {
    /// What every committed entry has.
    pub open spec fn base(self) -> EntryBaseView {
        match self {
            EntryView::Message(entry) => entry.base,
            EntryView::Compaction(entry) => entry.base,
            EntryView::BranchSummary(entry) => entry.base,
            EntryView::Custom(entry) => entry.base,
        }
    }

    /// The id of the entry.
    pub open spec fn id(self) -> Seq<char> {
        self.base().id
    }
}

impl Entry {
    /// The id of the entry.
    pub fn id(&self) -> (r: &String)
        ensures
            r@ == self.deep_view().id(),
    {
        match self {
            Entry::Message(entry) => &entry.base.id,
            Entry::Compaction(entry) => &entry.base.id,
            Entry::BranchSummary(entry) => &entry.base.id,
            Entry::Custom(entry) => &entry.base.id,
        }
    }
}

/// An inserted entry as it stands in the transcript once committed.
pub open spec fn materialized(entry: NewEntryView, seq: u64, timestamp: u64) -> EntryView {
    match entry {
        NewEntryView::Message(e) => EntryView::Message(
            MessageEntryView {
                base: EntryBaseView {
                    id: e.id,
                    parent_id: e.parent_id,
                    seq,
                    timestamp,
                    custom_type: e.custom_type,
                },
                message: e.message,
                terminate: e.terminate,
            },
        ),
        NewEntryView::Compaction(e) => EntryView::Compaction(
            CompactionEntryView {
                base: EntryBaseView {
                    id: e.id,
                    parent_id: e.parent_id,
                    seq,
                    timestamp,
                    custom_type: e.custom_type,
                },
                summary: e.summary,
                retained_tail: e.retained_tail,
                tokens_before: e.tokens_before,
                details: e.details,
                usage: e.usage,
                from_hook: e.from_hook,
            },
        ),
        NewEntryView::BranchSummary(e) => EntryView::BranchSummary(
            BranchSummaryEntryView {
                base: EntryBaseView {
                    id: e.id,
                    parent_id: e.parent_id,
                    seq,
                    timestamp,
                    custom_type: e.custom_type,
                },
                from_id: e.from_id,
                summary: e.summary,
                details: e.details,
                usage: e.usage,
                from_hook: e.from_hook,
            },
        ),
        NewEntryView::Custom(e) => EntryView::Custom(
            CustomEntryView {
                base: EntryBaseView {
                    id: e.id,
                    parent_id: e.parent_id,
                    seq,
                    timestamp,
                    custom_type: Some(e.custom_type),
                },
                data: e.data,
            },
        ),
    }
}

/// Gives an inserted entry its place in the transcript.
pub fn materialize_committed_entry(entry: &NewEntry, seq: u64, timestamp: u64) -> (r: Entry)
    ensures
        r.deep_view() == materialized(entry.deep_view(), seq, timestamp),
{
    match entry {
        NewEntry::Message(e) => Entry::Message(
            MessageEntry {
                base: EntryBase {
                    id: e.id.clone(),
                    parent_id: e.parent_id.clone(),
                    seq,
                    timestamp,
                    custom_type: e.custom_type.clone(),
                },
                message: e.message.clone(),
                terminate: e.terminate,
            },
        ),
        NewEntry::Compaction(e) => Entry::Compaction(
            CompactionEntry {
                base: EntryBase {
                    id: e.id.clone(),
                    parent_id: e.parent_id.clone(),
                    seq,
                    timestamp,
                    custom_type: e.custom_type.clone(),
                },
                summary: e.summary.clone(),
                retained_tail: e.retained_tail.clone(),
                tokens_before: e.tokens_before,
                details: e.details.clone(),
                usage: e.usage.clone(),
                from_hook: e.from_hook,
            },
        ),
        NewEntry::BranchSummary(e) => Entry::BranchSummary(
            BranchSummaryEntry {
                base: EntryBase {
                    id: e.id.clone(),
                    parent_id: e.parent_id.clone(),
                    seq,
                    timestamp,
                    custom_type: e.custom_type.clone(),
                },
                from_id: e.from_id.clone(),
                summary: e.summary.clone(),
                details: e.details.clone(),
                usage: e.usage.clone(),
                from_hook: e.from_hook,
            },
        ),
        NewEntry::Custom(e) => Entry::Custom(
            CustomEntry {
                base: EntryBase {
                    id: e.id.clone(),
                    parent_id: e.parent_id.clone(),
                    seq,
                    timestamp,
                    custom_type: Some(e.custom_type.clone()),
                },
                data: e.data.clone(),
            },
        ),
    }
}

/// The events a committed entry causes: a message starts, ends and is added;
/// any other entry is only added.
pub open spec fn lifecycle(entry: EntryView, lane: Seq<char>, run_id: Option<Seq<char>>) -> Seq<
    HarnessEventView,
> {
    let added = HarnessEventView::EntryAdded { lane, entry, recovery: None };
    match entry {
        EntryView::Message(e) => seq![
            HarnessEventView::MessageStart { lane, run_id, message: e.message, recovery: None },
            HarnessEventView::MessageEnd {
                lane,
                run_id,
                message: e.message,
                entry_id: Some(e.base.id),
                recovery: None,
            },
            added,
        ],
        _ => seq![added],
    }
}

fn owned(text: Option<&str>) -> (r: Option<String>)
    ensures
        r.deep_view() == text.deep_view(),
{
    match text {
        Some(text) => Some(text.to_string()),
        None => None,
    }
}

/// The events a committed entry causes.
pub fn entry_lifecycle_events(entry: &Entry, lane: &str, run_id: Option<&str>) -> (r: Vec<
    HarnessEvent,
>)
    ensures
        r.deep_view() == lifecycle(entry.deep_view(), lane@, run_id.deep_view()),
{
    let added = HarnessEvent::EntryAdded {
        lane: lane.to_string(),
        entry: entry.clone(),
        recovery: None,
    };
    let r = match entry {
        Entry::Message(e) => vec![
            HarnessEvent::MessageStart {
                lane: lane.to_string(),
                run_id: owned(run_id),
                message: e.message.clone(),
                recovery: None,
            },
            HarnessEvent::MessageEnd {
                lane: lane.to_string(),
                run_id: owned(run_id),
                message: e.message.clone(),
                entry_id: Some(e.base.id.clone()),
                recovery: None,
            },
            added,
        ],
        _ => vec![added],
    };
    assert(r.deep_view() =~= lifecycle(entry.deep_view(), lane@, run_id.deep_view()));
    r
}

/// The sequence number a commit gave to one of its writes.
pub open spec fn seq_at(commit: CommitResultView, index: int) -> u64 {
    if 0 <= index < commit.seqs.len() {
        commit.seqs[index]
    } else {
        0
    }
}

/// The sequence number a commit gave to one of its writes.
pub fn committed_seq(commit: &CommitResult, index: usize) -> (r: u64)
    ensures
        r == seq_at(commit.deep_view(), index as int),
{
    if index < commit.seqs.len() {
        commit.seqs[index]
    } else {
        0
    }
}

/// The events of entries whose inserts start at a given write.
pub open spec fn committed_events(
    entries: Seq<NewEntryView>,
    commit: CommitResultView,
    lane: Seq<char>,
    run_id: Option<Seq<char>>,
    first_write_index: int,
) -> Seq<HarnessEventView>
    decreases entries.len(),
{
    if entries.len() == 0 {
        Seq::empty()
    } else {
        let last = entries.len() - 1;
        committed_events(entries.drop_last(), commit, lane, run_id, first_write_index) + lifecycle(
            materialized(
                entries[last],
                seq_at(commit, first_write_index + last),
                commit.timestamp,
            ),
            lane,
            run_id,
        )
    }
}

/// The views of the first `n` elements of a list.
pub proof fn lemma_prefix_push<T: DeepView>(list: Vec<T>, n: int)
    requires
        0 <= n < list.len(),
    ensures
        list.deep_view().take(n + 1) == list.deep_view().take(n).push(list[n].deep_view()),
        list.deep_view().take(n + 1).drop_last() == list.deep_view().take(n),
{
    assert(list.deep_view().take(n + 1) =~= list.deep_view().take(n).push(list[n].deep_view()));
    assert(list.deep_view().take(n + 1).drop_last() =~= list.deep_view().take(n));
}

/// Moves the elements of `tail` behind those of `head`.
pub fn append_all<T: DeepView>(head: &mut Vec<T>, tail: Vec<T>)
    ensures
        final(head).deep_view() == old(head).deep_view() + tail.deep_view(),
{
    let ghost before = head@;
    let ghost added = tail@;
    let mut tail = tail;
    head.append(&mut tail);
    assert(head@ == before + added);
    proof {
        let whole = head.deep_view();
        assert(whole =~= old(head).deep_view() + Seq::new(added.len(), |i: int| added[i].deep_view()));
    }
}

/// The events of entries whose inserts start at a given write.
pub fn committed_entry_events(
    entries: &Vec<NewEntry>,
    commit: &CommitResult,
    lane: &str,
    run_id: Option<&str>,
    first_write_index: usize,
) -> (r: Vec<HarnessEvent>)
    requires
        first_write_index + entries.len() <= usize::MAX,
    ensures
        r.deep_view() == committed_events(
            entries.deep_view(),
            commit.deep_view(),
            lane@,
            run_id.deep_view(),
            first_write_index as int,
        ),
{
    let mut events: Vec<HarnessEvent> = Vec::new();
    let mut i: usize = 0;
    assert(events.deep_view() =~= Seq::empty());
    while i < entries.len()
        invariant
            i <= entries.len(),
            first_write_index + entries.len() <= usize::MAX,
            events.deep_view() == committed_events(
                entries.deep_view().take(i as int),
                commit.deep_view(),
                lane@,
                run_id.deep_view(),
                first_write_index as int,
            ),
        decreases entries.len() - i,
    {
        let seq: u64 = committed_seq(commit, first_write_index + i);
        let entry = materialize_committed_entry(&entries[i], seq, commit.timestamp);
        append_all(&mut events, entry_lifecycle_events(&entry, lane, run_id));
        proof {
            lemma_prefix_push(*entries, i as int);
        }
        i += 1;
    }
    assert(entries.deep_view().take(i as int) =~= entries.deep_view());
    events
}

/// What a planned event becomes once its commit is known.
pub open spec fn emitted_one(event: PlannedEventView, commit: CommitResultView) -> Seq<
    HarnessEventView,
> {
    match event {
        PlannedEventView::Ready(event) => seq![event],
        PlannedEventView::Lifecycle { entry, write_index, lane, run_id } => lifecycle(
            materialized(entry, seq_at(commit, write_index as int), commit.timestamp),
            lane,
            run_id,
        ),
        PlannedEventView::Added { entry, write_index, lane, recovery } => seq![
            HarnessEventView::EntryAdded {
                lane,
                entry: materialized(entry, seq_at(commit, write_index as int), commit.timestamp),
                recovery,
            },
        ],
        PlannedEventView::Ledger { row, write_index, lane } => seq![
            HarnessEventView::Usage {
                lane,
                row: UsageRowView { seq: seq_at(commit, write_index as int), ..row },
                totals: commit.stats.usage,
            },
        ],
        PlannedEventView::CompactionStarted { lane, run_id, reason } => seq![
            HarnessEventView::CompactionStart {
                lane,
                run_id,
                reason,
                started_at: commit.timestamp,
                recovery: None,
            },
        ],
    }
}

/// The events that follow a commit, in the order in which they were planned.
pub open spec fn emitted(plan: Seq<PlannedEventView>, commit: CommitResultView) -> Seq<
    HarnessEventView,
>
    decreases plan.len(),
{
    if plan.len() == 0 {
        Seq::empty()
    } else {
        emitted(plan.drop_last(), commit) + emitted_one(plan.last(), commit)
    }
}

fn emit_one(event: &PlannedEvent, commit: &CommitResult) -> (r: Vec<HarnessEvent>)
    ensures
        r.deep_view() == emitted_one(event.deep_view(), commit.deep_view()),
{
    let r = match event {
        PlannedEvent::Ready(event) => vec![event.clone()],
        PlannedEvent::Lifecycle { entry, write_index, lane, run_id } => {
            let seq: u64 = committed_seq(commit, *write_index);
            let entry = materialize_committed_entry(entry, seq, commit.timestamp);
            match run_id {
                Some(run_id) => entry_lifecycle_events(&entry, lane.as_str(), Some(run_id.as_str())),
                None => entry_lifecycle_events(&entry, lane.as_str(), None),
            }
        },
        PlannedEvent::Added { entry, write_index, lane, recovery } => {
            let seq: u64 = committed_seq(commit, *write_index);
            vec![
                HarnessEvent::EntryAdded {
                    lane: lane.clone(),
                    entry: materialize_committed_entry(entry, seq, commit.timestamp),
                    recovery: *recovery,
                },
            ]
        },
        PlannedEvent::Ledger { row, write_index, lane } => {
            let seq: u64 = committed_seq(commit, *write_index);
            let mut row = row.clone();
            row.seq = seq;
            vec![
                HarnessEvent::Usage {
                    lane: lane.clone(),
                    row,
                    totals: commit.stats.usage.clone(),
                },
            ]
        },
        PlannedEvent::CompactionStarted { lane, run_id, reason } => vec![
            HarnessEvent::CompactionStart {
                lane: lane.clone(),
                run_id: run_id.clone(),
                reason: reason.clone(),
                started_at: commit.timestamp,
                recovery: None,
            },
        ],
    };
    assert(r.deep_view() =~= emitted_one(event.deep_view(), commit.deep_view()));
    r
}

/// The events that follow a commit.
pub fn emit(plan: &Vec<PlannedEvent>, commit: &CommitResult) -> (r: Vec<HarnessEvent>)
    ensures
        r.deep_view() == emitted(plan.deep_view(), commit.deep_view()),
{
    let mut events: Vec<HarnessEvent> = Vec::new();
    let mut i: usize = 0;
    assert(events.deep_view() =~= Seq::empty());
    while i < plan.len()
        invariant
            i <= plan.len(),
            events.deep_view() == emitted(plan.deep_view().take(i as int), commit.deep_view()),
        decreases plan.len() - i,
    {
        append_all(&mut events, emit_one(&plan[i], commit));
        proof {
            lemma_prefix_push(*plan, i as int);
        }
        i += 1;
    }
    assert(plan.deep_view().take(i as int) =~= plan.deep_view());
    events
}

/// Planned events are emitted part by part.
pub proof fn lemma_emitted_concat(
    first: Seq<PlannedEventView>,
    second: Seq<PlannedEventView>,
    commit: CommitResultView,
)
    ensures
        emitted(first + second, commit) == emitted(first, commit) + emitted(second, commit),
    decreases second.len(),
{
    if second.len() == 0 {
        assert(first + second =~= first);
        assert(emitted(first, commit) + emitted(second, commit) =~= emitted(first, commit));
    } else {
        lemma_emitted_concat(first, second.drop_last(), commit);
        assert((first + second).drop_last() =~= first + second.drop_last());
        assert(emitted(first + second, commit) =~= emitted(first, commit) + emitted(
            second,
            commit,
        ));
    }
}

/// The entry with an id among those that were fetched.
pub open spec fn entry_of(entries: Seq<EntryView>, id: Seq<char>) -> Option<EntryView>
    decreases entries.len(),
{
    if entries.len() == 0 {
        None
    } else {
        match entry_of(entries.drop_last(), id) {
            Some(entry) => Some(entry),
            None => if entries.last().id() == id {
                Some(entries.last())
            } else {
                None
            },
        }
    }
}

proof fn lemma_entry_stays(entries: Seq<EntryView>, n: int, id: Seq<char>)
    requires
        0 <= n <= entries.len(),
        entry_of(entries.take(n), id) is Some,
    ensures
        entry_of(entries, id) == entry_of(entries.take(n), id),
    decreases entries.len(),
{
    if n < entries.len() {
        assert(entries.drop_last().take(n) =~= entries.take(n));
        lemma_entry_stays(entries.drop_last(), n, id);
    } else {
        assert(entries.take(n) =~= entries);
    }
}

/// Finds the entry with an id among those that were fetched.
pub fn find_entry<'a>(entries: &'a Vec<Entry>, id: &String) -> (r: Option<&'a Entry>)
    ensures
        r.deep_view() == entry_of(entries.deep_view(), id@),
{
    let mut i: usize = 0;
    while i < entries.len()
        invariant
            i <= entries.len(),
            entry_of(entries.deep_view().take(i as int), id@) is None,
        decreases entries.len() - i,
    {
        proof {
            lemma_prefix_push(*entries, i as int);
        }
        if *entries[i].id() == *id {
            proof {
                lemma_entry_stays(entries.deep_view(), i as int + 1, id@);
            }
            return Some(&entries[i]);
        }
        i += 1;
    }
    assert(entries.deep_view().take(i as int) =~= entries.deep_view());
    None
}

/// Whether a message is a response that is still streaming.
pub open spec fn is_pending(message: AgentMessageView) -> bool {
    message matches AgentMessageView::Assistant(assistant) && assistant.stop_reason
        == StopReason::Pending
}

/// Whether a message is a response that is still streaming.
pub fn is_pending_assistant(message: &AgentMessage) -> (r: bool)
    ensures
        r == is_pending(message.deep_view()),
{
    match message {
        AgentMessage::Assistant(assistant) => assistant.stop_reason == StopReason::Pending,
        _ => false,
    }
}

/// Whether some message is a response that is still streaming.
pub open spec fn any_pending(messages: Seq<AgentMessageView>) -> bool {
    exists|i: int| 0 <= i < messages.len() && is_pending(#[trigger] messages[i])
}

/// Whether some message is a response that is still streaming.
pub fn any_pending_assistant(messages: &Vec<AgentMessage>) -> (r: bool)
    ensures
        r == any_pending(messages.deep_view()),
{
    let mut i: usize = 0;
    while i < messages.len()
        invariant
            i <= messages.len(),
            forall|k: int| 0 <= k < i ==> !is_pending(#[trigger] messages.deep_view()[k]),
        decreases messages.len() - i,
    {
        if is_pending_assistant(&messages[i]) {
            assert(is_pending(messages.deep_view()[i as int]));
            return true;
        }
        i += 1;
    }
    false
}

/// What the entry behind a JSON entry refers to: the id of that entry, or what
/// it referred to itself if it has none.
pub open spec fn next_parent(parent_id: Option<Seq<char>>, entry: serde_json::Value) -> Option<
    Seq<char>,
> {
    match member_of(entry, "id"@) {
        Some(id) => match text_of(id) {
            Some(id) => Some(id),
            None => parent_id,
        },
        None => parent_id,
    }
}

/// The parent of the `n`th of some JSON entries in a chain.
pub open spec fn json_parent(
    parent_id: Option<Seq<char>>,
    entries: Seq<serde_json::Value>,
    n: nat,
) -> Option<Seq<char>>
    decreases n,
{
    if n == 0 {
        parent_id
    } else {
        next_parent(json_parent(parent_id, entries, (n - 1) as nat), entries[n - 1])
    }
}

/// Whether a JSON entry is another with a parent: an object has it as a member,
/// any other value has nothing to hold it.
pub open spec fn is_json_child(
    child: serde_json::Value,
    entry: serde_json::Value,
    parent_id: Option<Seq<char>>,
) -> bool {
    match members_of(entry) {
        Some(members) => members_of(child) == Some(
            members.insert("parentId"@, text_value(parent_id)),
        ),
        None => child == entry,
    }
}

/// Whether a JSON entry can be read to refer to a parent: its member holds the
/// text of the parent, or null where there is none.
pub open spec fn refers_to(entry: serde_json::Value, parent_id: Option<Seq<char>>) -> bool {
    member_of(entry, "parentId"@) matches Some(value) && text_of(value) == parent_id && null_of(
        value,
    ) == (parent_id is None)
}

/// Puts JSON entries in a chain: each refers to the last one before it that has
/// an id, the first to the parent.
pub fn chain_entries(parent_id: Option<String>, items: &Vec<Json>) -> (r: Vec<Json>)
    ensures
        r.len() == items.len(),
        forall|i: int|
            0 <= i < items.len() ==> is_json_child(
                (#[trigger] r[i]).deep_view(),
                items[i].deep_view(),
                json_parent(parent_id.deep_view(), items.deep_view(), i as nat),
            ),
        forall|i: int|
            0 <= i < items.len() && members_of(items[i].deep_view()) is Some ==> refers_to(
                (#[trigger] r[i]).deep_view(),
                json_parent(parent_id.deep_view(), items.deep_view(), i as nat),
            ),
{
    let ghost first = parent_id.deep_view();
    let mut parent = parent_id;
    let mut result: Vec<Json> = Vec::new();
    let mut i: usize = 0;
    proof {
        reveal_strlit("id");
        reveal_strlit("parentId");
        assert("id"@.len() != "parentId"@.len());
    }
    while i < items.len()
        invariant
            i <= items.len(),
            result.len() == i,
            "id"@ != "parentId"@,
            parent.deep_view() == json_parent(first, items.deep_view(), i as nat),
            forall|k: int|
                0 <= k < i ==> is_json_child(
                    (#[trigger] result[k]).deep_view(),
                    items[k].deep_view(),
                    json_parent(first, items.deep_view(), k as nat),
                ),
            forall|k: int|
                0 <= k < i && members_of(items[k].deep_view()) is Some ==> refers_to(
                    (#[trigger] result[k]).deep_view(),
                    json_parent(first, items.deep_view(), k as nat),
                ),
        decreases items.len() - i,
    {
        let mut entry = items[i].clone();
        set_member(&mut entry, "parentId", from_text(parent.clone()));
        if let Some(id) = member(&entry, "id") {
            if let Some(id) = text(&id) {
                parent = Some(id);
            }
        }
        result.push(entry);
        i += 1;
    }
    result
}

} // verus!
