//! How what was stored is told.

use crate::laws::acceptance::parent_of;
use crate::model::event::{HarnessEventView, PlannedEventView};
use crate::model::message::{AgentMessageView, StopReason};
use crate::model::storage::{CommitResultView, EntryView, NewEntryView};
use crate::transcript::{
    any_pending, committed_events, emitted, emitted_one, entry_of, lifecycle, materialized,
};
use vstd::prelude::*;

verus! {

/// An entry is stored as it was made, with its number in the log and the time of the
/// commit.
pub proof fn law_an_entry_is_stored_as_it_was_made(entry: NewEntryView, seq: u64, timestamp: u64)
    ensures
        ({
            let stored = materialized(entry, seq, timestamp);
            &&& stored.base().id == entry.id()
            &&& stored.base().parent_id == parent_of(entry)
            &&& stored.base().seq == seq
            &&& stored.base().timestamp == timestamp
            &&& match (entry, stored) {
                (NewEntryView::Message(made), EntryView::Message(kept)) => kept.message
                    == made.message && kept.terminate == made.terminate && kept.base.custom_type
                    == made.custom_type,
                (NewEntryView::Compaction(made), EntryView::Compaction(kept)) => kept.summary
                    == made.summary && kept.retained_tail == made.retained_tail
                    && kept.tokens_before == made.tokens_before && kept.details == made.details
                    && kept.usage == made.usage && kept.from_hook == made.from_hook
                    && kept.base.custom_type == made.custom_type,
                (NewEntryView::BranchSummary(made), EntryView::BranchSummary(kept)) => kept.from_id
                    == made.from_id && kept.summary == made.summary && kept.details == made.details
                    && kept.usage == made.usage && kept.from_hook == made.from_hook
                    && kept.base.custom_type == made.custom_type,
                (NewEntryView::Custom(made), EntryView::Custom(kept)) => kept.data == made.data
                    && kept.base.custom_type == Some(made.custom_type),
                _ => false,
            }
        }),
{
}

/// What is told of a stored entry: that it was added, and of a message, before that, its
/// start and its end, which names the entry.
pub proof fn law_an_entry_is_told_of_when_it_is_stored(
    entry: EntryView,
    lane: Seq<char>,
    run_id: Option<Seq<char>>,
)
    ensures
        ({
            let events = lifecycle(entry, lane, run_id);
            let added = HarnessEventView::EntryAdded { lane, entry, recovery: None };
            match entry {
                EntryView::Message(kept) => events == seq![
                    HarnessEventView::MessageStart {
                        lane,
                        run_id,
                        message: kept.message,
                        recovery: None,
                    },
                    HarnessEventView::MessageEnd {
                        lane,
                        run_id,
                        message: kept.message,
                        entry_id: Some(entry.base().id),
                        recovery: None,
                    },
                    added,
                ],
                _ => events == seq![added],
            }
        }),
{
}

/// What a commit tells of an event that was planned for it. The numbers, times and totals
/// come from the commit, by the place of the write that the event is about.
pub proof fn law_events_take_their_numbers_from_the_commit(
    event: PlannedEventView,
    commit: CommitResultView,
)
    ensures
        match event {
            PlannedEventView::Ready(ready) => emitted_one(event, commit) == seq![ready],
            PlannedEventView::Lifecycle { entry, write_index, lane, run_id } => {
                write_index < commit.seqs.len() ==> emitted_one(event, commit) == lifecycle(
                    materialized(entry, commit.seqs[write_index as int], commit.timestamp),
                    lane,
                    run_id,
                )
            },
            PlannedEventView::Added { entry, write_index, lane, recovery } => {
                write_index < commit.seqs.len() ==> emitted_one(event, commit) == seq![
                    HarnessEventView::EntryAdded {
                        lane,
                        entry: materialized(
                            entry,
                            commit.seqs[write_index as int],
                            commit.timestamp,
                        ),
                        recovery,
                    },
                ]
            },
            PlannedEventView::Ledger { row, write_index, lane } => {
                write_index < commit.seqs.len() ==> (emitted_one(event, commit).len() == 1 && (
                emitted_one(event, commit)[0] matches HarnessEventView::Usage {
                    lane: of,
                    row: told,
                    totals,
                } && of == lane && totals == commit.stats.usage && told.seq
                    == commit.seqs[write_index as int] && told.id == row.id && told.usage
                    == row.usage && told.entry_id == row.entry_id && told.adjustment
                    == row.adjustment && told.details == row.details))
            },
            PlannedEventView::CompactionStarted { lane, run_id, reason } => emitted_one(
                event,
                commit,
            ) == seq![
                HarnessEventView::CompactionStart {
                    lane,
                    run_id,
                    reason,
                    started_at: commit.timestamp,
                    recovery: None,
                },
            ],
        },
{
}

/// The events of a commit are told in the order of the plan.
pub proof fn law_events_are_told_in_the_order_of_the_plan(
    first: Seq<PlannedEventView>,
    event: PlannedEventView,
    commit: CommitResultView,
)
    ensures
        emitted(Seq::empty(), commit) == Seq::<HarnessEventView>::empty(),
        emitted(first.push(event), commit) == emitted(first, commit) + emitted_one(event, commit),
{
    assert(first.push(event).drop_last() =~= first);
}

/// The events of stored entries are told entry by entry, each by the number of its write.
pub proof fn law_entries_are_told_of_in_order(
    entries: Seq<NewEntryView>,
    entry: NewEntryView,
    commit: CommitResultView,
    lane: Seq<char>,
    run_id: Option<Seq<char>>,
    first_write_index: int,
)
    ensures
        0 <= first_write_index + entries.len() < commit.seqs.len() ==> committed_events(
            entries.push(entry),
            commit,
            lane,
            run_id,
            first_write_index,
        ) == committed_events(entries, commit, lane, run_id, first_write_index) + lifecycle(
            materialized(
                entry,
                commit.seqs[first_write_index + entries.len()],
                commit.timestamp,
            ),
            lane,
            run_id,
        ),
{
    assert(entries.push(entry).drop_last() =~= entries);
}

/// Looking for an entry finds the first of its id, and nothing just if there is none.
pub proof fn law_an_entry_is_found_by_its_id(entries: Seq<EntryView>, id: Seq<char>)
    ensures
        match entry_of(entries, id) {
            Some(entry) => exists|i: int|
                0 <= i < entries.len() && #[trigger] entries[i] == entry && entry.base().id == id
                    && forall|j: int| 0 <= j < i ==> (#[trigger] entries[j]).base().id != id,
            None => forall|j: int| 0 <= j < entries.len() ==> (#[trigger] entries[j]).base().id
                != id,
        },
    decreases entries.len(),
{
    if entries.len() > 0 {
        let rest = entries.drop_last();
        law_an_entry_is_found_by_its_id(rest, id);
        assert forall|j: int| 0 <= j < rest.len() implies rest[j] == #[trigger] entries[j] by {}
        match entry_of(rest, id) {
            Some(entry) => {
                let i = choose|i: int|
                    0 <= i < rest.len() && #[trigger] rest[i] == entry && entry.base().id == id
                        && forall|j: int| 0 <= j < i ==> (#[trigger] rest[j]).base().id != id;
                assert(entries[i] == entry);
                assert forall|j: int| 0 <= j < i implies (#[trigger] entries[j]).base().id
                    != id by {
                    assert(rest[j] == entries[j]);
                }
            },
            None => {
                let last = entries.len() - 1;
                assert forall|j: int| 0 <= j < last implies (#[trigger] entries[j]).base().id
                    != id by {
                    assert(rest[j] == entries[j]);
                }
                assert(entries[last] == entries.last());
            },
        }
    }
}

/// A message is unfinished just if it is of the assistant and still pending.
pub proof fn law_only_a_pending_assistant_is_unfinished(messages: Seq<AgentMessageView>)
    ensures
        any_pending(messages) <==> exists|i: int|
            0 <= i < messages.len() && (#[trigger] messages[i] matches AgentMessageView::Assistant(
                message,
            ) && message.stop_reason == StopReason::Pending),
{
    if any_pending(messages) {
        let i = choose|i: int|
            0 <= i < messages.len() && crate::transcript::is_pending(#[trigger] messages[i]);
        assert(messages[i] is Assistant);
    }
}

} // verus!
