//! What a run boundary takes from the inbox.

use crate::drive::boundary::{
    any_projects, boundary_plan, boundary_selection, distinct_ids, first_selection,
    law_a_boundary_splits_the_inbox, lemma_filter_agrees, lemma_filter_distinct, lemma_in_filter,
    lemma_loaded_len, lemma_ordered, lemma_same_id, lemma_taken, loaded_all, projects, trigger_of,
};
use crate::inbox::{item_ids, lane_queues, loaded, of_kind, payload_of, taken};
use crate::model::session::{
    InboxItemKind, InboxItemView, OperationScopeView, PendingEntryView, QueueMode,
};
use crate::model::storage::{
    AddressView, DurableValueView, NewCustomEntryView, NewEntryView, NewMessageEntryView, WriteView,
};
use crate::types::{BoundaryPlacementView, PendingPayloadView, PendingRowView};
use vstd::prelude::*;

verus! {

/// Whether storage holds a pending entry under an id: the first row of the id does.
pub open spec fn stored(
    rows: Seq<PendingRowView>,
    entry_id: Seq<char>,
    entry: PendingEntryView,
) -> bool {
    exists|r: int|
        0 <= r < rows.len() && (#[trigger] rows[r]).entry_id == entry_id && rows[r].payload
            == PendingPayloadView::Decoded(entry) && forall|q: int|
            0 <= q < r ==> (#[trigger] rows[q]).entry_id != entry_id
}

/// Whether a model reads an entry: every message, and custom entries of the types
/// that are projected.
pub open spec fn is_read(projectors: Seq<Seq<char>>, entry: PendingEntryView) -> bool {
    entry is Message || (entry matches PendingEntryView::Custom { custom_type, .. }
        && projectors.contains(custom_type))
}

/// Whether a queued entry enters the transcript.
pub open spec fn enters(placement: BoundaryPlacementView, item: InboxItemView) -> bool {
    exists|e: int|
        0 <= e < placement.entries.len() && (#[trigger] placement.entries[e]).id()
            == item.entry_id
}

/// Whether an entry is the first of its kind in the inbox.
pub open spec fn first_of_kind(inbox: Seq<InboxItemView>, k: int) -> bool {
    forall|j: int| 0 <= j < k ==> (#[trigger] inbox[j]).kind != inbox[k].kind
}

proof fn lemma_stored(rows: Seq<PendingRowView>, entry_id: Seq<char>)
    ensures
        match payload_of(rows, entry_id) {
            Some(payload) => exists|r: int|
                0 <= r < rows.len() && (#[trigger] rows[r]).entry_id == entry_id
                    && rows[r].payload == payload && forall|q: int|
                    0 <= q < r ==> (#[trigger] rows[q]).entry_id != entry_id,
            None => forall|q: int|
                0 <= q < rows.len() ==> (#[trigger] rows[q]).entry_id != entry_id,
        },
    decreases rows.len(),
{
    if rows.len() > 0 {
        let rest = rows.drop_last();
        lemma_stored(rest, entry_id);
        match payload_of(rest, entry_id) {
            Some(payload) => {
                let r = choose|r: int|
                    0 <= r < rest.len() && (#[trigger] rest[r]).entry_id == entry_id
                        && rest[r].payload == payload && forall|q: int|
                        0 <= q < r ==> (#[trigger] rest[q]).entry_id != entry_id;
                assert(rows[r] == rest[r]);
                assert forall|q: int| 0 <= q < r implies (#[trigger] rows[q]).entry_id
                    != entry_id by {
                    assert(rest[q] == rows[q]);
                }
            },
            None => {
                let r = rows.len() - 1;
                assert forall|q: int| 0 <= q < r implies (#[trigger] rows[q]).entry_id
                    != entry_id by {
                    assert(rest[q] == rows[q]);
                }
                if rows[r].entry_id == entry_id {
                    assert(rows[r].payload == rows.last().payload);
                }
            },
        }
    }
}

/// What is stored under an id is what is loaded for it, and nothing else.
pub proof fn lemma_stored_is_loaded(
    rows: Seq<PendingRowView>,
    entry_id: Seq<char>,
    entry: PendingEntryView,
)
    ensures
        stored(rows, entry_id, entry) <==> payload_of(rows, entry_id) == Some(
            PendingPayloadView::Decoded(entry),
        ),
{
    lemma_stored(rows, entry_id);
    if let Some(payload) = payload_of(rows, entry_id) {
        let r = choose|r: int|
            0 <= r < rows.len() && (#[trigger] rows[r]).entry_id == entry_id && rows[r].payload
                == payload && forall|q: int|
                0 <= q < r ==> (#[trigger] rows[q]).entry_id != entry_id;
        if stored(rows, entry_id, entry) {
            let s = choose|s: int|
                0 <= s < rows.len() && (#[trigger] rows[s]).entry_id == entry_id
                    && rows[s].payload == PendingPayloadView::Decoded(entry) && forall|q: int|
                    0 <= q < s ==> (#[trigger] rows[q]).entry_id != entry_id;
            assert(r == s) by {
                if r < s {
                    assert(rows[r].entry_id != entry_id);
                }
                if s < r {
                    assert(rows[s].entry_id != entry_id);
                }
            }
        }
        if payload == PendingPayloadView::Decoded(entry) {
            assert(rows[r].entry_id == entry_id);
        }
    }
}

proof fn lemma_loaded_each(rows: Seq<PendingRowView>, items: Seq<InboxItemView>, i: int)
    requires
        loaded_all(rows, items) is Ok,
        0 <= i < items.len(),
    ensures
        loaded_all(rows, items)->Ok_0.len() == items.len(),
        loaded(rows, items[i], "Queued "@) == Ok::<PendingEntryView, Seq<char>>(
            loaded_all(rows, items)->Ok_0[i],
        ),
    decreases items.len(),
{
    lemma_loaded_len(rows, items);
    lemma_loaded_len(rows, items.drop_last());
    if i < items.len() - 1 {
        lemma_loaded_each(rows, items.drop_last(), i);
    }
}

proof fn lemma_filter_first<A>(items: Seq<A>, keep: spec_fn(A) -> bool, k: int)
    requires
        0 <= k < items.len(),
        keep(items[k]),
        forall|j: int| 0 <= j < k ==> !keep(#[trigger] items[j]),
    ensures
        items.filter(keep).len() > 0,
        items.filter(keep)[0] == items[k],
    decreases items.len(),
{
    reveal(Seq::filter);
    let rest = items.drop_last();
    if k < rest.len() {
        assert forall|j: int| 0 <= j < k implies !keep(#[trigger] rest[j]) by {
            assert(rest[j] == items[j]);
        }
        lemma_filter_first(rest, keep, k);
    } else {
        assert(rest.filter(keep).len() == 0) by {
            if rest.filter(keep).len() > 0 {
                let item = rest.filter(keep)[0];
                assert(rest.filter(keep).contains(item));
                lemma_in_filter(rest, keep, item);
                let j = rest.index_of(item);
                assert(items[j] == item);
            }
        }
    }
}

proof fn lemma_earliest<A>(items: Seq<A>, keep: spec_fn(A) -> bool, k: int) -> (m: int)
    requires
        0 <= k < items.len(),
        keep(items[k]),
    ensures
        0 <= m <= k,
        keep(items[m]),
        forall|j: int| 0 <= j < m ==> !keep(#[trigger] items[j]),
    decreases k,
{
    if exists|j: int| 0 <= j < k && keep(#[trigger] items[j]) {
        let j = choose|j: int| 0 <= j < k && keep(#[trigger] items[j]);
        lemma_earliest(items, keep, j)
    } else {
        k
    }
}

proof fn lemma_taken_members(
    inbox: Seq<InboxItemView>,
    kind: InboxItemKind,
    mode: QueueMode,
    k: int,
)
    requires
        distinct_ids(inbox),
        0 <= k < inbox.len(),
    ensures
        taken(of_kind(inbox, kind), mode).contains(inbox[k]) <==> inbox[k].kind == kind && (mode
            == QueueMode::All || first_of_kind(inbox, k)),
{
    let keep = |item: InboxItemView| item.kind == kind;
    let all = of_kind(inbox, kind);
    let some = taken(all, mode);
    let item = inbox[k];
    assert(inbox.contains(item));
    lemma_in_filter(inbox, keep, item);
    if item.kind == kind {
        let m = lemma_earliest(inbox, keep, k);
        lemma_filter_first(inbox, keep, m);
        if mode == QueueMode::OneAtATime {
            assert(some[0] == all[0]);
            assert(some.len() == 1);
            if first_of_kind(inbox, k) {
                assert(m == k) by {
                    if m < k {
                        assert(inbox[m].kind != inbox[k].kind);
                    }
                }
            } else {
                let j = choose|j: int| 0 <= j < k && (#[trigger] inbox[j]).kind == inbox[k].kind;
                assert(m < k) by {
                    if m == k {
                        assert(!keep(inbox[j]));
                    }
                }
                assert(inbox[m].entry_id != inbox[k].entry_id);
            }
            if some.contains(item) {
                assert(some[0] == item);
            }
        }
    } else if some.contains(item) {
        let i = some.index_of(item);
        assert(all[i] == item);
        assert(all.contains(item));
    }
}

/// Whether a boundary goes on to follow-ups: it may, nothing steers the run, and no
/// write that is queued is read by a model.
pub open spec fn is_quiet(
    projectors: Seq<Seq<char>>,
    inbox: Seq<InboxItemView>,
    rows: Seq<PendingRowView>,
    may_finish: bool,
) -> bool {
    &&& may_finish
    &&& forall|j: int| 0 <= j < inbox.len() ==> (#[trigger] inbox[j]).kind != InboxItemKind::Steer
    &&& forall|j: int, entry: PendingEntryView|
        0 <= j < inbox.len() && (#[trigger] inbox[j]).kind == InboxItemKind::Write
            && #[trigger] stored(rows, inbox[j].entry_id, entry) ==> !is_read(projectors, entry)
}

proof fn lemma_first_members(
    inbox: Seq<InboxItemView>,
    mode: QueueMode,
    k: int,
)
    requires
        distinct_ids(inbox),
        0 <= k < inbox.len(),
    ensures
        first_selection(inbox, mode).contains(inbox[k]) <==> inbox[k].kind == InboxItemKind::Write
            || (inbox[k].kind == InboxItemKind::Steer && (mode == QueueMode::All
            || first_of_kind(inbox, k))),
{
    let steers = taken(of_kind(inbox, InboxItemKind::Steer), mode);
    let steer_ids = item_ids(steers);
    let keep = |item: InboxItemView|
        item.kind == InboxItemKind::Write || steer_ids.contains(item.entry_id);
    let item = inbox[k];
    assert(inbox.contains(item));
    lemma_in_filter(inbox, keep, item);
    lemma_taken(inbox, InboxItemKind::Steer, mode);
    lemma_taken_members(inbox, InboxItemKind::Steer, mode, k);
    if steer_ids.contains(item.entry_id) {
        let i = steer_ids.index_of(item.entry_id);
        assert(inbox.contains(steers[i]));
        lemma_same_id(inbox, item, steers[i]);
        assert(steers.contains(item));
    }
    if steers.contains(item) {
        let i = steers.index_of(item);
        assert(steer_ids[i] == item.entry_id);
    }
}

proof fn lemma_selected(
    projectors: Seq<Seq<char>>,
    inbox: Seq<InboxItemView>,
    scope: OperationScopeView,
    rows: Seq<PendingRowView>,
    may_finish: bool,
    k: int,
)
    requires
        distinct_ids(inbox),
        boundary_selection(projectors, inbox, scope, rows, may_finish) is Ok,
        0 <= k < inbox.len(),
    ensures
        ({
            let items = boundary_selection(projectors, inbox, scope, rows, may_finish)->Ok_0;
            items.contains(inbox[k]) <==> match inbox[k].kind {
                InboxItemKind::Write => true,
                InboxItemKind::NextRun => false,
                InboxItemKind::Steer => scope.settings.steering_mode == QueueMode::All
                    || first_of_kind(inbox, k),
                InboxItemKind::FollowUp => is_quiet(projectors, inbox, rows, may_finish) && (
                scope.settings.follow_up_mode == QueueMode::All || first_of_kind(inbox, k)),
            }
        }),
{
    let steering_mode = scope.settings.steering_mode;
    let follow_up_mode = scope.settings.follow_up_mode;
    let first = first_selection(inbox, steering_mode);
    let entries = loaded_all(rows, first)->Ok_0;
    let items = boundary_selection(projectors, inbox, scope, rows, may_finish)->Ok_0;
    lemma_first_members(inbox, steering_mode, k);
    assert(any_projects(projectors, entries) == !is_quiet(projectors, inbox, rows, true)) by {
        lemma_loaded_len(rows, first);
        if any_projects(projectors, entries) {
            let i = choose|i: int|
                0 <= i < entries.len() && projects(projectors, #[trigger] entries[i]);
            lemma_loaded_each(rows, first, i);
            lemma_stored_is_loaded(rows, first[i].entry_id, entries[i]);
            assert(first.contains(first[i]));
            let steer_ids = item_ids(taken(of_kind(inbox, InboxItemKind::Steer), steering_mode));
            let keep = |item: InboxItemView|
                item.kind == InboxItemKind::Write || steer_ids.contains(item.entry_id);
            lemma_in_filter(inbox, keep, first[i]);
            let j = inbox.index_of(first[i]);
            lemma_first_members(inbox, steering_mode, j);
            assert(inbox[j] == first[i]);
            assert(stored(rows, inbox[j].entry_id, entries[i]));
        }
        if !is_quiet(projectors, inbox, rows, true) {
            if exists|j: int| 0 <= j < inbox.len() && (#[trigger] inbox[j]).kind
                == InboxItemKind::Steer {
                let any = choose|j: int|
                    0 <= j < inbox.len() && (#[trigger] inbox[j]).kind == InboxItemKind::Steer;
                let steer = |item: InboxItemView| item.kind == InboxItemKind::Steer;
                let j = lemma_earliest(inbox, steer, any);
                assert(first_of_kind(inbox, j)) by {
                    assert forall|i: int| 0 <= i < j implies (#[trigger] inbox[i]).kind
                        != inbox[j].kind by {
                        assert(!steer(inbox[i]));
                    }
                }
                lemma_first_members(inbox, steering_mode, j);
                let i = first.index_of(inbox[j]);
                lemma_loaded_each(rows, first, i);
                assert(projects(projectors, entries[i]));
            } else {
                let (j, entry) = choose|j: int, entry: PendingEntryView|
                    0 <= j < inbox.len() && (#[trigger] inbox[j]).kind == InboxItemKind::Write
                        && #[trigger] stored(rows, inbox[j].entry_id, entry) && is_read(
                        projectors,
                        entry,
                    );
                lemma_first_members(inbox, steering_mode, j);
                let i = first.index_of(inbox[j]);
                lemma_loaded_each(rows, first, i);
                lemma_stored_is_loaded(rows, inbox[j].entry_id, entry);
                assert(projects(projectors, entries[i]));
            }
        }
    }
    if may_finish && !any_projects(projectors, entries) {
        let follow_ups = taken(of_kind(inbox, InboxItemKind::FollowUp), follow_up_mode);
        let both = first + follow_ups;
        let steer_ids = item_ids(taken(of_kind(inbox, InboxItemKind::Steer), steering_mode));
        let keep = |item: InboxItemView|
            item.kind == InboxItemKind::Write || steer_ids.contains(item.entry_id);
        lemma_taken(inbox, InboxItemKind::FollowUp, follow_up_mode);
        lemma_taken_members(inbox, InboxItemKind::FollowUp, follow_up_mode, k);
        assert(inbox.no_duplicates());
        lemma_filter_distinct(inbox, keep);
        assert forall|i: int| 0 <= i < first.len() implies inbox.contains(#[trigger] first[i])
            && first[i].kind != InboxItemKind::FollowUp by {
            assert(first.contains(first[i]));
            lemma_in_filter(inbox, keep, first[i]);
            let j = inbox.index_of(first[i]);
            lemma_first_members(inbox, steering_mode, j);
        }
        assert forall|i: int| 0 <= i < both.len() implies inbox.contains(#[trigger] both[i]) by {
            if i < first.len() {
                assert(inbox.contains(first[i]));
            }
        }
        assert forall|i: int, j: int| 0 <= i < j < both.len() implies both[i] != both[j] by {
            if i < first.len() && first.len() <= j {
                assert(first[i].kind != InboxItemKind::FollowUp);
                assert(follow_ups[j - first.len()].kind == InboxItemKind::FollowUp);
            } else if i < first.len() {
                assert(first[i] != first[j]);
            } else {
                assert(follow_ups[i - first.len()] != follow_ups[j - first.len()]);
            }
        }
        let member = |other: InboxItemView| both.contains(other);
        lemma_ordered(inbox, both, inbox.len());
        assert(inbox.take(inbox.len() as int) =~= inbox);
        assert(inbox.contains(inbox[k]));
        lemma_in_filter(inbox, member, inbox[k]);
        if both.contains(inbox[k]) {
            let i = both.index_of(inbox[k]);
            if i < first.len() {
                assert(first.contains(inbox[k]));
            } else {
                assert(follow_ups[i - first.len()] == inbox[k]);
                assert(follow_ups.contains(inbox[k]));
            }
        }
        if first.contains(inbox[k]) {
            assert(both[first.index_of(inbox[k])] == inbox[k]);
        }
        if follow_ups.contains(inbox[k]) {
            assert(both[first.len() + follow_ups.index_of(inbox[k])] == inbox[k]);
        }
    }
}

/// What a run boundary takes from the inbox. Every queued write enters the
/// transcript, and nothing that waits for the next run does. Of the steers all enter
/// if the run takes them all, and just the first if it takes them one at a time.
/// Follow-ups enter likewise by their own mode, but only where the run may finish and
/// nothing else that enters is read by a model. What does not enter stays queued, in
/// order.
pub proof fn law_a_boundary_takes_by_kind_and_mode(
    projectors: Seq<Seq<char>>,
    lane: Seq<char>,
    inbox: Seq<InboxItemView>,
    scope: OperationScopeView,
    rows: Seq<PendingRowView>,
    tip_id: Option<Seq<char>>,
    may_finish: bool,
    k: int,
)
    requires
        distinct_ids(inbox),
        boundary_plan(projectors, lane, inbox, scope, rows, tip_id, may_finish) is Ok,
        0 <= k < inbox.len(),
    ensures
        ({
            let placement = boundary_plan(
                projectors,
                lane,
                inbox,
                scope,
                rows,
                tip_id,
                may_finish,
            )->Ok_0;
            &&& enters(placement, inbox[k]) <==> match inbox[k].kind {
                InboxItemKind::Write => true,
                InboxItemKind::NextRun => false,
                InboxItemKind::Steer => match scope.settings.steering_mode {
                    QueueMode::All => true,
                    QueueMode::OneAtATime => first_of_kind(inbox, k),
                },
                InboxItemKind::FollowUp => is_quiet(projectors, inbox, rows, may_finish)
                    && match scope.settings.follow_up_mode {
                    QueueMode::All => true,
                    QueueMode::OneAtATime => first_of_kind(inbox, k),
                },
            }
            &&& placement.inbox == inbox.filter(|item: InboxItemView| !enters(placement, item))
        }),
{
    let items = boundary_selection(projectors, inbox, scope, rows, may_finish)->Ok_0;
    let placement = boundary_plan(
        projectors,
        lane,
        inbox,
        scope,
        rows,
        tip_id,
        may_finish,
    )->Ok_0;
    lemma_selected(projectors, inbox, scope, rows, may_finish, k);
    lemma_loaded_len(rows, items);
    assert forall|j: int| 0 <= j < inbox.len() implies enters(placement, #[trigger] inbox[j])
        == items.contains(inbox[j]) by {
        lemma_enters(projectors, lane, inbox, scope, rows, tip_id, may_finish, j);
    }
    let ids = item_ids(items);
    let left = |item: InboxItemView| !ids.contains(item.entry_id);
    let stays = |item: InboxItemView| !enters(placement, item);
    assert forall|j: int| 0 <= j < inbox.len() implies left(#[trigger] inbox[j]) == stays(
        inbox[j],
    ) by {
        lemma_enters(projectors, lane, inbox, scope, rows, tip_id, may_finish, j);
    }
    lemma_filter_agrees(inbox, left, stays);
}

proof fn lemma_enters(
    projectors: Seq<Seq<char>>,
    lane: Seq<char>,
    inbox: Seq<InboxItemView>,
    scope: OperationScopeView,
    rows: Seq<PendingRowView>,
    tip_id: Option<Seq<char>>,
    may_finish: bool,
    j: int,
)
    requires
        distinct_ids(inbox),
        boundary_plan(projectors, lane, inbox, scope, rows, tip_id, may_finish) is Ok,
        0 <= j < inbox.len(),
    ensures
        ({
            let placement = boundary_plan(
                projectors,
                lane,
                inbox,
                scope,
                rows,
                tip_id,
                may_finish,
            )->Ok_0;
            let items = boundary_selection(projectors, inbox, scope, rows, may_finish)->Ok_0;
            &&& enters(placement, inbox[j]) == items.contains(inbox[j])
            &&& enters(placement, inbox[j]) == item_ids(items).contains(inbox[j].entry_id)
        }),
{
    let placement = boundary_plan(
        projectors,
        lane,
        inbox,
        scope,
        rows,
        tip_id,
        may_finish,
    )->Ok_0;
    let items = boundary_selection(projectors, inbox, scope, rows, may_finish)->Ok_0;
    let ids = item_ids(items);
    let item = inbox[j];
    lemma_loaded_len(rows, items);
    assert(inbox.contains(item));
    if enters(placement, item) {
        let e = choose|e: int|
            0 <= e < placement.entries.len() && (#[trigger] placement.entries[e]).id()
                == item.entry_id;
        assert(ids[e] == item.entry_id);
        assert(items.contains(items[e]));
        law_a_boundary_splits_the_inbox(
            projectors,
            inbox,
            scope,
            rows,
            may_finish,
            items[e],
        );
        lemma_same_id(inbox, item, items[e]);
    }
    if ids.contains(item.entry_id) {
        let e = ids.index_of(item.entry_id);
        assert(placement.entries[e].id() == item.entry_id);
    }
    if items.contains(item) {
        let e = items.index_of(item);
        assert(ids[e] == item.entry_id);
    }
}

/// The entry that a pending one becomes.
pub open spec fn made_of(
    entry: NewEntryView,
    entry_id: Seq<char>,
    parent_id: Option<Seq<char>>,
    pending: PendingEntryView,
) -> bool {
    entry == match pending {
        PendingEntryView::Message { payload } => NewEntryView::Message(
            NewMessageEntryView {
                id: entry_id,
                parent_id,
                custom_type: None,
                message: payload,
                terminate: None,
            },
        ),
        PendingEntryView::Custom { custom_type, payload } => NewEntryView::Custom(
            NewCustomEntryView { id: entry_id, parent_id, custom_type, data: payload },
        ),
    }
}

proof fn lemma_trigger(
    projectors: Seq<Seq<char>>,
    items: Seq<InboxItemView>,
    entries: Seq<PendingEntryView>,
)
    requires
        items.len() <= entries.len(),
    ensures
        match trigger_of(projectors, items, entries) {
            None => forall|i: int| 0 <= i < items.len() ==> !is_read(projectors, #[trigger] entries[i]),
            Some(id) => exists|i: int|
                0 <= i < items.len() && is_read(projectors, #[trigger] entries[i])
                    && items[i].entry_id == id && forall|j: int|
                    i < j < items.len() ==> !is_read(projectors, #[trigger] entries[j]),
        },
    decreases items.len(),
{
    if items.len() > 0 {
        let last = items.len() - 1;
        if is_read(projectors, entries[last]) {
            assert(items[last].entry_id == items.last().entry_id);
        } else {
            lemma_trigger(projectors, items.drop_last(), entries);
            if let Some(id) = trigger_of(projectors, items.drop_last(), entries) {
                let i = choose|i: int|
                    0 <= i < items.drop_last().len() && is_read(projectors, #[trigger] entries[i])
                        && items.drop_last()[i].entry_id == id && forall|j: int|
                        i < j < items.drop_last().len() ==> !is_read(
                            projectors,
                            #[trigger] entries[j],
                        );
                assert(items[i].entry_id == id && is_read(projectors, entries[i]));
            }
        }
    }
}

/// Each queued entry that a run boundary takes enters the transcript under its own
/// id, with what is stored for it, behind the one before it and the first behind the
/// tip.
pub proof fn law_a_boundary_appends_what_it_takes(
    projectors: Seq<Seq<char>>,
    lane: Seq<char>,
    inbox: Seq<InboxItemView>,
    scope: OperationScopeView,
    rows: Seq<PendingRowView>,
    tip_id: Option<Seq<char>>,
    may_finish: bool,
    e: int,
)
    requires
        distinct_ids(inbox),
        boundary_plan(projectors, lane, inbox, scope, rows, tip_id, may_finish) is Ok,
        0 <= e < boundary_plan(
            projectors,
            lane,
            inbox,
            scope,
            rows,
            tip_id,
            may_finish,
        )->Ok_0.entries.len(),
    ensures
        ({
            let placement = boundary_plan(
                projectors,
                lane,
                inbox,
                scope,
                rows,
                tip_id,
                may_finish,
            )->Ok_0;
            let entries = placement.entries;
            let n = entries.len();
            exists|k: int, pending: PendingEntryView|
                0 <= k < inbox.len() && #[trigger] stored(rows, inbox[k].entry_id, pending)
                    && made_of(
                    entries[e],
                    inbox[k].entry_id,
                    if e == 0 {
                        tip_id
                    } else {
                        Some(entries[e - 1].id())
                    },
                    pending,
                )
        }),
{
    let placement = boundary_plan(
        projectors,
        lane,
        inbox,
        scope,
        rows,
        tip_id,
        may_finish,
    )->Ok_0;
    let entries = placement.entries;
    let n = entries.len();
    let items = boundary_selection(projectors, inbox, scope, rows, may_finish)->Ok_0;
    let loads = loaded_all(rows, items)->Ok_0;
    lemma_loaded_len(rows, items);
    assert(items.contains(items[e]));
    law_a_boundary_splits_the_inbox(projectors, inbox, scope, rows, may_finish, items[e]);
    let k = inbox.index_of(items[e]);
    lemma_loaded_each(rows, items, e);
    lemma_stored_is_loaded(rows, items[e].entry_id, loads[e]);
    assert(stored(rows, inbox[k].entry_id, loads[e]));
    if e > 0 {
        assert(entries[e - 1].id() == items[e - 1].entry_id);
    }
    assert(made_of(
        entries[e],
        inbox[k].entry_id,
        if e == 0 {
            tip_id
        } else {
            Some(entries[e - 1].id())
        },
        loads[e],
    ));
}

/// What a run boundary takes enters the transcript in the order of the inbox.
pub proof fn law_a_boundary_keeps_the_order(
    projectors: Seq<Seq<char>>,
    lane: Seq<char>,
    inbox: Seq<InboxItemView>,
    scope: OperationScopeView,
    rows: Seq<PendingRowView>,
    tip_id: Option<Seq<char>>,
    may_finish: bool,
    e: int,
    f: int,
    i: int,
    j: int,
)
    requires
        distinct_ids(inbox),
        boundary_plan(projectors, lane, inbox, scope, rows, tip_id, may_finish) is Ok,
        0 <= i < inbox.len(),
        0 <= j < inbox.len(),
    ensures
        ({
            let placement = boundary_plan(
                projectors,
                lane,
                inbox,
                scope,
                rows,
                tip_id,
                may_finish,
            )->Ok_0;
            let entries = placement.entries;
            let n = entries.len();
            0 <= e < f < n && entries[e].id() == inbox[i].entry_id && entries[f].id()
                == inbox[j].entry_id ==> i < j
        }),
{
    let placement = boundary_plan(
        projectors,
        lane,
        inbox,
        scope,
        rows,
        tip_id,
        may_finish,
    )->Ok_0;
    let entries = placement.entries;
    let n = entries.len();
    let items = boundary_selection(projectors, inbox, scope, rows, may_finish)->Ok_0;
    let loads = loaded_all(rows, items)->Ok_0;
    lemma_loaded_len(rows, items);
    if 0 <= e < f < n && entries[e].id() == inbox[i].entry_id && entries[f].id()
        == inbox[j].entry_id {
        let picked = |item: InboxItemView| items.contains(item);
        assert(items.contains(items[e]) && items.contains(items[f]));
        law_a_boundary_splits_the_inbox(projectors, inbox, scope, rows, may_finish, items[e]);
        law_a_boundary_splits_the_inbox(projectors, inbox, scope, rows, may_finish, items[f]);
        assert(inbox.contains(inbox[i]) && inbox.contains(inbox[j]));
        lemma_same_id(inbox, inbox[i], items[e]);
        lemma_same_id(inbox, inbox[j], items[f]);
        lemma_filter_order(inbox, picked, e, f, i, j);
    }
}

/// What a run boundary stores: each entry that it appends, that its payload is
/// dropped, and that the last is the tip. Where it appends nothing it stores nothing,
/// and the tip stays.
pub proof fn law_a_boundary_stores_what_it_appends(
    projectors: Seq<Seq<char>>,
    lane: Seq<char>,
    inbox: Seq<InboxItemView>,
    scope: OperationScopeView,
    rows: Seq<PendingRowView>,
    tip_id: Option<Seq<char>>,
    may_finish: bool,
)
    requires
        boundary_plan(projectors, lane, inbox, scope, rows, tip_id, may_finish) is Ok,
    ensures
        ({
            let placement = boundary_plan(
                projectors,
                lane,
                inbox,
                scope,
                rows,
                tip_id,
                may_finish,
            )->Ok_0;
            let entries = placement.entries;
            let n = entries.len();
            &&& placement.tip_id == if n == 0 {
                tip_id
            } else {
                Some(entries[n - 1].id())
            }
            &&& placement.writes.len() == if n == 0 {
                0
            } else {
                2 * n + 1
            }
            &&& forall|e: int|
                0 <= e < n ==> #[trigger] placement.writes[e] == WriteView::InsertEntry(entries[e])
            &&& forall|e: int|
                0 <= e < n ==> placement.writes[n + e] == (WriteView::DeleteValue {
                    address: AddressView::PendingEntry { entry_id: (#[trigger] entries[e]).id() },
                })
            &&& n > 0 ==> placement.writes[2 * n as int] == (WriteView::SetValue {
                address: AddressView::BranchTip { lane },
                value: DurableValueView::Tip(placement.tip_id),
            })
            &&& placement.queues is Some <==> n > 0
            &&& placement.queues matches Some(queues) ==> lane_queues(rows, placement.inbox) == Ok::<
                _,
                Seq<char>,
            >(queues)
        }),
{
    let placement = boundary_plan(
        projectors,
        lane,
        inbox,
        scope,
        rows,
        tip_id,
        may_finish,
    )->Ok_0;
    let entries = placement.entries;
    let n = entries.len();
    let items = boundary_selection(projectors, inbox, scope, rows, may_finish)->Ok_0;
    let loads = loaded_all(rows, items)->Ok_0;
    lemma_loaded_len(rows, items);
}

/// The next step of a run answers the last entry that a boundary appends and a model
/// reads. If there is none, nothing is to be answered.
pub proof fn law_a_boundary_answers_what_is_read_last(
    projectors: Seq<Seq<char>>,
    lane: Seq<char>,
    inbox: Seq<InboxItemView>,
    scope: OperationScopeView,
    rows: Seq<PendingRowView>,
    tip_id: Option<Seq<char>>,
    may_finish: bool,
)
    requires
        boundary_plan(projectors, lane, inbox, scope, rows, tip_id, may_finish) is Ok,
    ensures
        ({
            let placement = boundary_plan(
                projectors,
                lane,
                inbox,
                scope,
                rows,
                tip_id,
                may_finish,
            )->Ok_0;
            let entries = placement.entries;
            let n = entries.len();
            match placement.trigger_entry_id {
                Some(id) => exists|e: int|
                    0 <= e < n && (#[trigger] entries[e]).id() == id && reads_as(
                        projectors,
                        entries[e],
                    ) && forall|f: int| e < f < n ==> !reads_as(projectors, #[trigger] entries[f]),
                None => forall|e: int| 0 <= e < n ==> !reads_as(projectors, #[trigger] entries[e]),
            }
        }),
{
    let placement = boundary_plan(
        projectors,
        lane,
        inbox,
        scope,
        rows,
        tip_id,
        may_finish,
    )->Ok_0;
    let entries = placement.entries;
    let n = entries.len();
    let items = boundary_selection(projectors, inbox, scope, rows, may_finish)->Ok_0;
    let loads = loaded_all(rows, items)->Ok_0;
    lemma_loaded_len(rows, items);
    lemma_trigger(projectors, items, loads);
    assert forall|e: int| 0 <= e < n implies reads_as(projectors, #[trigger] entries[e])
        == is_read(projectors, loads[e]) by {}
    match placement.trigger_entry_id {
        Some(id) => {
            let e = choose|e: int|
                0 <= e < items.len() && is_read(projectors, #[trigger] loads[e])
                    && items[e].entry_id == id && forall|f: int|
                    e < f < items.len() ==> !is_read(projectors, #[trigger] loads[f]);
            assert(entries[e].id() == id && reads_as(projectors, entries[e]));
            assert forall|f: int| e < f < n implies !reads_as(
                projectors,
                #[trigger] entries[f],
            ) by {
                assert(!is_read(projectors, loads[f]));
            }
        },
        None => {
            assert forall|e: int| 0 <= e < n implies !reads_as(
                projectors,
                #[trigger] entries[e],
            ) by {
                assert(!is_read(projectors, loads[e]));
            }
        },
    }
}

/// Whether a model reads an entry that was appended.
pub open spec fn reads_as(projectors: Seq<Seq<char>>, entry: NewEntryView) -> bool {
    entry is Message || (entry matches NewEntryView::Custom(custom) && projectors.contains(
        custom.custom_type,
    ))
}

proof fn lemma_filter_order(
    inbox: Seq<InboxItemView>,
    keep: spec_fn(InboxItemView) -> bool,
    e: int,
    f: int,
    i: int,
    j: int,
)
    requires
        inbox.no_duplicates(),
        0 <= e < f < inbox.filter(keep).len(),
        0 <= i < inbox.len(),
        0 <= j < inbox.len(),
        inbox.filter(keep)[e] == inbox[i],
        inbox.filter(keep)[f] == inbox[j],
    ensures
        i < j,
    decreases inbox.len(),
{
    reveal(Seq::filter);
    let rest = inbox.drop_last();
    let last = inbox.len() - 1;
    let kept = rest.filter(keep);
    if f < kept.len() {
        assert(kept.contains(kept[e]) && kept.contains(kept[f]));
        lemma_in_filter(rest, keep, kept[e]);
        lemma_in_filter(rest, keep, kept[f]);
        let a = rest.index_of(kept[e]);
        let b = rest.index_of(kept[f]);
        assert(inbox[a] == inbox[i] && inbox[b] == inbox[j]);
        assert(a == i && b == j);
        lemma_filter_order(rest, keep, e, f, i, j);
    } else {
        assert(inbox[j] == inbox[last]);
        assert(j == last);
        assert(kept.contains(kept[e]));
        lemma_in_filter(rest, keep, kept[e]);
        let a = rest.index_of(kept[e]);
        assert(inbox[a] == inbox[i]);
        assert(a == i);
    }
}

} // verus!
