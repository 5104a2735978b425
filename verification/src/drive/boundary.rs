//! The boundary of a run: what of the inbox enters the transcript there, and
//! how the run goes on or ends.

use crate::durable::{committed, holds, lemma_committed_push, lemma_spared, spares, touches};
use crate::inbox::{
    ids_of, item_ids, items_of_kind, items_without, lane_queues, lemma_filter_step, load_item,
    loaded, of_kind, read_lane_queues, take_items, taken, without,
};
use crate::model::event::{HarnessEvent, HarnessEventView, LaneQueuedItemView, RetryPolicy};
use crate::model::session::{
    GenerationContext, GenerationContextView, InboxItem, InboxItemKind, InboxItemView,
    NormalizedRetryPolicy, OperationScope, OperationScopeView, OperationState, OperationStateView,
    PendingEntry, PendingEntryView, QueueMode,
};
use crate::model::storage::{
    Address, AddressView, CommitResult, DurableValue, DurableValueView, NewCustomEntry,
    NewCustomEntryView, NewEntry, NewEntryView, NewMessageEntry, NewMessageEntryView, Write,
    WriteView,
};
use crate::text::text_in;
use crate::transcript::{append_all, committed_entry_events, committed_events, lemma_prefix_push};
use crate::types::{
    BoundaryPlacement, BoundaryPlacementView, Config, ConfigView, LaneRuntimeState,
    LaneRuntimeStateView, PendingRow, PendingRowView,
};
use vstd::prelude::*;

verus! {

/// The limits of a retry policy. A disabled policy allows one attempt.
pub open spec fn normalized(retry: RetryPolicy, default_delay_ms: u64) -> NormalizedRetryPolicy {
    NormalizedRetryPolicy {
        max_attempts: if retry.enabled {
            ((retry.max_retries as u32) + 1) as u32
        } else {
            1
        },
        base_delay_ms: retry.base_delay_ms,
        max_agent_delay_ms: match retry.max_agent_delay_ms {
            Some(delay_ms) => delay_ms,
            None => default_delay_ms,
        },
    }
}

/// Whether one attempt more than the retries of a policy can be counted.
pub open spec fn countable(retry: RetryPolicy) -> bool {
    retry.enabled ==> (retry.max_retries as u32) < u32::MAX
}

/// Makes the limits of a retry policy.
pub fn normalized_retry_policy(retry: &RetryPolicy, default_delay_ms: u64) -> (r:
    NormalizedRetryPolicy)
    requires
        countable(*retry),
    ensures
        r == normalized(*retry, default_delay_ms),
{
    let max_agent_delay_ms: u64 = match retry.max_agent_delay_ms {
        Some(delay_ms) => delay_ms,
        None => default_delay_ms,
    };
    if retry.enabled {
        let max_retries: u32 = #[verifier::truncate] (retry.max_retries as u32);
        NormalizedRetryPolicy {
            max_attempts: max_retries + 1,
            base_delay_ms: retry.base_delay_ms,
            max_agent_delay_ms,
        }
    } else {
        NormalizedRetryPolicy {
            max_attempts: 1,
            base_delay_ms: retry.base_delay_ms,
            max_agent_delay_ms,
        }
    }
}

/// The leaf from which an assistant step starts.
pub open spec fn ready_at_boundary(
    config: ConfigView,
    default_delay_ms: u64,
    step_id: Seq<char>,
    state: LaneRuntimeStateView,
    scope: OperationScopeView,
    trigger_entry_id: Seq<char>,
    overflow_recovery_used: bool,
) -> OperationStateView {
    OperationStateView::AssistantReady {
        scope,
        generation_context: GenerationContextView {
            step_id,
            trigger_entry_id,
            configuration: state.configuration,
            stream_options: config.stream_options,
            retry_policy: normalized(config.retry_policy, default_delay_ms),
            overflow_recovery_used,
        },
        next_attempt: 1,
    }
}

/// Starts an assistant step with the lane's configuration and the harness's
/// options.
pub fn assistant_ready_at_boundary(
    config: &Config,
    default_delay_ms: u64,
    step_id: String,
    state: &LaneRuntimeState,
    scope: OperationScope,
    trigger_entry_id: String,
    overflow_recovery_used: bool,
) -> (r: OperationState)
    requires
        countable(config.retry_policy),
    ensures
        r.deep_view() == ready_at_boundary(
            config.deep_view(),
            default_delay_ms,
            step_id@,
            state.deep_view(),
            scope.deep_view(),
            trigger_entry_id@,
            overflow_recovery_used,
        ),
{
    OperationState::AssistantReady {
        scope,
        generation_context: GenerationContext {
            step_id,
            trigger_entry_id,
            configuration: state.configuration.clone(),
            stream_options: config.stream_options.clone(),
            retry_policy: normalized_retry_policy(&config.retry_policy, default_delay_ms),
            overflow_recovery_used,
        },
        next_attempt: 1,
    }
}

/// The writes of an inbox and as many steers as the mode takes.
pub open spec fn first_selection(inbox: Seq<InboxItemView>, steering_mode: QueueMode) -> Seq<
    InboxItemView,
> {
    let steer_ids = item_ids(taken(of_kind(inbox, InboxItemKind::Steer), steering_mode));
    inbox.filter(
        |item: InboxItemView|
            item.kind == InboxItemKind::Write || steer_ids.contains(item.entry_id),
    )
}

fn select_first(inbox: &Vec<InboxItem>, steering_mode: QueueMode) -> (r: Vec<InboxItem>)
    ensures
        r.deep_view() == first_selection(inbox.deep_view(), steering_mode),
{
    let steer_ids = ids_of(
        &take_items(items_of_kind(inbox, InboxItemKind::Steer), steering_mode),
    );
    let ghost keep = |item: InboxItemView|
        item.kind == InboxItemKind::Write || steer_ids.deep_view().contains(item.entry_id);
    let mut items: Vec<InboxItem> = Vec::new();
    let mut i: usize = 0;
    assert(items.deep_view() =~= inbox.deep_view().take(0).filter(keep)) by {
        reveal(Seq::filter);
    }
    while i < inbox.len()
        invariant
            i <= inbox.len(),
            keep == (|item: InboxItemView|
                item.kind == InboxItemKind::Write || steer_ids.deep_view().contains(
                    item.entry_id,
                )),
            items.deep_view() == inbox.deep_view().take(i as int).filter(keep),
        decreases inbox.len() - i,
    {
        let ghost before = items.deep_view();
        proof {
            lemma_filter_step(inbox.deep_view(), i as int, keep);
        }
        if inbox[i].kind == InboxItemKind::Write || text_in(&steer_ids, &inbox[i].entry_id) {
            items.push(inbox[i].clone());
            assert(items.deep_view() =~= before.push(inbox[i as int].deep_view()));
        }
        i += 1;
    }
    assert(inbox.deep_view().take(i as int) =~= inbox.deep_view());
    items
}

/// The place of the first entry with an id, or the length of the inbox.
pub open spec fn place_of(inbox: Seq<InboxItemView>, entry_id: Seq<char>) -> int
    decreases inbox.len(),
{
    if inbox.len() == 0 {
        0
    } else if place_of(inbox.drop_last(), entry_id) < inbox.len() - 1 {
        place_of(inbox.drop_last(), entry_id)
    } else if inbox.last().entry_id == entry_id {
        inbox.len() - 1
    } else {
        inbox.len() as int
    }
}

proof fn lemma_place_stays(inbox: Seq<InboxItemView>, n: int, entry_id: Seq<char>)
    requires
        0 <= n <= inbox.len(),
        place_of(inbox.take(n), entry_id) < n,
    ensures
        place_of(inbox, entry_id) == place_of(inbox.take(n), entry_id),
    decreases inbox.len(),
{
    if n < inbox.len() {
        assert(inbox.drop_last().take(n) =~= inbox.take(n));
        lemma_place_stays(inbox.drop_last(), n, entry_id);
    } else {
        assert(inbox.take(n) =~= inbox);
    }
}

fn find_place(inbox: &Vec<InboxItem>, entry_id: &String) -> (r: usize)
    ensures
        r == place_of(inbox.deep_view(), entry_id@),
{
    let mut i: usize = 0;
    while i < inbox.len()
        invariant
            i <= inbox.len(),
            place_of(inbox.deep_view().take(i as int), entry_id@) == i,
        decreases inbox.len() - i,
    {
        proof {
            lemma_prefix_push(*inbox, i as int);
        }
        if inbox[i].entry_id == *entry_id {
            proof {
                lemma_place_stays(inbox.deep_view(), i as int + 1, entry_id@);
            }
            return i;
        }
        i += 1;
    }
    assert(inbox.deep_view().take(i as int) =~= inbox.deep_view());
    i
}

/// Entries ordered by their places in the inbox: those at the first `n` places.
pub open spec fn ordered(inbox: Seq<InboxItemView>, items: Seq<InboxItemView>, n: nat) -> Seq<
    InboxItemView,
>
    decreases n,
{
    if n == 0 {
        Seq::empty()
    } else {
        ordered(inbox, items, (n - 1) as nat) + items.filter(
            |item: InboxItemView| place_of(inbox, item.entry_id) == n - 1,
        )
    }
}

fn order_items(inbox: &Vec<InboxItem>, items: Vec<InboxItem>) -> (r: Vec<InboxItem>)
    ensures
        r.deep_view() == ordered(inbox.deep_view(), items.deep_view(), inbox.len() as nat),
{
    let mut result: Vec<InboxItem> = Vec::new();
    let mut n: usize = 0;
    assert(result.deep_view() =~= Seq::empty());
    while n < inbox.len()
        invariant
            n <= inbox.len(),
            result.deep_view() == ordered(inbox.deep_view(), items.deep_view(), n as nat),
        decreases inbox.len() - n,
    {
        let ghost start = result.deep_view();
        let ghost keep = |item: InboxItemView| place_of(inbox.deep_view(), item.entry_id) == n;
        let mut i: usize = 0;
        assert(start + items.deep_view().take(0).filter(keep) =~= start) by {
            reveal(Seq::filter);
        }
        while i < items.len()
            invariant
                i <= items.len(),
                keep == (|item: InboxItemView| place_of(inbox.deep_view(), item.entry_id) == n),
                result.deep_view() == start + items.deep_view().take(i as int).filter(keep),
            decreases items.len() - i,
        {
            let ghost before = result.deep_view();
            proof {
                lemma_filter_step(items.deep_view(), i as int, keep);
            }
            if find_place(inbox, &items[i].entry_id) == n {
                result.push(items[i].clone());
                assert(result.deep_view() =~= before.push(items[i as int].deep_view()));
                assert(result.deep_view() =~= start + items.deep_view().take(i as int + 1).filter(
                    keep,
                ));
            }
            i += 1;
        }
        assert(items.deep_view().take(i as int) =~= items.deep_view());
        assert(keep =~= (|item: InboxItemView|
            place_of(inbox.deep_view(), item.entry_id) == (n + 1) as nat - 1));
        n += 1;
    }
    result
}

/// The first selection and as many follow-ups as the mode takes, in inbox order.
pub open spec fn wide_selection(
    inbox: Seq<InboxItemView>,
    steering_mode: QueueMode,
    follow_up_mode: QueueMode,
) -> Seq<InboxItemView> {
    ordered(
        inbox,
        first_selection(inbox, steering_mode) + taken(
            of_kind(inbox, InboxItemKind::FollowUp),
            follow_up_mode,
        ),
        inbox.len(),
    )
}

/// The payloads of selected entries, or why the first unusable one cannot be
/// placed.
pub open spec fn loaded_all(rows: Seq<PendingRowView>, items: Seq<InboxItemView>) -> Result<
    Seq<PendingEntryView>,
    Seq<char>,
>
    decreases items.len(),
{
    if items.len() == 0 {
        Ok(Seq::empty())
    } else {
        match loaded_all(rows, items.drop_last()) {
            Err(message) => Err(message),
            Ok(entries) => match loaded(rows, items.last(), "Queued "@) {
                Err(message) => Err(message),
                Ok(entry) => Ok(entries.push(entry)),
            },
        }
    }
}

proof fn lemma_load_fails(rows: Seq<PendingRowView>, items: Seq<InboxItemView>, n: int)
    requires
        0 <= n <= items.len(),
        loaded_all(rows, items.take(n)) is Err,
    ensures
        loaded_all(rows, items) == loaded_all(rows, items.take(n)),
    decreases items.len(),
{
    if n < items.len() {
        assert(items.drop_last().take(n) =~= items.take(n));
        lemma_load_fails(rows, items.drop_last(), n);
    } else {
        assert(items.take(n) =~= items);
    }
}

/// As many payloads are loaded as entries were selected.
pub proof fn lemma_loaded_len(rows: Seq<PendingRowView>, items: Seq<InboxItemView>)
    ensures
        loaded_all(rows, items) matches Ok(entries) ==> entries.len() == items.len(),
    decreases items.len(),
{
    if items.len() > 0 {
        lemma_loaded_len(rows, items.drop_last());
    }
}

fn load_all(rows: &Vec<PendingRow>, items: &Vec<InboxItem>) -> (r: Result<
    Vec<PendingEntry>,
    String,
>)
    ensures
        match loaded_all(rows.deep_view(), items.deep_view()) {
            Ok(entries) => r is Ok && r->Ok_0.deep_view() == entries,
            Err(message) => r is Err && r->Err_0@ == message,
        },
{
    let mut entries: Vec<PendingEntry> = Vec::new();
    let mut i: usize = 0;
    assert(entries.deep_view() =~= Seq::empty());
    while i < items.len()
        invariant
            i <= items.len(),
            loaded_all(rows.deep_view(), items.deep_view().take(i as int)) == Ok::<
                Seq<PendingEntryView>,
                Seq<char>,
            >(entries.deep_view()),
        decreases items.len() - i,
    {
        proof {
            lemma_prefix_push(*items, i as int);
        }
        match load_item(rows, &items[i], "Queued ") {
            Err(message) => {
                proof {
                    lemma_load_fails(rows.deep_view(), items.deep_view(), i as int + 1);
                }
                return Err(message);
            },
            Ok(entry) => {
                let ghost before = entries.deep_view();
                entries.push(entry);
                assert(entries.deep_view() =~= before.push(entry.deep_view()));
            },
        }
        i += 1;
    }
    assert(items.deep_view().take(i as int) =~= items.deep_view());
    Ok(entries)
}

/// Whether an entry shows up in what a model reads.
pub open spec fn projects(projectors: Seq<Seq<char>>, entry: PendingEntryView) -> bool {
    match entry {
        PendingEntryView::Message { .. } => true,
        PendingEntryView::Custom { custom_type, .. } => projectors.contains(custom_type),
    }
}

fn is_projected(projectors: &Vec<String>, entry: &PendingEntry) -> (r: bool)
    ensures
        r == projects(projectors.deep_view(), entry.deep_view()),
{
    match entry {
        PendingEntry::Message { .. } => true,
        PendingEntry::Custom { custom_type, .. } => text_in(projectors, custom_type),
    }
}

/// Whether any of some entries shows up in what a model reads.
pub open spec fn any_projects(projectors: Seq<Seq<char>>, entries: Seq<PendingEntryView>) -> bool {
    exists|i: int| 0 <= i < entries.len() && projects(projectors, #[trigger] entries[i])
}

fn any_projected(projectors: &Vec<String>, entries: &Vec<PendingEntry>) -> (r: bool)
    ensures
        r == any_projects(projectors.deep_view(), entries.deep_view()),
{
    let mut i: usize = 0;
    while i < entries.len()
        invariant
            i <= entries.len(),
            forall|k: int|
                0 <= k < i ==> !projects(
                    projectors.deep_view(),
                    #[trigger] entries.deep_view()[k],
                ),
        decreases entries.len() - i,
    {
        if is_projected(projectors, &entries[i]) {
            assert(projects(projectors.deep_view(), entries.deep_view()[i as int]));
            return true;
        }
        i += 1;
    }
    false
}

/// The entry that places a queued payload behind a parent.
pub open spec fn placed_entry(
    entry_id: Seq<char>,
    parent_id: Option<Seq<char>>,
    entry: PendingEntryView,
) -> NewEntryView {
    match entry {
        PendingEntryView::Message { payload } => NewEntryView::Message(
            NewMessageEntryView {
                id: entry_id,
                parent_id,
                custom_type: None,
                message: payload,
                terminate: None,
            },
        ),
        PendingEntryView::Custom { custom_type, payload } => NewEntryView::Custom(
            NewCustomEntryView { id: entry_id, parent_id, custom_type, data: payload },
        ),
    }
}

/// Places a queued payload behind a parent.
pub fn place_entry(entry_id: String, parent_id: Option<String>, entry: PendingEntry) -> (r: NewEntry)
    ensures
        r.deep_view() == placed_entry(entry_id@, parent_id.deep_view(), entry.deep_view()),
{
    match entry {
        PendingEntry::Message { payload } => NewEntry::Message(
            NewMessageEntry {
                id: entry_id,
                parent_id,
                custom_type: None,
                message: payload,
                terminate: None,
            },
        ),
        PendingEntry::Custom { custom_type, payload } => NewEntry::Custom(
            NewCustomEntry { id: entry_id, parent_id, custom_type, data: payload },
        ),
    }
}

/// The tip after the first `n` of some entries are placed.
pub open spec fn tip_after(
    tip_id: Option<Seq<char>>,
    items: Seq<InboxItemView>,
    n: int,
) -> Option<Seq<char>> {
    if n <= 0 {
        tip_id
    } else {
        Some(items[n - 1].entry_id)
    }
}

/// The entries that place a selection: each behind the one before it, the first
/// behind the tip.
pub open spec fn placed_entries(
    tip_id: Option<Seq<char>>,
    items: Seq<InboxItemView>,
    entries: Seq<PendingEntryView>,
) -> Seq<NewEntryView> {
    Seq::new(
        items.len(),
        |i: int| placed_entry(items[i].entry_id, tip_after(tip_id, items, i), entries[i]),
    )
}

/// The last selected entry that shows up in what a model reads.
pub open spec fn trigger_of(
    projectors: Seq<Seq<char>>,
    items: Seq<InboxItemView>,
    entries: Seq<PendingEntryView>,
) -> Option<Seq<char>>
    decreases items.len(),
{
    if items.len() == 0 {
        None
    } else if projects(projectors, entries[items.len() - 1]) {
        Some(items.last().entry_id)
    } else {
        trigger_of(projectors, items.drop_last(), entries)
    }
}

/// The write that moves the tip of a lane.
pub open spec fn tip_write(lane: Seq<char>, tip_id: Option<Seq<char>>) -> WriteView {
    WriteView::SetValue {
        address: AddressView::BranchTip { lane },
        value: DurableValueView::Tip(tip_id),
    }
}

/// Moves the tip of a lane.
pub fn write_tip(lane: &String, tip_id: Option<String>) -> (r: Write)
    ensures
        r.deep_view() == tip_write(lane@, tip_id.deep_view()),
{
    Write::SetValue {
        address: Address::BranchTip { lane: lane.clone() },
        value: DurableValue::Tip(tip_id),
    }
}

/// The writes that insert entries.
pub open spec fn insertions(entries: Seq<NewEntryView>) -> Seq<WriteView> {
    Seq::new(entries.len(), |i: int| WriteView::InsertEntry(entries[i]))
}

/// Inserts entries.
pub fn insert_entries(entries: &Vec<NewEntry>) -> (r: Vec<Write>)
    ensures
        r.deep_view() == insertions(entries.deep_view()),
{
    let mut writes: Vec<Write> = Vec::new();
    let mut i: usize = 0;
    while i < entries.len()
        invariant
            i <= entries.len(),
            writes.len() == i,
            forall|k: int|
                0 <= k < i ==> #[trigger] writes[k].deep_view() == WriteView::InsertEntry(
                    entries[k].deep_view(),
                ),
        decreases entries.len() - i,
    {
        writes.push(Write::InsertEntry(entries[i].clone()));
        i += 1;
    }
    assert(writes.deep_view() =~= insertions(entries.deep_view()));
    writes
}

/// The writes that remove the payloads of queued entries.
pub open spec fn payload_deletions(items: Seq<InboxItemView>) -> Seq<WriteView> {
    Seq::new(
        items.len(),
        |i: int|
            WriteView::DeleteValue {
                address: AddressView::PendingEntry { entry_id: items[i].entry_id },
            },
    )
}

/// Removes the payloads of queued entries.
pub fn delete_payloads(items: &Vec<InboxItem>) -> (r: Vec<Write>)
    ensures
        r.deep_view() == payload_deletions(items.deep_view()),
{
    let mut writes: Vec<Write> = Vec::new();
    let mut i: usize = 0;
    while i < items.len()
        invariant
            i <= items.len(),
            writes.len() == i,
            forall|k: int|
                0 <= k < i ==> #[trigger] writes[k].deep_view() == (WriteView::DeleteValue {
                    address: AddressView::PendingEntry { entry_id: items[k].deep_view().entry_id },
                }),
        decreases items.len() - i,
    {
        writes.push(
            Write::DeleteValue {
                address: Address::PendingEntry { entry_id: items[i].entry_id.clone() },
            },
        );
        i += 1;
    }
    assert(writes.deep_view() =~= payload_deletions(items.deep_view()));
    writes
}

/// The placement of a selection.
pub open spec fn placement_of(
    projectors: Seq<Seq<char>>,
    lane: Seq<char>,
    inbox: Seq<InboxItemView>,
    tip_id: Option<Seq<char>>,
    items: Seq<InboxItemView>,
    entries: Seq<PendingEntryView>,
    queues: Option<Seq<LaneQueuedItemView>>,
) -> BoundaryPlacementView {
    let placed = placed_entries(tip_id, items, entries);
    let tip = tip_after(tip_id, items, items.len() as int);
    BoundaryPlacementView {
        entries: placed,
        writes: insertions(placed) + payload_deletions(items) + if items.len() == 0 {
            Seq::empty()
        } else {
            seq![tip_write(lane, tip)]
        },
        tip_id: tip,
        inbox: without(inbox, item_ids(items)),
        trigger_entry_id: trigger_of(projectors, items, entries),
        queues,
    }
}

/// What a boundary takes from the inbox: writes and steers, and follow-ups if
/// those are wanted and nothing else shows up in what a model reads.
pub open spec fn boundary_selection(
    projectors: Seq<Seq<char>>,
    inbox: Seq<InboxItemView>,
    scope: OperationScopeView,
    rows: Seq<PendingRowView>,
    follow_up_when_no_trigger: bool,
) -> Result<Seq<InboxItemView>, Seq<char>> {
    let first = first_selection(inbox, scope.settings.steering_mode);
    match loaded_all(rows, first) {
        Err(message) => Err(message),
        Ok(entries) => if follow_up_when_no_trigger && !any_projects(projectors, entries) {
            Ok(
                wide_selection(
                    inbox,
                    scope.settings.steering_mode,
                    scope.settings.follow_up_mode,
                ),
            )
        } else {
            Ok(first)
        },
    }
}

/// The placement of a boundary, or why it cannot be made.
pub open spec fn boundary_plan(
    projectors: Seq<Seq<char>>,
    lane: Seq<char>,
    inbox: Seq<InboxItemView>,
    scope: OperationScopeView,
    rows: Seq<PendingRowView>,
    tip_id: Option<Seq<char>>,
    follow_up_when_no_trigger: bool,
) -> Result<BoundaryPlacementView, Seq<char>> {
    match boundary_selection(projectors, inbox, scope, rows, follow_up_when_no_trigger) {
        Err(message) => Err(message),
        Ok(items) => match loaded_all(rows, items) {
            Err(message) => Err(message),
            Ok(entries) => if items.len() == 0 {
                Ok(placement_of(projectors, lane, inbox, tip_id, items, entries, None))
            } else {
                match lane_queues(rows, without(inbox, item_ids(items))) {
                    Err(message) => Err(message),
                    Ok(queues) => Ok(
                        placement_of(projectors, lane, inbox, tip_id, items, entries, Some(queues)),
                    ),
                }
            },
        },
    }
}

/// Selects what of the inbox enters the transcript at a boundary, and places it.
pub fn plan_boundary_inbox(
    config: &Config,
    lane_name: &String,
    state: &LaneRuntimeState,
    scope: &OperationScope,
    rows: &Vec<PendingRow>,
    tip_id: Option<String>,
    follow_up_when_no_trigger: bool,
) -> (r: Result<BoundaryPlacement, String>)
    ensures
        match boundary_plan(
            config.entry_projectors.deep_view(),
            lane_name@,
            state.inbox.deep_view(),
            scope.deep_view(),
            rows.deep_view(),
            tip_id.deep_view(),
            follow_up_when_no_trigger,
        ) {
            Ok(placement) => r is Ok && r->Ok_0.deep_view() == placement,
            Err(message) => r is Err && r->Err_0@ == message,
        },
{
    let mut selected = select_first(&state.inbox, scope.settings.steering_mode);
    let mut pending = match load_all(rows, &selected) {
        Ok(pending) => pending,
        Err(message) => {
            return Err(message);
        },
    };
    if follow_up_when_no_trigger && !any_projected(&config.entry_projectors, &pending) {
        let follow_up = take_items(
            items_of_kind(&state.inbox, InboxItemKind::FollowUp),
            scope.settings.follow_up_mode,
        );
        append_all(&mut selected, follow_up);
        selected = order_items(&state.inbox, selected);
        pending = match load_all(rows, &selected) {
            Ok(pending) => pending,
            Err(message) => {
                return Err(message);
            },
        };
    }
    proof {
        lemma_loaded_len(rows.deep_view(), selected.deep_view());
    }
    let ghost items = selected.deep_view();
    let ghost payloads = pending.deep_view();
    let ghost projectors = config.entry_projectors.deep_view();
    let ghost tip = tip_id.deep_view();
    let mut parent_id = tip_id;
    let mut trigger_entry_id: Option<String> = None;
    let mut entries: Vec<NewEntry> = Vec::new();
    let mut i: usize = 0;
    while i < selected.len()
        invariant
            i <= selected.len(),
            pending.len() == selected.len(),
            items == selected.deep_view(),
            payloads == pending.deep_view(),
            projectors == config.entry_projectors.deep_view(),
            entries.len() == i,
            forall|k: int|
                0 <= k < i ==> #[trigger] entries[k].deep_view() == placed_entries(
                    tip,
                    items,
                    payloads,
                )[k],
            parent_id.deep_view() == tip_after(tip, items, i as int),
            trigger_entry_id.deep_view() == trigger_of(projectors, items.take(i as int), payloads),
        decreases selected.len() - i,
    {
        proof {
            lemma_prefix_push(selected, i as int);
        }
        let entry = place_entry(selected[i].entry_id.clone(), parent_id, pending[i].clone());
        parent_id = Some(selected[i].entry_id.clone());
        if is_projected(&config.entry_projectors, &pending[i]) {
            trigger_entry_id = Some(selected[i].entry_id.clone());
        }
        entries.push(entry);
        i += 1;
    }
    assert(items.take(i as int) =~= items);
    assert(entries.deep_view() =~= placed_entries(tip, items, payloads)) by {
        assert forall|k: int| 0 <= k < entries.len() implies #[trigger] entries.deep_view()[k]
            == placed_entries(tip, items, payloads)[k] by {
            assert(entries[k].deep_view() == placed_entries(tip, items, payloads)[k]);
        }
    }
    let inbox = items_without(&state.inbox, &ids_of(&selected));
    let queues = if selected.len() == 0 {
        None
    } else {
        match read_lane_queues(rows, &inbox) {
            Ok(queues) => Some(queues),
            Err(message) => {
                return Err(message);
            },
        }
    };
    let mut writes = insert_entries(&entries);
    append_all(&mut writes, delete_payloads(&selected));
    let ghost before_tip = writes.deep_view();
    if entries.len() > 0 {
        writes.push(write_tip(lane_name, parent_id.clone()));
    }
    assert(writes.deep_view() =~= before_tip + if items.len() == 0 {
        Seq::empty()
    } else {
        seq![tip_write(lane_name@, tip_after(tip, items, items.len() as int))]
    });
    Ok(
        BoundaryPlacement {
            entries,
            writes,
            tip_id: parent_id,
            inbox,
            trigger_entry_id,
            queues,
        },
    )
}

/// The queue event of a placement.
pub open spec fn queue_events(
    placement: BoundaryPlacementView,
    lane: Seq<char>,
) -> Seq<HarnessEventView> {
    match placement.queues {
        Some(queues) => seq![HarnessEventView::QueueUpdate { lane, queues, recovery: None }],
        None => Seq::empty(),
    }
}

/// The events of a placement: those of its entries, then the new queues.
pub fn boundary_placement_events(
    placement: &BoundaryPlacement,
    commit: &CommitResult,
    first_write_index: usize,
    lane: &str,
    run_id: &str,
) -> (r: Vec<HarnessEvent>)
    requires
        first_write_index + placement.entries.len() <= usize::MAX,
    ensures
        r.deep_view() == committed_events(
            placement.deep_view().entries,
            commit.deep_view(),
            lane@,
            Some(run_id@),
            first_write_index as int,
        ) + queue_events(placement.deep_view(), lane@),
{
    let mut events = committed_entry_events(
        &placement.entries,
        commit,
        lane,
        Some(run_id),
        first_write_index,
    );
    let ghost before = events.deep_view();
    if let Some(queues) = &placement.queues {
        events.push(
            HarnessEvent::QueueUpdate {
                lane: lane.to_string(),
                queues: queues.clone(),
                recovery: None,
            },
        );
    }
    assert(events.deep_view() =~= before + queue_events(placement.deep_view(), lane@));
    events
}

/// A placement moves the tip as it says and touches nothing else but the
/// payloads it takes.
pub proof fn lemma_placement_writes(
    store: Map<AddressView, DurableValueView>,
    projectors: Seq<Seq<char>>,
    lane: Seq<char>,
    inbox: Seq<InboxItemView>,
    scope: OperationScopeView,
    rows: Seq<PendingRowView>,
    tip_id: Option<Seq<char>>,
    follow_up_when_no_trigger: bool,
    placement: BoundaryPlacementView,
)
    requires
        boundary_plan(
            projectors,
            lane,
            inbox,
            scope,
            rows,
            tip_id,
            follow_up_when_no_trigger,
        ) == Ok::<BoundaryPlacementView, Seq<char>>(placement),
        holds(store, AddressView::BranchTip { lane }, DurableValueView::Tip(tip_id)),
    ensures
        holds(
            committed(store, placement.writes),
            AddressView::BranchTip { lane },
            DurableValueView::Tip(placement.tip_id),
        ),
        forall|address: AddressView|
            address != (AddressView::BranchTip { lane }) && !(address is PendingEntry)
                ==> #[trigger] spares(placement.writes, address),
        placement.tip_id is None ==> tip_id is None,
{
    let items = boundary_selection(
        projectors,
        inbox,
        scope,
        rows,
        follow_up_when_no_trigger,
    )->Ok_0;
    let entries = loaded_all(rows, items)->Ok_0;
    lemma_loaded_len(rows, items);
    let placed = placed_entries(tip_id, items, entries);
    let moved = insertions(placed) + payload_deletions(items);
    let tip_address = AddressView::BranchTip { lane };
    assert(spares(moved, tip_address));
    lemma_spared(store, moved, tip_address);
    if items.len() > 0 {
        let write = tip_write(lane, tip_after(tip_id, items, items.len() as int));
        assert(placement.writes =~= moved.push(write));
        lemma_committed_push(store, moved, write);
    } else {
        assert(placement.writes =~= moved);
    }
    assert forall|address: AddressView|
        address != (AddressView::BranchTip { lane }) && !(address is PendingEntry) implies #[trigger] spares(
        placement.writes,
        address,
    ) by {
        assert forall|i: int| 0 <= i < placement.writes.len() implies !touches(
            #[trigger] placement.writes[i],
            address,
        ) by {}
    }
}

/// What a filter keeps of a sequence.
pub proof fn lemma_in_filter<A>(items: Seq<A>, keep: spec_fn(A) -> bool, item: A)
    ensures
        items.filter(keep).contains(item) <==> items.contains(item) && keep(item),
{
    if items.filter(keep).contains(item) {
        items.lemma_filter_contains_rev(keep, item);
        items.lemma_filter_pred(keep, items.filter(keep).index_of(item));
    }
    if items.contains(item) && keep(item) {
        items.lemma_filter_contains(keep, items.index_of(item));
    }
}

/// Filters that agree on a sequence keep the same of it.
pub proof fn lemma_filter_agrees<A>(
    items: Seq<A>,
    keep: spec_fn(A) -> bool,
    other: spec_fn(A) -> bool,
)
    requires
        forall|i: int| 0 <= i < items.len() ==> keep(#[trigger] items[i]) == other(items[i]),
    ensures
        items.filter(keep) == items.filter(other),
    decreases items.len(),
{
    reveal(Seq::filter);
    if items.len() > 0 {
        assert forall|i: int| 0 <= i < items.drop_last().len() implies keep(
            #[trigger] items.drop_last()[i],
        ) == other(items.drop_last()[i]) by {
            assert(items.drop_last()[i] == items[i]);
        }
        lemma_filter_agrees(items.drop_last(), keep, other);
        assert(keep(items[items.len() - 1]) == other(items[items.len() - 1]));
    }
}

/// A filter keeps what is distinct distinct.
pub proof fn lemma_filter_distinct<A>(items: Seq<A>, keep: spec_fn(A) -> bool)
    requires
        items.no_duplicates(),
    ensures
        items.filter(keep).no_duplicates(),
    decreases items.len(),
{
    reveal(Seq::filter);
    if items.len() > 0 {
        let rest = items.drop_last();
        lemma_filter_distinct(rest, keep);
        lemma_in_filter(rest, keep, items.last());
        let fewer = rest.filter(keep);
        if rest.contains(items.last()) {
            let i = rest.index_of(items.last());
            assert(items[i] == items[items.len() - 1]);
        }
        if keep(items.last()) {
            assert forall|i: int, j: int|
                0 <= i < j < fewer.push(items.last()).len() implies fewer.push(items.last())[i]
                != fewer.push(items.last())[j] by {
                if j == fewer.len() {
                    assert(fewer.contains(fewer[i]));
                }
            }
        }
    }
}

proof fn lemma_filter_one<A>(items: Seq<A>, keep: spec_fn(A) -> bool, item: A)
    requires
        items.no_duplicates(),
        keep(item),
        forall|i: int| 0 <= i < items.len() && keep(#[trigger] items[i]) ==> items[i] == item,
    ensures
        items.filter(keep) == if items.contains(item) {
            seq![item]
        } else {
            Seq::empty()
        },
    decreases items.len(),
{
    reveal(Seq::filter);
    if items.len() > 0 {
        let rest = items.drop_last();
        assert forall|i: int| 0 <= i < rest.len() && keep(#[trigger] rest[i]) implies rest[i]
            == item by {
            assert(rest[i] == items[i]);
        }
        lemma_filter_one(rest, keep, item);
        assert(items[items.len() - 1] == items.last());
        if rest.contains(item) {
            let i = rest.index_of(item);
            assert(items[i] == item);
        }
        if items.contains(item) && items.last() != item {
            let i = items.index_of(item);
            assert(rest[i] == item);
        }
        if items.last() == item {
            assert(!rest.contains(item));
            assert(rest.filter(keep).push(item) =~= seq![item]);
        }
    }
}

/// Whether no two queued entries have one id.
pub open spec fn distinct_ids(inbox: Seq<InboxItemView>) -> bool {
    forall|i: int, j: int|
        0 <= i < inbox.len() && 0 <= j < inbox.len() && i != j ==> (#[trigger] inbox[i]).entry_id
            != (#[trigger] inbox[j]).entry_id
}

proof fn lemma_own_place(inbox: Seq<InboxItemView>, k: int)
    requires
        distinct_ids(inbox),
        0 <= k < inbox.len(),
    ensures
        place_of(inbox, inbox[k].entry_id) == k,
    decreases inbox.len(),
{
    let rest = inbox.drop_last();
    assert forall|i: int, j: int|
        0 <= i < rest.len() && 0 <= j < rest.len() && i != j implies (
    #[trigger] rest[i]).entry_id != (#[trigger] rest[j]).entry_id by {
        assert(rest[i] == inbox[i] && rest[j] == inbox[j]);
    }
    if k < inbox.len() - 1 {
        lemma_own_place(rest, k);
        assert(rest[k] == inbox[k]);
    } else {
        lemma_no_place(rest, inbox[k].entry_id);
    }
}

proof fn lemma_no_place(inbox: Seq<InboxItemView>, entry_id: Seq<char>)
    requires
        forall|i: int| 0 <= i < inbox.len() ==> (#[trigger] inbox[i]).entry_id != entry_id,
    ensures
        place_of(inbox, entry_id) == inbox.len(),
    decreases inbox.len(),
{
    if inbox.len() > 0 {
        assert forall|i: int| 0 <= i < inbox.drop_last().len() implies (
        #[trigger] inbox.drop_last()[i]).entry_id != entry_id by {
            assert(inbox.drop_last()[i] == inbox[i]);
        }
        lemma_no_place(inbox.drop_last(), entry_id);
        assert(inbox[inbox.len() - 1].entry_id != entry_id);
    }
}

/// Ordering selected entries is picking them from the inbox.
pub proof fn lemma_ordered(inbox: Seq<InboxItemView>, items: Seq<InboxItemView>, n: nat)
    requires
        distinct_ids(inbox),
        items.no_duplicates(),
        forall|i: int| 0 <= i < items.len() ==> inbox.contains(#[trigger] items[i]),
        n <= inbox.len(),
    ensures
        ordered(inbox, items, n) == inbox.take(n as int).filter(
            |item: InboxItemView| items.contains(item),
        ),
    decreases n,
{
    let keep = |item: InboxItemView| items.contains(item);
    if n == 0 {
        reveal(Seq::filter);
        assert(inbox.take(0).filter(keep) =~= Seq::empty());
    } else {
        lemma_ordered(inbox, items, (n - 1) as nat);
        let here = inbox[n - 1];
        let at = |item: InboxItemView| place_of(inbox, item.entry_id) == n - 1;
        lemma_own_place(inbox, n - 1);
        assert forall|i: int| 0 <= i < items.len() && at(#[trigger] items[i]) implies items[i]
            == here by {
            let k = inbox.index_of(items[i]);
            lemma_own_place(inbox, k);
        }
        lemma_filter_one(items, at, here);
        crate::inbox::lemma_filter_step(inbox, n - 1, keep);
        let before = inbox.take(n - 1).filter(keep);
        assert(before + seq![here] =~= before.push(here));
        assert(before + Seq::empty() =~= before);
    }
}

/// Queued entries with the same id are the same, where ids are distinct.
pub proof fn lemma_same_id(inbox: Seq<InboxItemView>, a: InboxItemView, b: InboxItemView)
    requires
        distinct_ids(inbox),
        inbox.contains(a),
        inbox.contains(b),
        a.entry_id == b.entry_id,
    ensures
        a == b,
{
    let i = inbox.index_of(a);
    let j = inbox.index_of(b);
    assert(inbox[i].entry_id == inbox[j].entry_id);
}

/// What a mode takes of a kind is of that kind, in the inbox and without repetition.
pub proof fn lemma_taken(inbox: Seq<InboxItemView>, kind: InboxItemKind, mode: QueueMode)
    requires
        distinct_ids(inbox),
    ensures
        taken(of_kind(inbox, kind), mode).no_duplicates(),
        forall|i: int|
            0 <= i < taken(of_kind(inbox, kind), mode).len() ==> inbox.contains(
                #[trigger] taken(of_kind(inbox, kind), mode)[i],
            ) && taken(of_kind(inbox, kind), mode)[i].kind == kind,
{
    let keep = |item: InboxItemView| item.kind == kind;
    let all = of_kind(inbox, kind);
    assert(inbox.no_duplicates());
    lemma_filter_distinct(inbox, keep);
    let some = taken(all, mode);
    assert forall|i: int| 0 <= i < some.len() implies inbox.contains(#[trigger] some[i])
        && some[i].kind == kind by {
        assert(some[i] == all[i]);
        assert(all.contains(all[i]));
        lemma_in_filter(inbox, keep, all[i]);
    }
}

/// Leaving queued entries out keeps the ids distinct.
pub proof fn lemma_left_out(inbox: Seq<InboxItemView>, ids: Seq<Seq<char>>)
    requires
        distinct_ids(inbox),
    ensures
        distinct_ids(without(inbox, ids)),
{
    let left = |item: InboxItemView| !ids.contains(item.entry_id);
    let rest = without(inbox, ids);
    assert(inbox.no_duplicates());
    lemma_filter_distinct(inbox, left);
    assert forall|i: int, j: int|
        0 <= i < rest.len() && 0 <= j < rest.len() && i != j implies (
    #[trigger] rest[i]).entry_id != (#[trigger] rest[j]).entry_id by {
        assert(rest.contains(rest[i]) && rest.contains(rest[j]));
        lemma_in_filter(inbox, left, rest[i]);
        lemma_in_filter(inbox, left, rest[j]);
        if rest[i].entry_id == rest[j].entry_id {
            lemma_same_id(inbox, rest[i], rest[j]);
        }
    }
}

/// What a boundary takes from the inbox comes in the order of the inbox. It takes
/// writes, steers and follow-ups, never what waits for the next run. Each queued
/// entry is either taken or left.
pub proof fn law_a_boundary_splits_the_inbox(
    projectors: Seq<Seq<char>>,
    inbox: Seq<InboxItemView>,
    scope: OperationScopeView,
    rows: Seq<PendingRowView>,
    follow_up_when_no_trigger: bool,
    item: InboxItemView,
)
    requires
        distinct_ids(inbox),
        boundary_selection(projectors, inbox, scope, rows, follow_up_when_no_trigger) is Ok,
    ensures
        ({
            let items = boundary_selection(
                projectors,
                inbox,
                scope,
                rows,
                follow_up_when_no_trigger,
            )->Ok_0;
            &&& items == inbox.filter(|item: InboxItemView| items.contains(item))
            &&& items.contains(item) ==> inbox.contains(item) && item.kind
                != InboxItemKind::NextRun
            &&& inbox.contains(item) && item.kind == InboxItemKind::Write ==> items.contains(item)
            &&& inbox.contains(item) ==> (items.contains(item) <==> !without(
                inbox,
                item_ids(items),
            ).contains(item))
        }),
{
    let items = boundary_selection(
        projectors,
        inbox,
        scope,
        rows,
        follow_up_when_no_trigger,
    )->Ok_0;
    let steering_mode = scope.settings.steering_mode;
    let follow_up_mode = scope.settings.follow_up_mode;
    let steers = taken(of_kind(inbox, InboxItemKind::Steer), steering_mode);
    let steer_ids = item_ids(steers);
    let first = first_selection(inbox, steering_mode);
    let keep = |item: InboxItemView|
        item.kind == InboxItemKind::Write || steer_ids.contains(item.entry_id);
    lemma_taken(inbox, InboxItemKind::Steer, steering_mode);
    assert(inbox.no_duplicates());
    lemma_filter_distinct(inbox, keep);
    assert forall|other: InboxItemView| #[trigger] first.contains(other) implies inbox.contains(
        other,
    ) && (other.kind == InboxItemKind::Write || other.kind == InboxItemKind::Steer) by {
        lemma_in_filter(inbox, keep, other);
        if steer_ids.contains(other.entry_id) {
            let i = steer_ids.index_of(other.entry_id);
            assert(inbox.contains(steers[i]));
            lemma_same_id(inbox, other, steers[i]);
        }
    }
    let picked = |other: InboxItemView| items.contains(other);
    lemma_in_filter(inbox, keep, item);
    if items != first {
        let follow_ups = taken(of_kind(inbox, InboxItemKind::FollowUp), follow_up_mode);
        let both = first + follow_ups;
        lemma_taken(inbox, InboxItemKind::FollowUp, follow_up_mode);
        assert forall|i: int| 0 <= i < both.len() implies inbox.contains(#[trigger] both[i]) by {
            if i < first.len() {
                assert(first.contains(first[i]));
            }
        }
        assert(both.no_duplicates()) by {
            assert forall|i: int, j: int|
                0 <= i < j < both.len() implies both[i] != both[j] by {
                if i < first.len() && first.len() <= j {
                    assert(first.contains(first[i]));
                    assert(follow_ups[j - first.len()].kind == InboxItemKind::FollowUp);
                } else if i < first.len() {
                    assert(first[i] != first[j]);
                } else {
                    assert(follow_ups[i - first.len()] != follow_ups[j - first.len()]);
                }
            }
        }
        let member = |other: InboxItemView| both.contains(other);
        lemma_ordered(inbox, both, inbox.len());
        assert(inbox.take(inbox.len() as int) =~= inbox);
        assert(items == inbox.filter(member));
        assert forall|i: int| 0 <= i < inbox.len() implies member(#[trigger] inbox[i]) == picked(
            inbox[i],
        ) by {
            lemma_in_filter(inbox, member, inbox[i]);
        }
        lemma_filter_agrees(inbox, member, picked);
        lemma_in_filter(inbox, member, item);
        if both.contains(item) {
            let i = both.index_of(item);
            if i < first.len() {
                assert(first.contains(first[i]));
            } else {
                assert(follow_ups[i - first.len()].kind == InboxItemKind::FollowUp);
            }
        }
        if first.contains(item) {
            let i = first.index_of(item);
            assert(both[i] == item);
        }
    } else {
        assert forall|i: int| 0 <= i < inbox.len() implies keep(#[trigger] inbox[i]) == picked(
            inbox[i],
        ) by {
            lemma_in_filter(inbox, keep, inbox[i]);
        }
        lemma_filter_agrees(inbox, keep, picked);
    }
    let ids = item_ids(items);
    let left = |other: InboxItemView| !ids.contains(other.entry_id);
    lemma_in_filter(inbox, left, item);
    lemma_in_filter(inbox, picked, item);
    if items.contains(item) {
        let i = items.index_of(item);
        assert(ids[i] == item.entry_id);
    }
    if inbox.contains(item) && ids.contains(item.entry_id) {
        let i = ids.index_of(item.entry_id);
        assert(items.contains(items[i]));
        lemma_in_filter(inbox, picked, items[i]);
        lemma_same_id(inbox, item, items[i]);
    }
}

} // verus!
