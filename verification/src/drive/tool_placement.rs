//! Placing the results of a tool batch in the transcript, in the order of the
//! calls.

use crate::command::{OperationCommand, OperationCommandView};
use crate::drive::boundary::{tip_write, write_tip};
use crate::drive::terminal::deletions;
use crate::durable::{
    committed, holds, in_step, lemma_committed_concat, lemma_committed_push, lemma_spared,
    lemma_spares_concat, spares,
};
use crate::inbox::{find_payload, payload_of};
use crate::lane::settle::{keeps_step, law_settling_keeps_step, safe_decision, settled};
use crate::model::event::{
    ConfigUpdatePayload, ConfigUpdatePayloadView, HarnessEvent, HarnessEventView, PlannedEvent,
    PlannedEventView,
};
use crate::model::message::{
    AgentMessage, AgentMessageView, AssistantMessage, AssistantMessageView, ContentBlock,
    ContentBlockView, ToolCallBlock, ToolCallBlockView, ToolResultMessage, ToolResultMessageView,
};
use crate::model::session::{
    Continuation, LaneConfiguration, LaneConfigurationView, OperationScopeView, OperationState,
    OperationStateView, PendingEntry, PendingEntryView, ToolBatch, ToolBatchView, ToolCall,
    ToolCallView,
};
use crate::model::storage::{
    Address, AddressView, DurableValue, DurableValueView, Entry, EntryView, NewEntry, NewEntryView,
    NewMessageEntry, NewMessageEntryView, UsageRow, UsageRowView, Write, WriteView,
};
use crate::text::{decimal, decimal_text, join, text_in};
use crate::transcript::{append_all, entry_of, find_entry, lemma_prefix_push};
use crate::types::{
    LanePatch, LanePatchView, LaneRuntimeState, LaneRuntimeStateView, PendingPayload,
    PendingPayloadView, PendingRow, PendingRowView,
};
use std::collections::BTreeMap;
use vstd::prelude::*;

verus! {

broadcast use vstd::std_specs::btree::group_btree_axioms;

impl ToolCallView {
    /// The place of the call in its assistant message.
    pub open spec fn source_index(self) -> usize {
        match self {
            ToolCallView::Planned { source_index, .. } => source_index,
            ToolCallView::EffectPending { source_index, .. } => source_index,
            ToolCallView::OutcomeReady { source_index, .. } => source_index,
            ToolCallView::Completed { source_index, .. } => source_index,
        }
    }

    /// The entry reserved for the result of the call.
    pub open spec fn result_entry_id(self) -> Seq<char> {
        match self {
            ToolCallView::Planned { result_entry_id, .. } => result_entry_id,
            ToolCallView::EffectPending { result_entry_id, .. } => result_entry_id,
            ToolCallView::OutcomeReady { result_entry_id, .. } => result_entry_id,
            ToolCallView::Completed { result_entry_id, .. } => result_entry_id,
        }
    }

    /// Whether the call asks to end the run once its result is in.
    pub open spec fn terminates(self) -> bool {
        match self {
            ToolCallView::OutcomeReady { terminate, .. } => terminate,
            _ => false,
        }
    }

    /// Whether two calls are the same call of a batch.
    pub open spec fn is_call(self, other: ToolCallView) -> bool {
        self.source_index() == other.source_index() && self.result_entry_id()
            == other.result_entry_id()
    }
}

impl ToolCall {
    /// The place of the call in its assistant message.
    pub fn source_index(&self) -> (r: usize)
        ensures
            r == self.deep_view().source_index(),
    {
        match self {
            ToolCall::Planned { source_index, .. } => *source_index,
            ToolCall::EffectPending { source_index, .. } => *source_index,
            ToolCall::OutcomeReady { source_index, .. } => *source_index,
            ToolCall::Completed { source_index, .. } => *source_index,
        }
    }

    /// The entry reserved for the result of the call.
    pub fn result_entry_id(&self) -> (r: &String)
        ensures
            r@ == self.deep_view().result_entry_id(),
    {
        match self {
            ToolCall::Planned { result_entry_id, .. } => result_entry_id,
            ToolCall::EffectPending { result_entry_id, .. } => result_entry_id,
            ToolCall::OutcomeReady { result_entry_id, .. } => result_entry_id,
            ToolCall::Completed { result_entry_id, .. } => result_entry_id,
        }
    }

    /// Whether two calls are the same call of a batch.
    pub fn is_call(&self, other: &ToolCall) -> (r: bool)
        ensures
            r == self.deep_view().is_call(other.deep_view()),
    {
        self.source_index() == other.source_index() && *self.result_entry_id()
            == *other.result_entry_id()
    }

    fn terminates(&self) -> (r: bool)
        ensures
            r == self.deep_view().terminates(),
    {
        match self {
            ToolCall::OutcomeReady { terminate, .. } => *terminate,
            _ => false,
        }
    }
}

/// The assistant message of a batch and its tool calls, by their places.
pub struct ToolBatchSource {
    pub assistant: AssistantMessage,
    pub calls: BTreeMap<usize, ToolCallBlock>,
}

impl ToolBatchSource {
    /// The call at a place.
    pub open spec fn call_at(&self, index: usize) -> Option<ToolCallBlockView> {
        if self.calls@.contains_key(index) {
            Some(self.calls@[index].deep_view())
        } else {
            None
        }
    }
}

/// The tool call at a place of a message.
pub open spec fn block_at(assistant: AssistantMessageView, index: usize) -> Option<
    ToolCallBlockView,
> {
    if index < assistant.content.len() {
        match assistant.content[index as int] {
            ContentBlockView::ToolCall(block) => Some(block),
            _ => None,
        }
    } else {
        None
    }
}

fn find_block<'a>(assistant: &'a AssistantMessage, index: usize) -> (r: Option<&'a ToolCallBlock>)
    ensures
        r.deep_view() == block_at(assistant.deep_view(), index),
{
    if index < assistant.content.len() {
        match &assistant.content[index] {
            ContentBlock::ToolCall(block) => Some(block),
            _ => None,
        }
    } else {
        None
    }
}

/// The assistant message that a batch belongs to.
pub open spec fn batch_assistant(entry: Option<EntryView>) -> Option<AssistantMessageView> {
    match entry {
        Some(EntryView::Message(entry)) => match entry.message {
            AgentMessageView::Assistant(assistant) => Some(assistant),
            _ => None,
        },
        _ => None,
    }
}

/// The place of a batch's call that names no tool call of its message.
pub open spec fn dangling(assistant: AssistantMessageView, calls: Seq<ToolCallView>) -> Option<
    usize,
>
    decreases calls.len(),
{
    if calls.len() == 0 {
        None
    } else {
        match dangling(assistant, calls.drop_last()) {
            Some(index) => Some(index),
            None => if block_at(assistant, calls.last().source_index()) is None {
                Some(calls.last().source_index())
            } else {
                None
            },
        }
    }
}

proof fn lemma_dangling_stays(assistant: AssistantMessageView, calls: Seq<ToolCallView>, n: int)
    requires
        0 <= n <= calls.len(),
        dangling(assistant, calls.take(n)) is Some,
    ensures
        dangling(assistant, calls) == dangling(assistant, calls.take(n)),
    decreases calls.len(),
{
    if n < calls.len() {
        assert(calls.drop_last().take(n) =~= calls.take(n));
        lemma_dangling_stays(assistant, calls.drop_last(), n);
    } else {
        assert(calls.take(n) =~= calls);
    }
}

/// Reads the source of a batch from the entry fetched for it. Every call of the
/// batch must name a tool call of the message.
pub fn read_tool_batch_source(entry: Option<&Entry>, calls: &Vec<ToolCall>) -> (r: Result<
    ToolBatchSource,
    String,
>)
    ensures
        r matches Ok(source) ==> {
            &&& batch_assistant(entry.deep_view()) == Some(source.assistant.deep_view())
            &&& dangling(source.assistant.deep_view(), calls.deep_view()) is None
            &&& forall|i: int|
                0 <= i < calls.len() ==> #[trigger] source.call_at(
                    calls.deep_view()[i].source_index(),
                ) == block_at(
                    source.assistant.deep_view(),
                    calls.deep_view()[i].source_index(),
                )
            &&& forall|index: usize|
                source.call_at(index) is Some ==> #[trigger] source.call_at(index) == block_at(
                    source.assistant.deep_view(),
                    index,
                )
        },
        r is Err <==> match batch_assistant(entry.deep_view()) {
            None => true,
            Some(assistant) => dangling(assistant, calls.deep_view()) is Some,
        },
        r is Err ==> r->Err_0@ == (match batch_assistant(entry.deep_view()) {
            None => "Tool batch assistant entry is invalid"@,
            Some(assistant) => "Tool call source index "@ + decimal(
                dangling(assistant, calls.deep_view())->Some_0 as nat,
            ) + " does not name a tool-call block"@,
        }),
{
    let assistant = match entry {
        Some(Entry::Message(entry)) => match &entry.message {
            AgentMessage::Assistant(assistant) => assistant.clone(),
            _ => {
                return Err("Tool batch assistant entry is invalid".to_string());
            },
        },
        _ => {
            return Err("Tool batch assistant entry is invalid".to_string());
        },
    };
    let mut source_calls: BTreeMap<usize, ToolCallBlock> = BTreeMap::new();
    let ghost message = assistant.deep_view();
    let mut i: usize = 0;
    while i < calls.len()
        invariant
            i <= calls.len(),
            message == assistant.deep_view(),
            batch_assistant(entry.deep_view()) == Some(message),
            dangling(message, calls.deep_view().take(i as int)) is None,
            forall|k: int|
                0 <= k < i ==> source_calls@.contains_key(
                    (#[trigger] calls.deep_view()[k]).source_index(),
                ),
            forall|index: usize| #[trigger]
                source_calls@.contains_key(index) ==> block_at(message, index) == Some(
                    source_calls@[index].deep_view(),
                ),
        decreases calls.len() - i,
    {
        proof {
            lemma_prefix_push(*calls, i as int);
        }
        let index: usize = calls[i].source_index();
        match find_block(&assistant, index) {
            Some(block) => {
                source_calls.insert(index, block.clone());
            },
            None => {
                proof {
                    lemma_dangling_stays(message, calls.deep_view(), i as int + 1);
                }
                let named = join(
                    "Tool call source index ".to_string(),
                    decimal_text(index as u64).as_str(),
                );
                return Err(join(named, " does not name a tool-call block"));
            },
        }
        i += 1;
    }
    assert(calls.deep_view().take(i as int) =~= calls.deep_view());
    Ok(ToolBatchSource { assistant, calls: source_calls })
}

/// The tool call that a call of the batch stands for.
pub fn tool_call_for(sources: &ToolBatchSource, call: &ToolCall) -> (r: ToolCallBlock)
    requires
        sources.call_at(call.deep_view().source_index()) is Some,
    ensures
        Some(r.deep_view()) == sources.call_at(call.deep_view().source_index()),
{
    let index: usize = call.source_index();
    match sources.calls.get(&index) {
        Some(block) => block.clone(),
        None => vstd::pervasive::unreached(),
    }
}

/// A run with another batch.
pub fn with_tool_batch(run: &OperationState, batch: ToolBatch) -> (r: OperationState)
    requires
        !run.deep_view().is_deferred(),
    ensures
        r.deep_view() == (OperationStateView::Tools {
            scope: run.deep_view().scope(),
            batch: batch.deep_view(),
        }),
{
    OperationState::Tools { scope: run.scope().clone(), batch }
}

/// A staged result on its way into the transcript.
#[derive(Debug, PartialEq, Eq)]
pub struct PlacementItem {
    pub call: ToolCall,
    pub message: ToolResultMessage,
}

/// Contents of a [`PlacementItem`].
pub struct PlacementItemView {
    pub call: ToolCallView,
    pub message: ToolResultMessageView,
}

impl DeepView for PlacementItem {
    type V = PlacementItemView;

    open spec fn deep_view(&self) -> PlacementItemView {
        PlacementItemView { call: self.call.deep_view(), message: self.message.deep_view() }
    }
}

/// The results that can be placed, and all results of the turn if these are its
/// last.
#[derive(Debug, PartialEq, Eq)]
pub struct PlacementRead {
    pub items: Vec<PlacementItem>,
    pub turn_results: Option<Vec<ToolResultMessage>>,
}

/// Contents of a [`PlacementRead`].
pub struct PlacementReadView {
    pub items: Seq<PlacementItemView>,
    pub turn_results: Option<Seq<ToolResultMessageView>>,
}

impl DeepView for PlacementRead {
    type V = PlacementReadView;

    open spec fn deep_view(&self) -> PlacementReadView {
        PlacementReadView {
            items: self.items.deep_view(),
            turn_results: self.turn_results.deep_view(),
        }
    }
}

/// The place from `start` on of the first call that is not completed.
pub open spec fn first_open(calls: Seq<ToolCallView>, start: int) -> int
    decreases calls.len() - start,
{
    if 0 <= start < calls.len() && calls[start] is Completed {
        first_open(calls, start + 1)
    } else {
        start
    }
}

/// The place from `start` on of the first call without a staged outcome.
pub open spec fn ready_end(calls: Seq<ToolCallView>, start: int) -> int
    decreases calls.len() - start,
{
    if 0 <= start < calls.len() && calls[start] is OutcomeReady {
        ready_end(calls, start + 1)
    } else {
        start
    }
}

/// What holds of the calls that can be placed: completed ones before, staged
/// ones in the run, and the run cannot be longer.
pub proof fn lemma_ready_run(calls: Seq<ToolCallView>, start: int)
    requires
        0 <= start <= calls.len(),
    ensures
        start <= first_open(calls, start) <= calls.len(),
        forall|i: int|
            start <= i < first_open(calls, start) ==> (#[trigger] calls[i]) is Completed,
        first_open(calls, start) < calls.len() ==> !(calls[first_open(calls, start)] is Completed),
        start <= ready_end(calls, start) <= calls.len(),
        forall|i: int|
            start <= i < ready_end(calls, start) ==> (#[trigger] calls[i]) is OutcomeReady,
        ready_end(calls, start) < calls.len() ==> !(calls[ready_end(calls, start)]
            is OutcomeReady),
    decreases calls.len() - start,
{
    if start < calls.len() {
        lemma_ready_run(calls, start + 1);
    }
}

fn find_open(calls: &Vec<ToolCall>) -> (r: usize)
    ensures
        r == first_open(calls.deep_view(), 0),
        r <= calls.len(),
{
    let mut i: usize = 0;
    while i < calls.len()
        invariant_except_break
            i <= calls.len(),
            first_open(calls.deep_view(), 0) == first_open(calls.deep_view(), i as int),
        ensures
            i <= calls.len(),
            i == first_open(calls.deep_view(), 0),
        decreases calls.len() - i,
    {
        if let ToolCall::Completed { .. } = &calls[i] {
            i += 1;
        } else {
            break ;
        }
    }
    i
}

fn find_ready_end(calls: &Vec<ToolCall>, start: usize) -> (r: usize)
    requires
        start <= calls.len(),
    ensures
        r == ready_end(calls.deep_view(), start as int),
        start <= r <= calls.len(),
{
    let mut i: usize = start;
    while i < calls.len()
        invariant_except_break
            start <= i <= calls.len(),
            ready_end(calls.deep_view(), start as int) == ready_end(
                calls.deep_view(),
                i as int,
            ),
        ensures
            start <= i <= calls.len(),
            i == ready_end(calls.deep_view(), start as int),
        decreases calls.len() - i,
    {
        if let ToolCall::OutcomeReady { .. } = &calls[i] {
            i += 1;
        } else {
            break ;
        }
    }
    i
}

/// A message about the result of a call.
pub open spec fn about_result(call: ToolCallView, fault: Seq<char>) -> Seq<char> {
    "Tool call "@ + call.result_entry_id() + fault
}

fn result_message(call: &ToolCall, fault: &str) -> (r: String)
    ensures
        r@ == about_result(call.deep_view(), fault@),
{
    join(join("Tool call ".to_string(), call.result_entry_id().as_str()), fault)
}

/// The staged result of a call, which must be a tool result of that call.
pub open spec fn staged_result(
    source: ToolBatchSource,
    rows: Seq<PendingRowView>,
    call: ToolCallView,
) -> Result<ToolResultMessageView, Seq<char>> {
    match payload_of(rows, call.result_entry_id()) {
        Some(PendingPayloadView::Decoded(PendingEntryView::Message { payload })) => match payload {
            AgentMessageView::ToolResult(message) => match source.call_at(call.source_index()) {
                None => Err(
                    "Tool call source index "@ + decimal(call.source_index() as nat)
                        + " is invalid"@,
                ),
                Some(block) => if message.tool_call_id == block.id && message.tool_name
                    == block.name {
                    Ok(message)
                } else {
                    Err(about_result(call, " has a mismatched staged result"@))
                },
            },
            _ => Err(about_result(call, " is missing its staged result"@)),
        },
        _ => Err(about_result(call, " is missing its staged result"@)),
    }
}

fn read_staged(sources: &ToolBatchSource, rows: &Vec<PendingRow>, call: &ToolCall) -> (r: Result<
    ToolResultMessage,
    String,
>)
    ensures
        match staged_result(*sources, rows.deep_view(), call.deep_view()) {
            Ok(message) => r is Ok && r->Ok_0.deep_view() == message,
            Err(message) => r is Err && r->Err_0@ == message,
        },
{
    match find_payload(rows, call.result_entry_id()) {
        Some(PendingPayload::Decoded(PendingEntry::Message { payload })) => match payload {
            AgentMessage::ToolResult(message) => {
                let index: usize = call.source_index();
                match sources.calls.get(&index) {
                    None => {
                        let named = join(
                            "Tool call source index ".to_string(),
                            decimal_text(index as u64).as_str(),
                        );
                        Err(join(named, " is invalid"))
                    },
                    Some(block) => if message.tool_call_id == block.id && message.tool_name
                        == block.name {
                        Ok(message.clone())
                    } else {
                        Err(result_message(call, " has a mismatched staged result"))
                    },
                }
            },
            _ => Err(result_message(call, " is missing its staged result")),
        },
        _ => Err(result_message(call, " is missing its staged result")),
    }
}

/// The items of the calls from `start` to `end`, or why the first unusable one
/// cannot be placed.
pub open spec fn placement_items(
    source: ToolBatchSource,
    rows: Seq<PendingRowView>,
    calls: Seq<ToolCallView>,
    start: int,
    end: int,
) -> Result<Seq<PlacementItemView>, Seq<char>>
    decreases end - start,
{
    if end <= start {
        Ok(Seq::empty())
    } else {
        match placement_items(source, rows, calls, start, end - 1) {
            Err(message) => Err(message),
            Ok(items) => match staged_result(source, rows, calls[end - 1]) {
                Err(message) => Err(message),
                Ok(message) => Ok(
                    items.push(PlacementItemView { call: calls[end - 1], message }),
                ),
            },
        }
    }
}

proof fn lemma_items_fail(
    source: ToolBatchSource,
    rows: Seq<PendingRowView>,
    calls: Seq<ToolCallView>,
    start: int,
    n: int,
    end: int,
)
    requires
        start <= n <= end,
        placement_items(source, rows, calls, start, n) is Err,
    ensures
        placement_items(source, rows, calls, start, end) == placement_items(
            source,
            rows,
            calls,
            start,
            n,
        ),
    decreases end - n,
{
    if n < end {
        lemma_items_fail(source, rows, calls, start, n, end - 1);
    }
}

fn read_items(
    sources: &ToolBatchSource,
    rows: &Vec<PendingRow>,
    calls: &Vec<ToolCall>,
    start: usize,
    end: usize,
) -> (r: Result<Vec<PlacementItem>, String>)
    requires
        start <= end <= calls.len(),
    ensures
        match placement_items(
            *sources,
            rows.deep_view(),
            calls.deep_view(),
            start as int,
            end as int,
        ) {
            Ok(items) => r is Ok && r->Ok_0.deep_view() == items,
            Err(message) => r is Err && r->Err_0@ == message,
        },
{
    let mut items: Vec<PlacementItem> = Vec::new();
    let mut i: usize = start;
    assert(items.deep_view() =~= Seq::empty());
    while i < end
        invariant
            start <= i <= end <= calls.len(),
            placement_items(
                *sources,
                rows.deep_view(),
                calls.deep_view(),
                start as int,
                i as int,
            ) == Ok::<Seq<PlacementItemView>, Seq<char>>(items.deep_view()),
        decreases end - i,
    {
        match read_staged(sources, rows, &calls[i]) {
            Err(message) => {
                proof {
                    lemma_items_fail(
                        *sources,
                        rows.deep_view(),
                        calls.deep_view(),
                        start as int,
                        i as int + 1,
                        end as int,
                    );
                }
                return Err(message);
            },
            Ok(message) => {
                let ghost before = items.deep_view();
                let item = PlacementItem { call: calls[i].clone(), message };
                items.push(item);
                assert(items.deep_view() =~= before.push(item.deep_view()));
            },
        }
        i += 1;
    }
    Ok(items)
}

/// The staged message for a result entry.
pub open spec fn staged_message(items: Seq<PlacementItemView>, id: Seq<char>) -> Option<
    ToolResultMessageView,
>
    decreases items.len(),
{
    if items.len() == 0 {
        None
    } else if items.last().call.result_entry_id() == id {
        Some(items.last().message)
    } else {
        staged_message(items.drop_last(), id)
    }
}

/// The message of a result, staged or already placed.
pub open spec fn turn_message(
    items: Seq<PlacementItemView>,
    placed: Seq<EntryView>,
    id: Seq<char>,
) -> Option<ToolResultMessageView> {
    match staged_message(items, id) {
        Some(message) => Some(message),
        None => match entry_of(placed, id) {
            Some(EntryView::Message(entry)) => match entry.message {
                AgentMessageView::ToolResult(message) => Some(message),
                _ => None,
            },
            _ => None,
        },
    }
}

/// All results of a turn, in the order of its calls.
pub open spec fn turn_messages(
    items: Seq<PlacementItemView>,
    placed: Seq<EntryView>,
    calls: Seq<ToolCallView>,
) -> Option<Seq<ToolResultMessageView>>
    decreases calls.len(),
{
    if calls.len() == 0 {
        Some(Seq::empty())
    } else {
        match (
            turn_messages(items, placed, calls.drop_last()),
            turn_message(items, placed, calls.last().result_entry_id()),
        ) {
            (Some(messages), Some(message)) => Some(messages.push(message)),
            _ => None,
        }
    }
}

fn find_staged(items: &Vec<PlacementItem>, id: &String) -> (r: Option<ToolResultMessage>)
    ensures
        r.deep_view() == staged_message(items.deep_view(), id@),
{
    let mut n: usize = items.len();
    assert(items.deep_view().take(n as int) =~= items.deep_view());
    while n > 0
        invariant
            n <= items.len(),
            staged_message(items.deep_view(), id@) == staged_message(
                items.deep_view().take(n as int),
                id@,
            ),
        decreases n,
    {
        proof {
            lemma_prefix_push(*items, n as int - 1);
        }
        if *items[n - 1].call.result_entry_id() == *id {
            return Some(items[n - 1].message.clone());
        }
        n -= 1;
    }
    None
}

fn find_turn_message(items: &Vec<PlacementItem>, placed: &Vec<Entry>, id: &String) -> (r: Option<
    ToolResultMessage,
>)
    ensures
        r.deep_view() == turn_message(items.deep_view(), placed.deep_view(), id@),
{
    match find_staged(items, id) {
        Some(message) => Some(message),
        None => match find_entry(placed, id) {
            Some(Entry::Message(entry)) => match &entry.message {
                AgentMessage::ToolResult(message) => Some(message.clone()),
                _ => None,
            },
            _ => None,
        },
    }
}

proof fn lemma_turn_incomplete(
    items: Seq<PlacementItemView>,
    placed: Seq<EntryView>,
    calls: Seq<ToolCallView>,
    n: int,
)
    requires
        0 <= n <= calls.len(),
        turn_messages(items, placed, calls.take(n)) is None,
    ensures
        turn_messages(items, placed, calls) is None,
    decreases calls.len(),
{
    if n < calls.len() {
        assert(calls.drop_last().take(n) =~= calls.take(n));
        lemma_turn_incomplete(items, placed, calls.drop_last(), n);
    } else {
        assert(calls.take(n) =~= calls);
    }
}

fn collect_turn(items: &Vec<PlacementItem>, placed: &Vec<Entry>, calls: &Vec<ToolCall>) -> (r:
    Option<Vec<ToolResultMessage>>)
    ensures
        r.deep_view() == turn_messages(
            items.deep_view(),
            placed.deep_view(),
            calls.deep_view(),
        ),
{
    let mut messages: Vec<ToolResultMessage> = Vec::new();
    let mut i: usize = 0;
    assert(messages.deep_view() =~= Seq::empty());
    while i < calls.len()
        invariant
            i <= calls.len(),
            turn_messages(
                items.deep_view(),
                placed.deep_view(),
                calls.deep_view().take(i as int),
            ) == Some(messages.deep_view()),
        decreases calls.len() - i,
    {
        proof {
            lemma_prefix_push(*calls, i as int);
        }
        match find_turn_message(items, placed, calls[i].result_entry_id()) {
            Some(message) => {
                let ghost before = messages.deep_view();
                messages.push(message);
                assert(messages.deep_view() =~= before.push(message.deep_view()));
            },
            None => {
                proof {
                    lemma_turn_incomplete(
                        items.deep_view(),
                        placed.deep_view(),
                        calls.deep_view(),
                        i as int + 1,
                    );
                }
                return None;
            },
        }
        i += 1;
    }
    assert(calls.deep_view().take(i as int) =~= calls.deep_view());
    Some(messages)
}

/// The results that can be placed: those of the calls right behind the completed
/// ones, as far as their outcomes are staged.
pub open spec fn placement_read(
    source: ToolBatchSource,
    rows: Seq<PendingRowView>,
    placed: Seq<EntryView>,
    calls: Seq<ToolCallView>,
) -> Result<Option<PlacementReadView>, Seq<char>> {
    let start = first_open(calls, 0);
    let end = ready_end(calls, start);
    if start == end {
        Ok(None)
    } else {
        match placement_items(source, rows, calls, start, end) {
            Err(message) => Err(message),
            Ok(items) => if end < calls.len() {
                Ok(Some(PlacementReadView { items, turn_results: None }))
            } else {
                match turn_messages(items, placed, calls) {
                    None => Err("completed tool result missing"@),
                    Some(results) => Ok(
                        Some(PlacementReadView { items, turn_results: Some(results) }),
                    ),
                }
            },
        }
    }
}

/// Reads the results that can be placed. `placed` are the entries fetched for
/// the calls that are completed.
pub fn read_placement(
    sources: &ToolBatchSource,
    rows: &Vec<PendingRow>,
    placed: &Vec<Entry>,
    calls: &Vec<ToolCall>,
) -> (r: Result<Option<PlacementRead>, String>)
    ensures
        match placement_read(
            *sources,
            rows.deep_view(),
            placed.deep_view(),
            calls.deep_view(),
        ) {
            Ok(read) => r is Ok && r->Ok_0.deep_view() == read,
            Err(message) => r is Err && r->Err_0@ == message,
        },
{
    let start: usize = find_open(calls);
    let end: usize = find_ready_end(calls, start);
    if start == end {
        return Ok(None);
    }
    let items = match read_items(sources, rows, calls, start, end) {
        Ok(items) => items,
        Err(message) => {
            return Err(message);
        },
    };
    if end < calls.len() {
        return Ok(Some(PlacementRead { items, turn_results: None }));
    }
    match collect_turn(&items, placed, calls) {
        None => Err("completed tool result missing".to_string()),
        Some(results) => Ok(Some(PlacementRead { items, turn_results: Some(results) })),
    }
}

/// The tip before the `n`th of some results is placed.
pub open spec fn tip_before(tip_id: Option<Seq<char>>, items: Seq<PlacementItemView>, n: int) -> Option<
    Seq<char>,
> {
    if n <= 0 {
        tip_id
    } else {
        Some(items[n - 1].call.result_entry_id())
    }
}

/// The entry of a result.
pub open spec fn result_entry(item: PlacementItemView, parent_id: Option<Seq<char>>) -> NewEntryView {
    NewEntryView::Message(
        NewMessageEntryView {
            id: item.call.result_entry_id(),
            parent_id,
            custom_type: None,
            message: AgentMessageView::ToolResult(item.message),
            terminate: if item.call.terminates() {
                Some(true)
            } else {
                None
            },
        },
    )
}

/// The usage row of a result.
pub open spec fn result_usage(item: PlacementItemView, usage_id: Option<Seq<char>>) -> Option<
    UsageRowView,
> {
    match (usage_id, item.message.usage) {
        (Some(id), Some(usage)) => Some(
            UsageRowView {
                id,
                seq: 0,
                usage,
                entry_id: Some(item.call.result_entry_id()),
                adjustment: false,
                details: None,
            },
        ),
        _ => None,
    }
}

/// The writes of one result.
pub open spec fn result_writes(
    item: PlacementItemView,
    parent_id: Option<Seq<char>>,
    usage_id: Option<Seq<char>>,
) -> Seq<WriteView> {
    let placed = seq![
        WriteView::InsertEntry(result_entry(item, parent_id)),
        WriteView::DeleteValue {
            address: AddressView::PendingEntry { entry_id: item.call.result_entry_id() },
        },
    ];
    match result_usage(item, usage_id) {
        Some(row) => placed.push(WriteView::InsertUsage(row)),
        None => placed,
    }
}

/// The writes of the first `n` results.
pub open spec fn placed_writes(
    tip_id: Option<Seq<char>>,
    items: Seq<PlacementItemView>,
    usage_ids: Seq<Option<Seq<char>>>,
    n: nat,
) -> Seq<WriteView>
    decreases n,
{
    if n == 0 {
        Seq::empty()
    } else {
        placed_writes(tip_id, items, usage_ids, (n - 1) as nat) + result_writes(
            items[n - 1],
            tip_before(tip_id, items, n - 1),
            usage_ids[n - 1],
        )
    }
}

/// The usage rows of the first `n` results, with their places among the writes.
pub open spec fn placed_rows(
    tip_id: Option<Seq<char>>,
    items: Seq<PlacementItemView>,
    usage_ids: Seq<Option<Seq<char>>>,
    n: nat,
) -> Seq<(UsageRowView, usize)>
    decreases n,
{
    if n == 0 {
        Seq::empty()
    } else {
        let rest = placed_rows(tip_id, items, usage_ids, (n - 1) as nat);
        match result_usage(items[n - 1], usage_ids[n - 1]) {
            Some(row) => rest.push(
                (
                    row,
                    (placed_writes(tip_id, items, usage_ids, (n - 1) as nat).len() + 2) as usize,
                ),
            ),
            None => rest,
        }
    }
}

/// The first usage row of an entry.
pub open spec fn row_for(rows: Seq<(UsageRowView, usize)>, id: Seq<char>) -> Option<
    (UsageRowView, usize),
>
    decreases rows.len(),
{
    if rows.len() == 0 {
        None
    } else {
        match row_for(rows.drop_last(), id) {
            Some(row) => Some(row),
            None => if rows.last().0.entry_id == Some(id) {
                Some(rows.last())
            } else {
                None
            },
        }
    }
}

/// The events of the first `n` results: each is added, and its usage reported.
pub open spec fn placed_events(
    lane: Seq<char>,
    tip_id: Option<Seq<char>>,
    items: Seq<PlacementItemView>,
    usage_ids: Seq<Option<Seq<char>>>,
    n: nat,
) -> Seq<PlannedEventView>
    decreases n,
{
    if n == 0 {
        Seq::empty()
    } else {
        let rest = placed_events(lane, tip_id, items, usage_ids, (n - 1) as nat).push(
            PlannedEventView::Added {
                entry: result_entry(items[n - 1], tip_before(tip_id, items, n - 1)),
                write_index: placed_writes(
                    tip_id,
                    items,
                    usage_ids,
                    (n - 1) as nat,
                ).len() as usize,
                lane,
                recovery: None,
            },
        );
        match row_for(
            placed_rows(tip_id, items, usage_ids, items.len()),
            items[n - 1].call.result_entry_id(),
        ) {
            Some((row, write_index)) => rest.push(
                PlannedEventView::Ledger { row, write_index, lane },
            ),
            None => rest,
        }
    }
}

/// Whether a name is active already, or was just added.
pub fn next_config_contains(state: &LaneRuntimeState, added: &Vec<String>, name: &String) -> (r: bool)
    ensures
        r == (state.deep_view().configuration.active_tool_names.contains(name@)
            || added.deep_view().contains(name@)),
{
    text_in(&state.configuration.active_tool_names, name) || text_in(added, name)
}

/// Some names with others behind them that are neither active nor there yet.
pub open spec fn names_added(
    active: Seq<Seq<char>>,
    added: Seq<Seq<char>>,
    names: Seq<Seq<char>>,
) -> Seq<Seq<char>>
    decreases names.len(),
{
    if names.len() == 0 {
        added
    } else {
        let rest = names_added(active, added, names.drop_last());
        if active.contains(names.last()) || rest.contains(names.last()) {
            rest
        } else {
            rest.push(names.last())
        }
    }
}

/// The tool names that a result asks to activate.
pub open spec fn asked_names(item: PlacementItemView) -> Seq<Seq<char>> {
    match item.message.added_tool_names {
        Some(names) => names,
        None => Seq::empty(),
    }
}

/// The tool names that the first `n` results activate.
pub open spec fn activated(active: Seq<Seq<char>>, items: Seq<PlacementItemView>, n: nat) -> Seq<
    Seq<char>,
>
    decreases n,
{
    if n == 0 {
        Seq::empty()
    } else {
        names_added(active, activated(active, items, (n - 1) as nat), asked_names(items[n - 1]))
    }
}

/// Calls with those of a result completed.
pub open spec fn completed_by(calls: Seq<ToolCallView>, item: PlacementItemView) -> Seq<
    ToolCallView,
> {
    calls.map_values(
        |call: ToolCallView|
            if call.is_call(item.call) {
                ToolCallView::Completed {
                    source_index: call.source_index(),
                    result_entry_id: call.result_entry_id(),
                    terminate: item.call.terminates(),
                }
            } else {
                call
            },
    )
}

/// Calls with those of the first `n` results completed.
pub open spec fn completed_calls(
    calls: Seq<ToolCallView>,
    items: Seq<PlacementItemView>,
    n: nat,
) -> Seq<ToolCallView>
    decreases n,
{
    if n == 0 {
        calls
    } else {
        completed_by(completed_calls(calls, items, (n - 1) as nat), items[n - 1])
    }
}

/// Whether all calls are completed.
pub open spec fn all_completed(calls: Seq<ToolCallView>) -> bool {
    forall|i: int| 0 <= i < calls.len() ==> (#[trigger] calls[i]) is Completed
}

/// Whether all calls are completed and ask to end the run.
pub open spec fn all_terminate(calls: Seq<ToolCallView>) -> bool {
    forall|i: int|
        0 <= i < calls.len() ==> (#[trigger] calls[i] matches ToolCallView::Completed {
            terminate,
            ..
        } && terminate)
}

/// The write that records the configuration of a lane.
pub open spec fn configuration_write(
    lane: Seq<char>,
    configuration: LaneConfigurationView,
) -> WriteView {
    WriteView::SetValue {
        address: AddressView::LaneConfig { lane },
        value: DurableValueView::Configuration(configuration),
    }
}

/// Records the configuration of a lane.
pub fn write_configuration(lane: &String, configuration: LaneConfiguration) -> (r: Write)
    ensures
        r.deep_view() == configuration_write(lane@, configuration.deep_view()),
{
    Write::SetValue {
        address: Address::LaneConfig { lane: lane.clone() },
        value: DurableValue::Configuration(configuration),
    }
}

/// The commit that places results.
///
/// Each result is inserted behind the one before it and its staged payload
/// dropped. Tools that results ask for become active. Once every call is
/// completed the run goes to a checkpoint, where it may finish if every call
/// asked for that; until then it stays with its batch.
pub open spec fn placement_command(
    lane: Seq<char>,
    state: LaneRuntimeStateView,
    scope: OperationScopeView,
    batch: ToolBatchView,
    items: Seq<PlacementItemView>,
    usage_ids: Seq<Option<Seq<char>>>,
    arguments: Seq<AddressView>,
) -> OperationCommandView<bool> {
    let tip_id = state.tip_id;
    let n = items.len();
    let tip = tip_before(tip_id, items, n as int);
    let active = state.configuration.active_tool_names;
    let added = activated(active, items, n);
    let configuration = LaneConfigurationView {
        active_tool_names: active + added,
        ..state.configuration
    };
    let calls = completed_calls(batch.calls, items, n);
    let complete = all_completed(calls);
    OperationCommandView::Commit {
        writes: placed_writes(tip_id, items, usage_ids, n) + (if added.len() == 0 {
            Seq::empty()
        } else {
            seq![configuration_write(lane, configuration)]
        }) + seq![tip_write(lane, tip)] + (if complete {
            deletions(arguments)
        } else {
            Seq::empty()
        }),
        operation_state: if complete {
            OperationStateView::Checkpoint {
                scope,
                continuation: if all_terminate(calls) {
                    Continuation::MayFinish { include_final_assistant: false }
                } else {
                    Continuation::NeedAssistant { overflow_recovery_used: false }
                },
                trigger_entry_id: match tip {
                    Some(id) => id,
                    None => Seq::empty(),
                },
            }
        } else {
            OperationStateView::Tools { scope, batch: ToolBatchView { calls, ..batch } }
        },
        lane: Some(
            LanePatchView { tip_id: Some(tip), configuration: Some(configuration), inbox: None },
        ),
        result: complete,
        events: placed_events(lane, tip_id, items, usage_ids, n) + if added.len() == 0 {
            Seq::empty()
        } else {
            seq![
                PlannedEventView::Ready(
                    HarnessEventView::ConfigUpdate {
                        lane: Some(lane),
                        payload: ConfigUpdatePayloadView::ActiveTools {
                            value: active + added,
                            previous: active,
                        },
                        recovery: None,
                    },
                ),
            ]
        },
    }
}

fn make_result_entry(item: &PlacementItem, parent_id: Option<String>) -> (r: NewEntry)
    ensures
        r.deep_view() == result_entry(item.deep_view(), parent_id.deep_view()),
{
    NewEntry::Message(
        NewMessageEntry {
            id: item.call.result_entry_id().clone(),
            parent_id,
            custom_type: None,
            message: AgentMessage::ToolResult(item.message.clone()),
            terminate: if item.call.terminates() {
                Some(true)
            } else {
                None
            },
        },
    )
}

fn make_result_usage(item: &PlacementItem, usage_id: &Option<String>) -> (r: Option<UsageRow>)
    ensures
        r.deep_view() == result_usage(item.deep_view(), usage_id.deep_view()),
{
    match (usage_id, &item.message.usage) {
        (Some(id), Some(usage)) => Some(
            UsageRow {
                id: id.clone(),
                seq: 0,
                usage: usage.clone(),
                entry_id: Some(item.call.result_entry_id().clone()),
                adjustment: false,
                details: None,
            },
        ),
        _ => None,
    }
}

/// Results as they are written: the writes, the entries and the usage rows, the
/// latter two with their places among the writes.
struct PlacedResults {
    writes: Vec<Write>,
    entries: Vec<(NewEntry, usize)>,
    rows: Vec<(UsageRow, usize)>,
    tip_id: Option<String>,
}

fn place_results(
    tip_id: Option<String>,
    items: &Vec<PlacementItem>,
    usage_ids: &Vec<Option<String>>,
) -> (r: PlacedResults)
    requires
        items.len() == usage_ids.len(),
    ensures
        ({
            let tip = tip_id.deep_view();
            let all = items.deep_view();
            let ids = usage_ids.deep_view();
            &&& r.writes.deep_view() == placed_writes(tip, all, ids, all.len())
            &&& r.rows.deep_view() == placed_rows(tip, all, ids, all.len())
            &&& r.entries.len() == all.len()
            &&& forall|k: int|
                0 <= k < all.len() ==> #[trigger] r.entries.deep_view()[k] == (
                    result_entry(all[k], tip_before(tip, all, k)),
                    placed_writes(tip, all, ids, k as nat).len() as usize,
                )
            &&& r.tip_id.deep_view() == tip_before(tip, all, all.len() as int)
        }),
{
    let ghost tip = tip_id.deep_view();
    let ghost all = items.deep_view();
    let ghost ids = usage_ids.deep_view();
    let mut writes: Vec<Write> = Vec::new();
    let mut entries: Vec<(NewEntry, usize)> = Vec::new();
    let mut rows: Vec<(UsageRow, usize)> = Vec::new();
    let mut parent_id = tip_id;
    let mut i: usize = 0;
    assert(writes.deep_view() =~= Seq::empty());
    assert(rows.deep_view() =~= Seq::empty());
    while i < items.len()
        invariant
            i <= items.len(),
            items.len() == usage_ids.len(),
            all == items.deep_view(),
            ids == usage_ids.deep_view(),
            writes.deep_view() == placed_writes(tip, all, ids, i as nat),
            rows.deep_view() == placed_rows(tip, all, ids, i as nat),
            entries.len() == i,
            forall|k: int|
                0 <= k < i ==> #[trigger] entries.deep_view()[k] == (
                    result_entry(all[k], tip_before(tip, all, k)),
                    placed_writes(tip, all, ids, k as nat).len() as usize,
                ),
            parent_id.deep_view() == tip_before(tip, all, i as int),
        decreases items.len() - i,
    {
        let ghost before = writes.deep_view();
        let ghost rows_before = rows.deep_view();
        let ghost entries_before = entries.deep_view();
        let entry = make_result_entry(&items[i], parent_id);
        let place: usize = writes.len();
        let pair = (entry.clone(), place);
        entries.push(pair);
        assert(entries.deep_view() =~= entries_before.push((entry.deep_view(), place)));
        writes.push(Write::InsertEntry(entry));
        writes.push(
            Write::DeleteValue {
                address: Address::PendingEntry {
                    entry_id: items[i].call.result_entry_id().clone(),
                },
            },
        );
        if let Some(row) = make_result_usage(&items[i], &usage_ids[i]) {
            let row_place: usize = writes.len();
            let row_pair = (row.clone(), row_place);
            rows.push(row_pair);
            assert(rows.deep_view() =~= rows_before.push((row.deep_view(), row_place)));
            writes.push(Write::InsertUsage(row));
        }
        assert(writes.deep_view() =~= before + result_writes(
            all[i as int],
            tip_before(tip, all, i as int),
            ids[i as int],
        ));
        parent_id = Some(items[i].call.result_entry_id().clone());
        i += 1;
    }
    PlacedResults { writes, entries, rows, tip_id: parent_id }
}

proof fn lemma_row_stays(rows: Seq<(UsageRowView, usize)>, n: int, id: Seq<char>)
    requires
        0 <= n <= rows.len(),
        row_for(rows.take(n), id) is Some,
    ensures
        row_for(rows, id) == row_for(rows.take(n), id),
    decreases rows.len(),
{
    if n < rows.len() {
        assert(rows.drop_last().take(n) =~= rows.take(n));
        lemma_row_stays(rows.drop_last(), n, id);
    } else {
        assert(rows.take(n) =~= rows);
    }
}

fn find_row(rows: &Vec<(UsageRow, usize)>, id: &String) -> (r: Option<(UsageRow, usize)>)
    ensures
        r.deep_view() == row_for(rows.deep_view(), id@),
{
    let mut i: usize = 0;
    while i < rows.len()
        invariant
            i <= rows.len(),
            row_for(rows.deep_view().take(i as int), id@) is None,
        decreases rows.len() - i,
    {
        proof {
            lemma_prefix_push(*rows, i as int);
        }
        let found = match &rows[i].0.entry_id {
            Some(entry_id) => *entry_id == *id,
            None => false,
        };
        if found {
            proof {
                lemma_row_stays(rows.deep_view(), i as int + 1, id@);
            }
            return Some((rows[i].0.clone(), rows[i].1));
        }
        i += 1;
    }
    assert(rows.deep_view().take(i as int) =~= rows.deep_view());
    None
}

fn plan_placed_events(
    lane_name: &String,
    placed: &PlacedResults,
    Ghost(tip): Ghost<Option<Seq<char>>>,
    Ghost(all): Ghost<Seq<PlacementItemView>>,
    Ghost(ids): Ghost<Seq<Option<Seq<char>>>>,
) -> (r: Vec<PlannedEvent>)
    requires
        placed.rows.deep_view() == placed_rows(tip, all, ids, all.len()),
        placed.entries.len() == all.len(),
        forall|k: int|
            0 <= k < all.len() ==> #[trigger] placed.entries.deep_view()[k] == (
                result_entry(all[k], tip_before(tip, all, k)),
                placed_writes(tip, all, ids, k as nat).len() as usize,
            ),
    ensures
        r.deep_view() == placed_events(lane_name@, tip, all, ids, all.len()),
{
    let mut events: Vec<PlannedEvent> = Vec::new();
    let mut i: usize = 0;
    assert(events.deep_view() =~= Seq::empty());
    while i < placed.entries.len()
        invariant
            i <= placed.entries.len(),
            placed.entries.len() == all.len(),
            placed.rows.deep_view() == placed_rows(tip, all, ids, all.len()),
            forall|k: int|
                0 <= k < all.len() ==> #[trigger] placed.entries.deep_view()[k] == (
                    result_entry(all[k], tip_before(tip, all, k)),
                    placed_writes(tip, all, ids, k as nat).len() as usize,
                ),
            events.deep_view() == placed_events(lane_name@, tip, all, ids, i as nat),
        decreases placed.entries.len() - i,
    {
        let ghost before = events.deep_view();
        assert(placed.entries.deep_view()[i as int] == placed.entries[i as int].deep_view());
        let added = PlannedEvent::Added {
            entry: placed.entries[i].0.clone(),
            write_index: placed.entries[i].1,
            lane: lane_name.clone(),
            recovery: None,
        };
        events.push(added);
        assert(events.deep_view() =~= before.push(added.deep_view()));
        let ghost middle = events.deep_view();
        if let Some((row, write_index)) = find_row(&placed.rows, placed.entries[i].0.id()) {
            let ledger = PlannedEvent::Ledger { row, write_index, lane: lane_name.clone() };
            events.push(ledger);
            assert(events.deep_view() =~= middle.push(ledger.deep_view()));
        }
        i += 1;
    }
    events
}

fn add_names(state: &LaneRuntimeState, added: &mut Vec<String>, names: &Vec<String>)
    ensures
        final(added).deep_view() == names_added(
            state.deep_view().configuration.active_tool_names,
            old(added).deep_view(),
            names.deep_view(),
        ),
{
    let ghost start = added.deep_view();
    let ghost active = state.deep_view().configuration.active_tool_names;
    let mut i: usize = 0;
    while i < names.len()
        invariant
            i <= names.len(),
            active == state.deep_view().configuration.active_tool_names,
            added.deep_view() == names_added(active, start, names.deep_view().take(i as int)),
        decreases names.len() - i,
    {
        let ghost before = added.deep_view();
        proof {
            lemma_prefix_push(*names, i as int);
        }
        if !next_config_contains(state, added, &names[i]) {
            added.push(names[i].clone());
            assert(added.deep_view() =~= before.push(names[i as int]@));
        }
        i += 1;
    }
    assert(names.deep_view().take(i as int) =~= names.deep_view());
}

fn activate(state: &LaneRuntimeState, items: &Vec<PlacementItem>) -> (r: Vec<String>)
    ensures
        r.deep_view() == activated(
            state.deep_view().configuration.active_tool_names,
            items.deep_view(),
            items.len() as nat,
        ),
{
    let ghost active = state.deep_view().configuration.active_tool_names;
    let mut added: Vec<String> = Vec::new();
    let mut i: usize = 0;
    assert(added.deep_view() =~= Seq::empty());
    while i < items.len()
        invariant
            i <= items.len(),
            active == state.deep_view().configuration.active_tool_names,
            added.deep_view() == activated(active, items.deep_view(), i as nat),
        decreases items.len() - i,
    {
        if let Some(names) = &items[i].message.added_tool_names {
            add_names(state, &mut added, names);
        }
        i += 1;
    }
    added
}

fn complete_call(calls: &mut Vec<ToolCall>, item: &PlacementItem)
    ensures
        final(calls).deep_view() == completed_by(old(calls).deep_view(), item.deep_view()),
{
    let ghost start = calls.deep_view();
    let ghost done = completed_by(start, item.deep_view());
    let mut i: usize = 0;
    while i < calls.len()
        invariant
            i <= calls.len(),
            calls.len() == start.len(),
            done == completed_by(start, item.deep_view()),
            forall|k: int| 0 <= k < i ==> #[trigger] calls.deep_view()[k] == done[k],
            forall|k: int| i <= k < calls.len() ==> #[trigger] calls.deep_view()[k] == start[k],
        decreases calls.len() - i,
    {
        assert(calls.deep_view()[i as int] == start[i as int]);
        if calls[i].is_call(&item.call) {
            let ghost before = calls.deep_view();
            let completed = ToolCall::Completed {
                source_index: calls[i].source_index(),
                result_entry_id: calls[i].result_entry_id().clone(),
                terminate: item.call.terminates(),
            };
            calls[i] = completed;
            assert(calls.deep_view() =~= before.update(i as int, completed.deep_view()));
        }
        i += 1;
    }
    assert(calls.deep_view() =~= done);
}

fn complete_calls(calls: &Vec<ToolCall>, items: &Vec<PlacementItem>) -> (r: Vec<ToolCall>)
    ensures
        r.deep_view() == completed_calls(
            calls.deep_view(),
            items.deep_view(),
            items.len() as nat,
        ),
{
    let mut completed = calls.clone();
    assert(completed.deep_view() =~= calls.deep_view());
    let mut i: usize = 0;
    while i < items.len()
        invariant
            i <= items.len(),
            completed.deep_view() == completed_calls(
                calls.deep_view(),
                items.deep_view(),
                i as nat,
            ),
        decreases items.len() - i,
    {
        complete_call(&mut completed, &items[i]);
        i += 1;
    }
    completed
}

fn are_completed(calls: &Vec<ToolCall>) -> (r: bool)
    ensures
        r == all_completed(calls.deep_view()),
{
    let mut i: usize = 0;
    while i < calls.len()
        invariant
            i <= calls.len(),
            forall|k: int| 0 <= k < i ==> (#[trigger] calls.deep_view()[k]) is Completed,
        decreases calls.len() - i,
    {
        match &calls[i] {
            ToolCall::Completed { .. } => {},
            _ => {
                assert(!(calls.deep_view()[i as int] is Completed));
                return false;
            },
        }
        i += 1;
    }
    true
}

fn do_terminate(calls: &Vec<ToolCall>) -> (r: bool)
    ensures
        r == all_terminate(calls.deep_view()),
{
    let mut i: usize = 0;
    while i < calls.len()
        invariant
            i <= calls.len(),
            forall|k: int|
                0 <= k < i ==> (#[trigger] calls.deep_view()[k] matches ToolCallView::Completed {
                    terminate,
                    ..
                } && terminate),
        decreases calls.len() - i,
    {
        let terminates = match &calls[i] {
            ToolCall::Completed { terminate, .. } => *terminate,
            _ => false,
        };
        if !terminates {
            assert(!(calls.deep_view()[i as int] matches ToolCallView::Completed {
                terminate,
                ..
            } && terminate));
            return false;
        }
        i += 1;
    }
    true
}

/// Places results in one commit. `arguments` are the addresses of the stored
/// arguments of the turn. The result tells whether the batch is complete.
pub fn commit_placement(
    lane_name: &String,
    state: &LaneRuntimeState,
    run: &OperationState,
    items: &Vec<PlacementItem>,
    usage_ids: &Vec<Option<String>>,
    arguments: Vec<Address>,
) -> (r: OperationCommand<bool>)
    requires
        run.deep_view() is Tools,
        items.len() == usage_ids.len(),
    ensures
        run.deep_view() matches OperationStateView::Tools { scope, batch } && r.deep_view()
            == placement_command(
            lane_name@,
            state.deep_view(),
            scope,
            batch,
            items.deep_view(),
            usage_ids.deep_view(),
            arguments.deep_view(),
        ),
{
    let (scope, batch) = match run {
        OperationState::Tools { scope, batch } => (scope, batch),
        _ => vstd::pervasive::unreached(),
    };
    let placed = place_results(state.tip_id.clone(), items, usage_ids);
    let mut events = plan_placed_events(
        lane_name,
        &placed,
        Ghost(state.tip_id.deep_view()),
        Ghost(items.deep_view()),
        Ghost(usage_ids.deep_view()),
    );
    let added = activate(state, items);
    let completed = complete_calls(&batch.calls, items);
    let complete = are_completed(&completed);
    let mut configuration = state.configuration.clone();
    append_all(&mut configuration.active_tool_names, added.clone());
    let ghost added_view = added.deep_view();
    let ghost config_view = configuration.deep_view();
    let ghost active = state.deep_view().configuration.active_tool_names;
    let mut writes = placed.writes;
    let ghost written = writes.deep_view();
    let ghost planned = events.deep_view();
    if added.len() > 0 {
        writes.push(write_configuration(lane_name, configuration.clone()));
        let update = PlannedEvent::Ready(
            HarnessEvent::ConfigUpdate {
                lane: Some(lane_name.clone()),
                payload: ConfigUpdatePayload::ActiveTools {
                    value: configuration.active_tool_names.clone(),
                    previous: state.configuration.active_tool_names.clone(),
                },
                recovery: None,
            },
        );
        events.push(update);
        assert(events.deep_view() =~= planned + seq![update.deep_view()]);
    } else {
        assert(events.deep_view() =~= planned + Seq::empty());
    }
    let ghost configured = if added_view.len() == 0 {
        Seq::empty()
    } else {
        seq![configuration_write(lane_name@, config_view)]
    };
    assert(writes.deep_view() =~= written + configured);
    writes.push(write_tip(lane_name, placed.tip_id.clone()));
    let ghost moved = written + configured + seq![tip_write(lane_name@, placed.tip_id.deep_view())];
    assert(writes.deep_view() =~= moved);
    let next = if complete {
        crate::drive::terminal::push_deletions(&mut writes, arguments);
        OperationState::Checkpoint {
            scope: scope.clone(),
            continuation: if do_terminate(&completed) {
                Continuation::MayFinish { include_final_assistant: false }
            } else {
                Continuation::NeedAssistant { overflow_recovery_used: false }
            },
            trigger_entry_id: match &placed.tip_id {
                Some(id) => id.clone(),
                None => String::new(),
            },
        }
    } else {
        assert(writes.deep_view() =~= moved + Seq::empty());
        with_tool_batch(
            run,
            ToolBatch {
                assistant_entry_id: batch.assistant_entry_id.clone(),
                configuration: batch.configuration.clone(),
                turn_id: batch.turn_id.clone(),
                calls: completed,
            },
        )
    };
    OperationCommand::Commit {
        writes,
        operation_state: next,
        lane: Some(
            LanePatch {
                tip_id: Some(placed.tip_id),
                configuration: Some(configuration),
                inbox: None,
            },
        ),
        result: complete,
        events,
    }
}

/// The events of the first `n` results as messages.
pub open spec fn result_message_events(
    lane: Seq<char>,
    operation_id: Seq<char>,
    items: Seq<PlacementItemView>,
    recovery: bool,
    n: nat,
) -> Seq<HarnessEventView>
    decreases n,
{
    if n == 0 {
        Seq::empty()
    } else {
        let message = AgentMessageView::ToolResult(items[n - 1].message);
        result_message_events(lane, operation_id, items, recovery, (n - 1) as nat).push(
            HarnessEventView::MessageStart {
                lane,
                run_id: Some(operation_id),
                message,
                recovery: Some(recovery),
            },
        ).push(
            HarnessEventView::MessageEnd {
                lane,
                run_id: Some(operation_id),
                message,
                entry_id: Some(items[n - 1].call.result_entry_id()),
                recovery: Some(recovery),
            },
        )
    }
}

/// Announces results as messages before they are placed.
pub fn announce_results(
    lane_name: &String,
    operation_id: &String,
    items: &Vec<PlacementItem>,
    recovery: bool,
) -> (r: Vec<HarnessEvent>)
    ensures
        r.deep_view() == result_message_events(
            lane_name@,
            operation_id@,
            items.deep_view(),
            recovery,
            items.len() as nat,
        ),
{
    let mut events: Vec<HarnessEvent> = Vec::new();
    let mut i: usize = 0;
    assert(events.deep_view() =~= Seq::empty());
    while i < items.len()
        invariant
            i <= items.len(),
            events.deep_view() == result_message_events(
                lane_name@,
                operation_id@,
                items.deep_view(),
                recovery,
                i as nat,
            ),
        decreases items.len() - i,
    {
        let ghost before = events.deep_view();
        let start = HarnessEvent::MessageStart {
            lane: lane_name.clone(),
            run_id: Some(operation_id.clone()),
            message: AgentMessage::ToolResult(items[i].message.clone()),
            recovery: Some(recovery),
        };
        let end = HarnessEvent::MessageEnd {
            lane: lane_name.clone(),
            run_id: Some(operation_id.clone()),
            message: AgentMessage::ToolResult(items[i].message.clone()),
            entry_id: Some(items[i].call.result_entry_id().clone()),
            recovery: Some(recovery),
        };
        events.push(start);
        events.push(end);
        assert(events.deep_view() =~= before.push(start.deep_view()).push(end.deep_view()));
        i += 1;
    }
    events
}

/// The event that ends a turn once its batch is complete.
pub fn turn_end(
    lane_name: &String,
    operation_id: &String,
    turn_id: &String,
    sources: &ToolBatchSource,
    turn_results: &Option<Vec<ToolResultMessage>>,
    complete: bool,
    recovery: bool,
) -> (r: Option<HarnessEvent>)
    ensures
        r.deep_view() == match turn_results.deep_view() {
            Some(tool_results) => if complete {
                Some(
                    HarnessEventView::TurnEnd {
                        lane: lane_name@,
                        run_id: operation_id@,
                        turn_id: turn_id@,
                        message: sources.assistant.deep_view(),
                        tool_results,
                        recovery: Some(recovery),
                    },
                )
            } else {
                None
            },
            None => None,
        },
{
    match turn_results {
        Some(tool_results) => if complete {
            Some(
                HarnessEvent::TurnEnd {
                    lane: lane_name.clone(),
                    run_id: operation_id.clone(),
                    turn_id: turn_id.clone(),
                    message: sources.assistant.clone(),
                    tool_results: tool_results.clone(),
                    recovery: Some(recovery),
                },
            )
        } else {
            None
        },
        None => None,
    }
}

/// Whether the completed calls of a batch come first.
pub open spec fn completed_first(calls: Seq<ToolCallView>) -> bool {
    forall|i: int, j: int|
        0 <= i < j < calls.len() && (#[trigger] calls[j]) is Completed ==> (
        #[trigger] calls[i]) is Completed
}

/// Whether no two calls of a batch are the same.
pub open spec fn calls_distinct(calls: Seq<ToolCallView>) -> bool {
    forall|i: int, j: int|
        0 <= i < j < calls.len() ==> !(#[trigger] calls[i]).is_call(#[trigger] calls[j])
}

/// The calls of a placement are those of the run of staged outcomes.
proof fn lemma_items_are_calls(
    source: ToolBatchSource,
    rows: Seq<PendingRowView>,
    calls: Seq<ToolCallView>,
    start: int,
    end: int,
)
    requires
        0 <= start <= end <= calls.len(),
    ensures
        placement_items(source, rows, calls, start, end) matches Ok(items) ==> items.len() == end
            - start && forall|k: int|
            0 <= k < items.len() ==> (#[trigger] items[k]).call == calls[start + k],
    decreases end - start,
{
    if start < end {
        lemma_items_are_calls(source, rows, calls, start, end - 1);
    }
}

/// Completing the calls of a run completes exactly that run.
proof fn lemma_completed_run(
    calls: Seq<ToolCallView>,
    items: Seq<PlacementItemView>,
    start: int,
    n: nat,
)
    requires
        0 <= start,
        start + items.len() <= calls.len(),
        n <= items.len(),
        calls_distinct(calls),
        forall|k: int| 0 <= k < items.len() ==> (#[trigger] items[k]).call == calls[start + k],
    ensures
        completed_calls(calls, items, n).len() == calls.len(),
        forall|i: int|
            0 <= i < calls.len() ==> #[trigger] completed_calls(calls, items, n)[i] == if start
                <= i < start + n {
                ToolCallView::Completed {
                    source_index: calls[i].source_index(),
                    result_entry_id: calls[i].result_entry_id(),
                    terminate: calls[i].terminates(),
                }
            } else {
                calls[i]
            },
    decreases n,
{
    if n > 0 {
        lemma_completed_run(calls, items, start, (n - 1) as nat);
        let before = completed_calls(calls, items, (n - 1) as nat);
        let item = items[n - 1];
        assert(item.call == calls[start + n - 1]);
        assert forall|i: int| 0 <= i < calls.len() implies #[trigger] completed_calls(
            calls,
            items,
            n,
        )[i] == if start <= i < start + n {
            ToolCallView::Completed {
                source_index: calls[i].source_index(),
                result_entry_id: calls[i].result_entry_id(),
                terminate: calls[i].terminates(),
            }
        } else {
            calls[i]
        } by {
            assert(completed_calls(calls, items, n)[i] == completed_by(before, item)[i]);
            assert(before[i].source_index() == calls[i].source_index());
            assert(before[i].result_entry_id() == calls[i].result_entry_id());
            if i < start + n - 1 {
                assert(!calls[i].is_call(calls[start + n - 1]));
            } else if i > start + n - 1 {
                assert(!calls[start + n - 1].is_call(calls[i]));
            }
        }
    }
}

/// Results are placed in the order of their calls: after each placement the
/// completed calls come first, the placed ones are completed with the wish to
/// end the run that their outcomes carry, and the others are untouched.
pub proof fn law_results_are_placed_in_call_order(
    source: ToolBatchSource,
    rows: Seq<PendingRowView>,
    placed: Seq<EntryView>,
    calls: Seq<ToolCallView>,
    read: PlacementReadView,
)
    requires
        calls_distinct(calls),
        completed_first(calls),
        placement_read(source, rows, placed, calls) == Ok::<Option<PlacementReadView>, Seq<char>>(
            Some(read),
        ),
    ensures
        ({
            let after = completed_calls(calls, read.items, read.items.len());
            let start = first_open(calls, 0);
            let end = ready_end(calls, start);
            &&& after.len() == calls.len()
            &&& completed_first(after)
            &&& start < end
            &&& read.items.len() == end - start
            &&& forall|i: int|
                0 <= i < calls.len() ==> #[trigger] after[i] == if start <= i < end {
                    ToolCallView::Completed {
                        source_index: calls[i].source_index(),
                        result_entry_id: calls[i].result_entry_id(),
                        terminate: calls[i].terminates(),
                    }
                } else {
                    calls[i]
                }
            &&& (all_completed(after) <==> end == calls.len())
        }),
{
    let start = first_open(calls, 0);
    let end = ready_end(calls, start);
    let after = completed_calls(calls, read.items, read.items.len());
    lemma_ready_run(calls, 0);
    lemma_ready_run(calls, start);
    lemma_items_are_calls(source, rows, calls, start, end);
    lemma_completed_run(calls, read.items, start, read.items.len());
    assert forall|i: int, j: int|
        0 <= i < j < after.len() && (#[trigger] after[j]) is Completed implies (
    #[trigger] after[i]) is Completed by {
        if j >= end && end < calls.len() {
            if calls[j] is Completed {
                if end == j {
                    assert(!(calls[end] is OutcomeReady));
                    assert(calls[start] is Completed);
                } else {
                    assert(calls[start] is Completed);
                }
            }
        }
    }
    if end == calls.len() {
        assert(all_completed(after));
    } else {
        assert(after[end] == calls[end]);
        if calls[end] is Completed {
            assert(calls[start] is Completed);
        }
    }
}

/// The tools that results activate were not active, and each is activated once.
pub proof fn law_activated_tools_are_new(
    active: Seq<Seq<char>>,
    items: Seq<PlacementItemView>,
    n: nat,
)
    requires
        n <= items.len(),
    ensures
        activated(active, items, n).no_duplicates(),
        forall|i: int|
            0 <= i < activated(active, items, n).len() ==> !active.contains(
                #[trigger] activated(active, items, n)[i],
            ),
    decreases n,
{
    if n > 0 {
        law_activated_tools_are_new(active, items, (n - 1) as nat);
        lemma_names_added(
            active,
            activated(active, items, (n - 1) as nat),
            asked_names(items[n - 1]),
        );
    }
}

proof fn lemma_names_added(active: Seq<Seq<char>>, added: Seq<Seq<char>>, names: Seq<Seq<char>>)
    requires
        added.no_duplicates(),
        forall|i: int| 0 <= i < added.len() ==> !active.contains(#[trigger] added[i]),
    ensures
        names_added(active, added, names).no_duplicates(),
        forall|i: int|
            0 <= i < names_added(active, added, names).len() ==> !active.contains(
                #[trigger] names_added(active, added, names)[i],
            ),
    decreases names.len(),
{
    if names.len() > 0 {
        lemma_names_added(active, added, names.drop_last());
    }
}

/// The writes of results touch nothing but their staged payloads.
proof fn lemma_placed_writes_spare(
    tip_id: Option<Seq<char>>,
    items: Seq<PlacementItemView>,
    usage_ids: Seq<Option<Seq<char>>>,
    n: nat,
    address: AddressView,
)
    requires
        n <= items.len(),
        !(address is PendingEntry),
    ensures
        spares(placed_writes(tip_id, items, usage_ids, n), address),
    decreases n,
{
    if n > 0 {
        lemma_placed_writes_spare(tip_id, items, usage_ids, (n - 1) as nat, address);
        let one = result_writes(
            items[n - 1],
            tip_before(tip_id, items, n - 1),
            usage_ids[n - 1],
        );
        assert(spares(one, address));
        lemma_spares_concat(
            placed_writes(tip_id, items, usage_ids, (n - 1) as nat),
            one,
            address,
        );
    }
}

/// Placing results keeps the lane in step with storage.
pub proof fn law_placing_results_keeps_step(
    store: Map<AddressView, DurableValueView>,
    lane: Seq<char>,
    state: LaneRuntimeStateView,
    scope: OperationScopeView,
    batch: ToolBatchView,
    items: Seq<PlacementItemView>,
    usage_ids: Seq<Option<Seq<char>>>,
    arguments: Seq<AddressView>,
)
    requires
        in_step(store, lane, state),
        state.operation matches Some(operation) && operation.meta.intent is Run
            && operation.state == (OperationStateView::Tools { scope, batch }),
        items.len() == usage_ids.len(),
        forall|i: int|
            0 <= i < arguments.len() ==> (#[trigger] arguments[i]) is OperationToolArgs,
    ensures
        ({
            let command = placement_command(
                lane,
                state,
                scope,
                batch,
                items,
                usage_ids,
                arguments,
            );
            safe_decision(store, lane, state, command) && keeps_step(
                store,
                lane,
                settled(lane, state, command),
            )
        }),
{
    let command = placement_command(lane, state, scope, batch, items, usage_ids, arguments);
    let operation_id = state.operation->Some_0.meta.operation_id;
    let n = items.len();
    let tip = tip_before(state.tip_id, items, n as int);
    let active = state.configuration.active_tool_names;
    let added = activated(active, items, n);
    let configuration = LaneConfigurationView {
        active_tool_names: active + added,
        ..state.configuration
    };
    let tip_address = AddressView::BranchTip { lane };
    let config_address = AddressView::LaneConfig { lane };
    let state_address = AddressView::LaneState { lane };
    let meta_address = AddressView::OperationMeta { operation_id };
    let placed = placed_writes(state.tip_id, items, usage_ids, n);
    lemma_placed_writes_spare(state.tip_id, items, usage_ids, n, config_address);
    lemma_placed_writes_spare(state.tip_id, items, usage_ids, n, state_address);
    lemma_placed_writes_spare(state.tip_id, items, usage_ids, n, meta_address);
    lemma_spared(store, placed, config_address);
    let configured = if added.len() == 0 {
        Seq::empty()
    } else {
        seq![configuration_write(lane, configuration)]
    };
    let tipped = seq![tip_write(lane, tip)];
    let calls = completed_calls(batch.calls, items, n);
    let dropped = if all_completed(calls) {
        deletions(arguments)
    } else {
        Seq::empty()
    };
    let writes = placed + configured + tipped + dropped;
    lemma_committed_concat(store, placed, configured);
    lemma_committed_concat(store, placed + configured, tipped);
    lemma_committed_concat(store, placed + configured + tipped, dropped);
    let base = committed(store, placed);
    if added.len() == 0 {
        assert(active + added =~= active);
        assert(committed(base, configured) =~= base);
    } else {
        assert(configured =~= Seq::empty().push(configuration_write(lane, configuration)));
        lemma_committed_push(base, Seq::empty(), configuration_write(lane, configuration));
    }
    let middle = committed(store, placed + configured);
    assert(holds(middle, config_address, DurableValueView::Configuration(configuration)));
    assert(tipped =~= Seq::empty().push(tip_write(lane, tip)));
    lemma_committed_push(middle, Seq::empty(), tip_write(lane, tip));
    assert(spares(dropped, tip_address));
    assert(spares(dropped, config_address));
    let tipped_store = committed(store, placed + configured + tipped);
    lemma_spared(tipped_store, dropped, tip_address);
    lemma_spared(tipped_store, dropped, config_address);
    assert(spares(configured, state_address) && spares(configured, meta_address));
    assert(spares(tipped, state_address) && spares(tipped, meta_address));
    assert(spares(dropped, state_address) && spares(dropped, meta_address));
    lemma_spares_concat(placed, configured, state_address);
    lemma_spares_concat(placed + configured, tipped, state_address);
    lemma_spares_concat(placed + configured + tipped, dropped, state_address);
    lemma_spares_concat(placed, configured, meta_address);
    lemma_spares_concat(placed + configured, tipped, meta_address);
    lemma_spares_concat(placed + configured + tipped, dropped, meta_address);
    law_settling_keeps_step(store, lane, state, command);
}

} // verus!
