//! Progress of an effect that is stored while it runs.

use crate::command::{LaneCommand, LaneCommandView};
use crate::drive::terminal::collecting;
use crate::durable::{committed, in_step, lemma_spared};
use crate::json::Json;
use crate::lane::settle::keeps_step;
use crate::model::event::PlannedEvent;
use crate::model::message::AgentToolResult;
use crate::model::session::{OperationState, OperationStateView, ToolCall, ToolCallView};
use crate::model::storage::{Address, AddressView, DurableValue, DurableValueView, Write, WriteView};
use crate::types::{LaneRuntimeState, LaneRuntimeStateView};
use vstd::prelude::*;

verus! {

/// Whether a lane still waits for a response.
pub open spec fn awaits_response(
    state: LaneRuntimeStateView,
    response_entry_id: Seq<char>,
) -> bool {
    state.operation matches Some(operation) && collecting(operation.state) == Some(
        response_entry_id,
    )
}

/// Tells whether a lane still waits for a response.
pub fn owns_response(state: &LaneRuntimeState, response_entry_id: &String) -> (r: bool)
    ensures
        r == awaits_response(state.deep_view(), response_entry_id@),
{
    match &state.operation {
        Some(operation) => match &operation.state {
            OperationState::AssistantEffectPending { response_entry_id: id, .. }
            | OperationState::DeferredEffectPending { response_entry_id: id, .. } => {
                *id == *response_entry_id
            },
            _ => false,
        },
        None => false,
    }
}

/// Whether a call of a batch is running.
pub open spec fn call_running(
    calls: Seq<ToolCallView>,
    source_index: usize,
    invocation_id: Seq<char>,
) -> bool {
    exists|i: int|
        0 <= i < calls.len() && (#[trigger] calls[i]) is EffectPending && calls[i].source_index()
            == source_index && calls[i].result_entry_id() == invocation_id
}

/// Whether a lane still waits for a tool.
pub open spec fn awaits_tool(
    state: LaneRuntimeStateView,
    turn_id: Seq<char>,
    source_index: usize,
    invocation_id: Seq<char>,
) -> bool {
    state.operation matches Some(operation) && (operation.state
        matches OperationStateView::Tools { batch, .. } && batch.turn_id == turn_id
        && call_running(batch.calls, source_index, invocation_id))
}

fn is_running(calls: &Vec<ToolCall>, source_index: usize, invocation_id: &String) -> (r: bool)
    ensures
        r == call_running(calls.deep_view(), source_index, invocation_id@),
{
    let mut i: usize = 0;
    while i < calls.len()
        invariant
            i <= calls.len(),
            forall|k: int|
                0 <= k < i ==> !((#[trigger] calls.deep_view()[k]) is EffectPending
                    && calls.deep_view()[k].source_index() == source_index
                    && calls.deep_view()[k].result_entry_id() == invocation_id@),
        decreases calls.len() - i,
    {
        if let ToolCall::EffectPending { source_index: index, result_entry_id, .. } = &calls[i] {
            if *index == source_index && *result_entry_id == *invocation_id {
                assert(calls.deep_view()[i as int] is EffectPending);
                return true;
            }
        }
        i += 1;
    }
    false
}

/// Tells whether a lane still waits for a tool.
pub fn owns_tool(
    state: &LaneRuntimeState,
    turn_id: &String,
    source_index: usize,
    invocation_id: &String,
) -> (r: bool)
    ensures
        r == awaits_tool(state.deep_view(), turn_id@, source_index, invocation_id@),
{
    match &state.operation {
        Some(operation) => match &operation.state {
            OperationState::Tools { batch, .. } => batch.turn_id == *turn_id && is_running(
                &batch.calls,
                source_index,
                invocation_id,
            ),
            _ => false,
        },
        None => false,
    }
}

/// The command that stores progress: only while the lane still waits for it.
pub open spec fn progress_command(
    state: LaneRuntimeStateView,
    owned: bool,
    write: WriteView,
) -> LaneCommandView<()> {
    if owned {
        LaneCommandView::Commit {
            writes: seq![write],
            next: state,
            result: (),
            events: Seq::empty(),
        }
    } else {
        LaneCommandView::Return { result: () }
    }
}

fn store_progress(state: LaneRuntimeState, owned: bool, write: Write) -> (r: LaneCommand<()>)
    ensures
        r.deep_view() == progress_command(state.deep_view(), owned, write.deep_view()),
{
    if !owned {
        return LaneCommand::Return { result: () };
    }
    let ghost written = write.deep_view();
    let writes = vec![write];
    assert(writes.deep_view() =~= seq![written]);
    let events: Vec<PlannedEvent> = Vec::new();
    assert(events.deep_view() =~= Seq::empty());
    LaneCommand::Commit { writes, next: state, result: (), events }
}

/// Stores one more frame of a response.
pub fn write_frame(
    state: LaneRuntimeState,
    operation_id: &String,
    response_entry_id: &String,
    frame: Json,
) -> (r: LaneCommand<()>)
    ensures
        r.deep_view() == progress_command(
            state.deep_view(),
            awaits_response(state.deep_view(), response_entry_id@),
            WriteView::AppendList {
                address: AddressView::PendingAssistantFrames {
                    operation_id: operation_id@,
                    response_entry_id: response_entry_id@,
                },
                value: frame.deep_view(),
            },
        ),
{
    let owned = owns_response(&state, response_entry_id);
    store_progress(
        state,
        owned,
        Write::AppendList {
            address: Address::PendingAssistantFrames {
                operation_id: operation_id.clone(),
                response_entry_id: response_entry_id.clone(),
            },
            value: frame,
        },
    )
}

/// Stores the latest output of a tool.
pub fn write_tool_output(
    state: LaneRuntimeState,
    operation_id: &String,
    turn_id: &String,
    source_index: usize,
    invocation_id: &String,
    snapshot: AgentToolResult,
) -> (r: LaneCommand<()>)
    ensures
        r.deep_view() == progress_command(
            state.deep_view(),
            awaits_tool(state.deep_view(), turn_id@, source_index, invocation_id@),
            WriteView::SetValue {
                address: AddressView::PendingToolOutput {
                    operation_id: operation_id@,
                    result_entry_id: invocation_id@,
                },
                value: DurableValueView::ToolOutput(snapshot.deep_view()),
            },
        ),
{
    let owned = owns_tool(&state, turn_id, source_index, invocation_id);
    store_progress(
        state,
        owned,
        Write::SetValue {
            address: Address::PendingToolOutput {
                operation_id: operation_id.clone(),
                result_entry_id: invocation_id.clone(),
            },
            value: DurableValue::ToolOutput(snapshot),
        },
    )
}

/// The number of frames that are read at a time.
pub const FRAME_PAGE: usize = 1_000;

/// Where the next page of frames starts: behind those that were read, unless the
/// last page was not full.
pub fn next_frame_page(page_len: usize, read: usize) -> (r: Option<usize>)
    ensures
        r == if page_len < FRAME_PAGE {
            None
        } else {
            Some(read)
        },
{
    if page_len < FRAME_PAGE {
        None
    } else {
        Some(read)
    }
}

/// A channel through which an effect stores its progress. It holds the latest
/// item that was written; what is there when it is drained is stored.
#[derive(Debug, PartialEq, Eq)]
pub struct OpenProgress<T> {
    pub sealed: bool,
    pub latest: Option<T>,
}

/// A channel after an item was written to it.
pub open spec fn written<T>(channel: OpenProgress<T>, item: T) -> OpenProgress<T> {
    if channel.sealed {
        channel
    } else {
        OpenProgress { latest: Some(item), ..channel }
    }
}

/// A channel after items were written to it, one after the other.
pub open spec fn all_written<T>(channel: OpenProgress<T>, items: Seq<T>) -> OpenProgress<T>
    decreases items.len(),
{
    if items.len() == 0 {
        channel
    } else {
        written(all_written(channel, items.drop_last()), items.last())
    }
}

impl<T> OpenProgress<T> {
    /// Opens a channel.
    pub fn open_progress() -> (r: Self)
        ensures
            !r.sealed,
            r.latest is None,
    {
        OpenProgress { sealed: false, latest: None }
    }

    /// Puts an item in the place of the latest, unless the channel is closed.
    pub fn write(&mut self, item: T)
        ensures
            *final(self) == written(*old(self), item),
    {
        if !self.sealed {
            self.latest = Some(item);
        }
    }

    /// Closes the channel for good. What it holds stays.
    pub fn seal(&mut self)
        ensures
            final(self).sealed,
            final(self).latest == old(self).latest,
    {
        self.sealed = true;
    }

    /// Takes out what is to be stored.
    pub fn drain(&mut self) -> (r: Option<T>)
        ensures
            r == old(self).latest,
            final(self).latest is None,
            final(self).sealed == old(self).sealed,
    {
        self.latest.take()
    }
}

/// However much is written to an open channel, it holds the last item alone; a
/// closed channel takes nothing.
pub proof fn law_a_channel_holds_the_latest<T>(channel: OpenProgress<T>, items: Seq<T>)
    ensures
        all_written(channel, items).sealed == channel.sealed,
        all_written(channel, items).latest == if channel.sealed || items.len() == 0 {
            channel.latest
        } else {
            Some(items.last())
        },
    decreases items.len(),
{
    if items.len() > 0 {
        law_a_channel_holds_the_latest(channel, items.drop_last());
    }
}

/// A lane whose leaf runs no effect stores no progress: what still comes in from
/// an effect that is over changes nothing.
pub proof fn law_late_progress_is_dropped(
    state: LaneRuntimeStateView,
    response_entry_id: Seq<char>,
    turn_id: Seq<char>,
    source_index: usize,
    invocation_id: Seq<char>,
    write: WriteView,
)
    requires
        state.operation matches Some(operation) ==> collecting(operation.state) is None && !(
        operation.state is Tools),
    ensures
        progress_command(state, awaits_response(state, response_entry_id), write) is Return,
        progress_command(
            state,
            awaits_tool(state, turn_id, source_index, invocation_id),
            write,
        ) is Return,
{
}

/// Whether a write is made beside the moves of an operation: usage, frames, the
/// output of a running tool and its memos.
pub open spec fn is_side_write(write: WriteView) -> bool {
    match write {
        WriteView::InsertUsage(_) => true,
        WriteView::AppendList { .. } => true,
        WriteView::SetValue { address, .. } => address is PendingToolOutput
            || address is OperationToolMemo,
        WriteView::DeleteValue { address } => address is PendingToolOutput
            || address is OperationToolMemo,
        _ => false,
    }
}

/// Side writes keep a lane in step with storage as it is.
pub proof fn law_side_writes_keep_step(
    store: Map<AddressView, DurableValueView>,
    lane: Seq<char>,
    state: LaneRuntimeStateView,
    writes: Seq<WriteView>,
)
    requires
        in_step(store, lane, state),
        forall|i: int| 0 <= i < writes.len() ==> is_side_write(#[trigger] writes[i]),
    ensures
        in_step(committed(store, writes), lane, state),
{
    lemma_spared(store, writes, AddressView::BranchTip { lane });
    lemma_spared(store, writes, AddressView::LaneConfig { lane });
    lemma_spared(store, writes, AddressView::LaneState { lane });
    if let Some(operation) = state.operation {
        let operation_id = operation.meta.operation_id;
        lemma_spared(store, writes, AddressView::OperationMeta { operation_id });
        lemma_spared(store, writes, AddressView::OperationState { operation_id });
    }
}

/// Storing progress keeps a lane in step with storage.
pub proof fn law_progress_keeps_step(
    store: Map<AddressView, DurableValueView>,
    lane: Seq<char>,
    state: LaneRuntimeStateView,
    owned: bool,
    write: WriteView,
)
    requires
        in_step(store, lane, state),
        is_side_write(write),
    ensures
        keeps_step(store, lane, progress_command(state, owned, write)),
{
    law_side_writes_keep_step(store, lane, state, seq![write]);
}

} // verus!
