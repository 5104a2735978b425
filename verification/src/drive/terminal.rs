//! Ending an operation: its result and the scratch state it leaves behind.

use crate::durable::{committed, spares, touches};
use crate::model::session::{
    OperationError, OperationErrorView, OperationMeta, OperationMetaView, OperationResultRecord,
    OperationResultRecordView, OperationState, OperationStateView, TerminalStatus, ToolCall,
    ToolCallView,
};
use crate::model::storage::{Address, AddressView, DurableValueView, Write, WriteView};
use crate::text::text_in;
use crate::transcript::lemma_prefix_push;
use vstd::prelude::*;

verus! {

/// The result of an operation.
pub open spec fn result_record(
    meta: OperationMetaView,
    status: TerminalStatus,
    tip_id: Option<Seq<char>>,
    error: Option<OperationErrorView>,
    ended_at: u64,
) -> OperationResultRecordView {
    OperationResultRecordView {
        operation_id: meta.operation_id,
        kind: meta.intent,
        status,
        error,
        from_tip_id: meta.source_tip_id,
        tip_id,
        started_at: meta.started_at,
        ended_at,
    }
}

/// Makes the result of an operation. Failed operations, and only those, carry
/// an error.
pub fn operation_result_record(
    meta: &OperationMeta,
    status: TerminalStatus,
    tip_id: Option<String>,
    error: Option<OperationError>,
    ended_at: u64,
) -> (r: OperationResultRecord)
    requires
        (status == TerminalStatus::Failed) == (error is Some),
    ensures
        r.deep_view() == result_record(
            meta.deep_view(),
            status,
            tip_id.deep_view(),
            error.deep_view(),
            ended_at,
        ),
{
    OperationResultRecord {
        operation_id: meta.operation_id.clone(),
        kind: meta.intent.clone(),
        status,
        error,
        from_tip_id: meta.source_tip_id.clone(),
        tip_id,
        started_at: meta.started_at,
        ended_at,
    }
}

/// The writes that delete the values at some addresses.
pub open spec fn deletions(addresses: Seq<AddressView>) -> Seq<WriteView> {
    Seq::new(addresses.len(), |i: int| WriteView::DeleteValue { address: addresses[i] })
}

/// The result entries of calls whose outcome is staged but not placed, each
/// once, in the order of the calls.
pub open spec fn staged_entries(calls: Seq<ToolCallView>) -> Seq<Seq<char>>
    decreases calls.len(),
{
    if calls.len() == 0 {
        Seq::empty()
    } else {
        let rest = staged_entries(calls.drop_last());
        match calls.last() {
            ToolCallView::OutcomeReady { result_entry_id, .. } => if rest.contains(
                result_entry_id,
            ) {
                rest
            } else {
                rest.push(result_entry_id)
            },
            _ => rest,
        }
    }
}

/// The staged result entries of a leaf.
pub open spec fn staged_of(state: OperationStateView) -> Seq<Seq<char>> {
    match state {
        OperationStateView::Tools { batch, .. } => staged_entries(batch.calls),
        _ => Seq::empty(),
    }
}

/// The response entry whose frames a leaf is collecting.
pub open spec fn collecting(state: OperationStateView) -> Option<Seq<char>> {
    match state {
        OperationStateView::AssistantEffectPending { response_entry_id, .. } => Some(
            response_entry_id,
        ),
        OperationStateView::DeferredEffectPending { response_entry_id, .. } => Some(
            response_entry_id,
        ),
        _ => None,
    }
}

/// The writes that remove all durable traces of an operation but its result.
pub open spec fn cleanup(
    operation_id: Seq<char>,
    state: OperationStateView,
    scratch: Seq<AddressView>,
) -> Seq<WriteView> {
    let frames = match collecting(state) {
        Some(response_entry_id) => seq![
            WriteView::DeleteList {
                address: AddressView::PendingAssistantFrames { operation_id, response_entry_id },
            },
        ],
        None => Seq::empty(),
    };
    let staged = staged_of(state);
    deletions(
        seq![
            AddressView::OperationMeta { operation_id },
            AddressView::OperationState { operation_id },
        ],
    ) + deletions(scratch) + frames + deletions(
        Seq::new(staged.len(), |i: int| AddressView::PendingEntry { entry_id: staged[i] }),
    )
}

pub(crate) fn push_deletions(writes: &mut Vec<Write>, addresses: Vec<Address>)
    ensures
        final(writes).deep_view() == old(writes).deep_view() + deletions(addresses.deep_view()),
{
    let ghost before = writes.deep_view();
    let mut i: usize = 0;
    assert(before + deletions(addresses.deep_view().take(0)) =~= before);
    while i < addresses.len()
        invariant
            i <= addresses.len(),
            writes.deep_view() == before + deletions(addresses.deep_view().take(i as int)),
        decreases addresses.len() - i,
    {
        let ghost so_far = writes.deep_view();
        writes.push(Write::DeleteValue { address: addresses[i].clone() });
        proof {
            lemma_prefix_push(addresses, i as int);
            assert(writes.deep_view() =~= so_far.push(
                WriteView::DeleteValue { address: addresses[i as int].deep_view() },
            ));
            assert(writes.deep_view() =~= before + deletions(
                addresses.deep_view().take(i as int + 1),
            ));
        }
        i += 1;
    }
    assert(addresses.deep_view().take(i as int) =~= addresses.deep_view());
}

fn staged_ids(calls: &Vec<ToolCall>) -> (r: Vec<String>)
    ensures
        r.deep_view() == staged_entries(calls.deep_view()),
{
    let mut ids: Vec<String> = Vec::new();
    let mut i: usize = 0;
    assert(ids.deep_view() =~= Seq::empty());
    while i < calls.len()
        invariant
            i <= calls.len(),
            ids.deep_view() == staged_entries(calls.deep_view().take(i as int)),
        decreases calls.len() - i,
    {
        proof {
            lemma_prefix_push(*calls, i as int);
        }
        if let ToolCall::OutcomeReady { result_entry_id, .. } = &calls[i] {
            let ghost before = ids.deep_view();
            if !text_in(&ids, result_entry_id) {
                ids.push(result_entry_id.clone());
                assert(ids.deep_view() =~= before.push(result_entry_id@));
            }
        }
        i += 1;
    }
    assert(calls.deep_view().take(i as int) =~= calls.deep_view());
    ids
}

/// Removes all durable traces of an operation but its result. `scratch` are the
/// addresses found under the operation's tool arguments, tool memos,
/// preparations and tool outputs, in this order.
pub fn operation_cleanup_writes(
    operation_id: &String,
    state: &OperationState,
    scratch: Vec<Address>,
) -> (r: Vec<Write>)
    ensures
        r.deep_view() == cleanup(operation_id@, state.deep_view(), scratch.deep_view()),
{
    let ghost scratch_view = scratch.deep_view();
    let mut writes: Vec<Write> = Vec::new();
    let owned = vec![
        Address::OperationMeta { operation_id: operation_id.clone() },
        Address::OperationState { operation_id: operation_id.clone() },
    ];
    let ghost op = operation_id@;
    assert(owned.deep_view() =~= seq![
        AddressView::OperationMeta { operation_id: op },
        AddressView::OperationState { operation_id: op },
    ]);
    push_deletions(&mut writes, owned);
    push_deletions(&mut writes, scratch);
    let ghost before_frames = writes.deep_view();
    let ghost mut frames: Seq<WriteView> = Seq::empty();
    match state {
        OperationState::AssistantEffectPending { response_entry_id, .. }
        | OperationState::DeferredEffectPending { response_entry_id, .. } => {
            writes.push(
                Write::DeleteList {
                    address: Address::PendingAssistantFrames {
                        operation_id: operation_id.clone(),
                        response_entry_id: response_entry_id.clone(),
                    },
                },
            );
            proof {
                frames = seq![
                    WriteView::DeleteList {
                        address: AddressView::PendingAssistantFrames {
                            operation_id: op,
                            response_entry_id: response_entry_id@,
                        },
                    },
                ];
            }
        },
        _ => {},
    }
    assert(writes.deep_view() =~= before_frames + frames);
    let ids = match state {
        OperationState::Tools { batch, .. } => staged_ids(&batch.calls),
        _ => Vec::new(),
    };
    let ghost staged = staged_of(state.deep_view());
    assert(ids.deep_view() =~= staged);
    let mut pending: Vec<Address> = Vec::new();
    let mut i: usize = 0;
    while i < ids.len()
        invariant
            i <= ids.len(),
            pending.len() == i,
            forall|k: int|
                0 <= k < i ==> #[trigger] pending[k].deep_view() == (AddressView::PendingEntry {
                    entry_id: ids[k]@,
                }),
        decreases ids.len() - i,
    {
        pending.push(Address::PendingEntry { entry_id: ids[i].clone() });
        i += 1;
    }
    assert(pending.deep_view() =~= Seq::new(
        staged.len(),
        |i: int| AddressView::PendingEntry { entry_id: staged[i] },
    )) by {
        assert forall|k: int| 0 <= k < pending.len() implies #[trigger] pending.deep_view()[k]
            == (AddressView::PendingEntry { entry_id: staged[k] }) by {
            assert(pending[k].deep_view() == (AddressView::PendingEntry { entry_id: ids[k]@ }));
            assert(ids.deep_view()[k] == ids[k]@);
        }
    }
    push_deletions(&mut writes, pending);
    assert(writes.deep_view() =~= cleanup(op, state.deep_view(), scratch_view));
    writes
}

/// Whether an address belongs to the scratch state of operations.
pub open spec fn is_scratch(address: AddressView) -> bool {
    address is OperationToolArgs || address is OperationToolMemo || address is OperationPreparation
        || address is PendingToolOutput
}

/// Whether an address belongs to a lane as such.
pub open spec fn is_lane_address(address: AddressView) -> bool {
    address is BranchTip || address is LaneConfig || address is LaneState
}

/// Removing the traces of an operation leaves lanes, results and labels alone.
pub proof fn lemma_cleanup_spares(
    operation_id: Seq<char>,
    state: OperationStateView,
    scratch: Seq<AddressView>,
    address: AddressView,
)
    requires
        forall|i: int| 0 <= i < scratch.len() ==> is_scratch(#[trigger] scratch[i]),
        is_lane_address(address) || address is OperationResult || address is EntryLabel,
    ensures
        spares(cleanup(operation_id, state, scratch), address),
{
    let writes = cleanup(operation_id, state, scratch);
    assert forall|i: int| 0 <= i < writes.len() implies !touches(#[trigger] writes[i], address) by {
        let n = 2 + scratch.len();
        if 2 <= i < n {
            assert(writes[i] == (WriteView::DeleteValue { address: scratch[i - 2] }));
            assert(is_scratch(scratch[i - 2]));
        }
    }
}

/// Once the traces of an operation are removed, neither its metadata nor its
/// state is left.
pub proof fn law_cleanup_removes_the_operation(
    store: Map<AddressView, DurableValueView>,
    operation_id: Seq<char>,
    state: OperationStateView,
    scratch: Seq<AddressView>,
)
    ensures
        !committed(store, cleanup(operation_id, state, scratch)).contains_key(
            AddressView::OperationMeta { operation_id },
        ),
        !committed(store, cleanup(operation_id, state, scratch)).contains_key(
            AddressView::OperationState { operation_id },
        ),
        forall|i: int|
            0 <= i < scratch.len() ==> !committed(
                store,
                cleanup(operation_id, state, scratch),
            ).contains_key(#[trigger] scratch[i]),
{
    let writes = cleanup(operation_id, state, scratch);
    assert forall|i: int| 0 <= i < writes.len() implies !(#[trigger] writes[i] is SetValue) by {}
    assert(writes[0] == (WriteView::DeleteValue {
        address: AddressView::OperationMeta { operation_id },
    }));
    assert(writes[1] == (WriteView::DeleteValue {
        address: AddressView::OperationState { operation_id },
    }));
    lemma_deleted(store, writes, 0, AddressView::OperationMeta { operation_id });
    lemma_deleted(store, writes, 1, AddressView::OperationState { operation_id });
    assert forall|i: int| 0 <= i < scratch.len() implies !committed(store, writes).contains_key(
        #[trigger] scratch[i],
    ) by {
        assert(writes[i + 2] == (WriteView::DeleteValue { address: scratch[i] }));
        lemma_deleted(store, writes, i + 2, scratch[i]);
    }
}

/// What is deleted and not set again is gone.
proof fn lemma_deleted(
    store: Map<AddressView, DurableValueView>,
    writes: Seq<WriteView>,
    at: int,
    address: AddressView,
)
    requires
        0 <= at < writes.len(),
        writes[at] == (WriteView::DeleteValue { address }),
        forall|i: int| at < i < writes.len() ==> !(#[trigger] writes[i] is SetValue),
    ensures
        !committed(store, writes).contains_key(address),
    decreases writes.len(),
{
    if at < writes.len() - 1 {
        assert(!(writes[writes.len() - 1] is SetValue));
        assert forall|i: int| at < i < writes.drop_last().len() implies !(
        #[trigger] writes.drop_last()[i] is SetValue) by {
            assert(writes.drop_last()[i] == writes[i]);
        }
        lemma_deleted(store, writes.drop_last(), at, address);
    }
}

} // verus!
