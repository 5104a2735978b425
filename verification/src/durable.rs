//! Durable storage as a map, and what it means for a lane to be in step with it.

use crate::model::session::{
    DurableLaneStateView, LaneConfigurationView, OperationMetaView, OperationStateView,
    OperationView,
};
use crate::model::storage::{AddressView, DurableValueView, WriteView};
use crate::restore::{matches_intent, restored, ClassifiedLaneStorageView, RestoreErrorView};
use crate::types::LaneRuntimeStateView;
use vstd::prelude::*;

verus! {

/// Storage after one write. Entries, usage rows and lists live elsewhere.
pub open spec fn applied(
    store: Map<AddressView, DurableValueView>,
    write: WriteView,
) -> Map<AddressView, DurableValueView> {
    match write {
        WriteView::SetValue { address, value } => store.insert(address, value),
        WriteView::DeleteValue { address } => store.remove(address),
        _ => store,
    }
}

/// Storage after a commit: its writes, in order.
pub open spec fn committed(
    store: Map<AddressView, DurableValueView>,
    writes: Seq<WriteView>,
) -> Map<AddressView, DurableValueView>
    decreases writes.len(),
{
    if writes.len() == 0 {
        store
    } else {
        applied(committed(store, writes.drop_last()), writes.last())
    }
}

/// Whether storage holds a value at an address.
pub open spec fn holds(
    store: Map<AddressView, DurableValueView>,
    address: AddressView,
    value: DurableValueView,
) -> bool {
    store.contains_key(address) && store[address] == value
}

/// Whether a write sets or deletes the value at an address.
pub open spec fn touches(write: WriteView, address: AddressView) -> bool {
    match write {
        WriteView::SetValue { address: at, .. } => at == address,
        WriteView::DeleteValue { address: at } => at == address,
        _ => false,
    }
}

/// Whether no write of a list sets or deletes the value at an address.
pub open spec fn spares(writes: Seq<WriteView>, address: AddressView) -> bool {
    forall|i: int| 0 <= i < writes.len() ==> !touches(#[trigger] writes[i], address)
}

/// What a lane records besides its tip and configuration.
pub open spec fn lane_record(state: LaneRuntimeStateView) -> DurableLaneStateView {
    DurableLaneStateView {
        current_operation_id: match state.operation {
            Some(operation) => Some(operation.meta.operation_id),
            None => None,
        },
        last_operation_id: state.last_operation_id,
        inbox: state.inbox,
    }
}

/// Whether storage holds a lane's operation, and the operation could be
/// restored on that lane.
pub open spec fn operation_in_step(
    store: Map<AddressView, DurableValueView>,
    lane: Seq<char>,
    operation: OperationView,
) -> bool {
    let operation_id = operation.meta.operation_id;
    &&& holds(
        store,
        AddressView::OperationMeta { operation_id },
        DurableValueView::Meta(operation.meta),
    )
    &&& holds(
        store,
        AddressView::OperationState { operation_id },
        DurableValueView::State(operation.state),
    )
    &&& operation.meta.lane == lane
    &&& matches_intent(operation.meta.intent, operation.state)
}

/// Whether storage holds exactly what the process knows of a lane.
pub open spec fn in_step(
    store: Map<AddressView, DurableValueView>,
    lane: Seq<char>,
    state: LaneRuntimeStateView,
) -> bool {
    &&& holds(store, AddressView::BranchTip { lane }, DurableValueView::Tip(state.tip_id))
    &&& holds(
        store,
        AddressView::LaneConfig { lane },
        DurableValueView::Configuration(state.configuration),
    )
    &&& holds(store, AddressView::LaneState { lane }, DurableValueView::Lane(lane_record(state)))
    &&& state.operation matches Some(operation) ==> operation_in_step(store, lane, operation)
}

/// The metadata storage holds for an operation.
pub open spec fn stored_meta(
    store: Map<AddressView, DurableValueView>,
    operation_id: Option<Seq<char>>,
) -> Option<OperationMetaView> {
    match operation_id {
        Some(operation_id) => if store.contains_key(AddressView::OperationMeta { operation_id }) {
            match store[AddressView::OperationMeta { operation_id }] {
                DurableValueView::Meta(meta) => Some(meta),
                _ => None,
            }
        } else {
            None
        },
        None => None,
    }
}

/// The state storage holds for an operation.
pub open spec fn stored_state(
    store: Map<AddressView, DurableValueView>,
    operation_id: Option<Seq<char>>,
) -> Option<OperationStateView> {
    match operation_id {
        Some(operation_id) => if store.contains_key(AddressView::OperationState { operation_id }) {
            match store[AddressView::OperationState { operation_id }] {
                DurableValueView::State(state) => Some(state),
                _ => None,
            }
        } else {
            None
        },
        None => None,
    }
}

/// A lane that is in step with storage comes back unchanged when it is restored
/// from there.
pub proof fn law_restart_restores_the_lane(
    store: Map<AddressView, DurableValueView>,
    lane: Seq<char>,
    state: LaneRuntimeStateView,
    tip: Option<Seq<char>>,
    configuration: LaneConfigurationView,
    lane_state: DurableLaneStateView,
)
    requires
        in_step(store, lane, state),
        holds(store, AddressView::BranchTip { lane }, DurableValueView::Tip(tip)),
        holds(
            store,
            AddressView::LaneConfig { lane },
            DurableValueView::Configuration(configuration),
        ),
        holds(store, AddressView::LaneState { lane }, DurableValueView::Lane(lane_state)),
    ensures
        restored(
            lane,
            ClassifiedLaneStorageView::Lane { tip, configuration, lane_state },
            stored_meta(store, lane_state.current_operation_id),
            stored_state(store, lane_state.current_operation_id),
        ) == Ok::<LaneRuntimeStateView, RestoreErrorView>(state),
{
}

/// Committing two lists of writes is committing one after the other.
pub proof fn lemma_committed_concat(
    store: Map<AddressView, DurableValueView>,
    first: Seq<WriteView>,
    second: Seq<WriteView>,
)
    ensures
        committed(store, first + second) == committed(committed(store, first), second),
    decreases second.len(),
{
    if second.len() == 0 {
        assert(first + second =~= first);
    } else {
        lemma_committed_concat(store, first, second.drop_last());
        assert((first + second).drop_last() =~= first + second.drop_last());
        assert((first + second).last() == second.last());
    }
}

/// A spared address keeps what storage holds there.
pub proof fn lemma_spared(
    store: Map<AddressView, DurableValueView>,
    writes: Seq<WriteView>,
    address: AddressView,
)
    requires
        spares(writes, address),
    ensures
        committed(store, writes).contains_key(address) == store.contains_key(address),
        store.contains_key(address) ==> committed(store, writes)[address] == store[address],
    decreases writes.len(),
{
    if writes.len() > 0 {
        assert(spares(writes.drop_last(), address)) by {
            assert forall|i: int| 0 <= i < writes.drop_last().len() implies !touches(
                #[trigger] writes.drop_last()[i],
                address,
            ) by {
                assert(writes.drop_last()[i] == writes[i]);
            }
        }
        lemma_spared(store, writes.drop_last(), address);
        assert(!touches(writes[writes.len() - 1], address));
    }
}

/// Two lists of writes spare an address if both do.
pub proof fn lemma_spares_concat(first: Seq<WriteView>, second: Seq<WriteView>, address: AddressView)
    requires
        spares(first, address),
        spares(second, address),
    ensures
        spares(first + second, address),
{
    assert forall|i: int| 0 <= i < (first + second).len() implies !touches(
        #[trigger] (first + second)[i],
        address,
    ) by {
        if i < first.len() {
            assert((first + second)[i] == first[i]);
        } else {
            assert((first + second)[i] == second[i - first.len()]);
        }
    }
}

/// What one more write leaves at an address.
pub proof fn lemma_committed_push(
    store: Map<AddressView, DurableValueView>,
    writes: Seq<WriteView>,
    write: WriteView,
)
    ensures
        committed(store, writes.push(write)) == applied(committed(store, writes), write),
{
    assert(writes.push(write).drop_last() =~= writes);
}

} // verus!
