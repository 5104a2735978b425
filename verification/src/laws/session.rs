//! What a session finds of its lanes when it starts.

use crate::harness::{attached, invalid_name, open_operations, AttachErrorView};
use crate::lane::claim::LaneImplView;
use crate::model::session::{
    DurableLaneStateView, LaneConfigurationView, OperationIntentView, OperationMetaView,
    OperationStateView, OperationView, ResultBoundaryView,
};
use crate::model::storage::{AddressView, DurableValueView, WriteView};
use crate::names::{
    in_order, last_of, lemma_before_through, lemma_not_before_itself, lemma_one_is_before,
    lemma_with_keys, precedes, KeyedView,
};
use crate::restore::{
    classified, inventory, law_a_session_restores_its_lanes, matches_intent, names_of, restored,
    restored_lanes, session_lane, ClassifiedLaneStorageView, MissingPart, RestoreErrorView,
    SessionRowsView,
};
use crate::types::{HarnessErrorView, LaneRuntimeStateView, OpenOperationView};
use vstd::prelude::*;

verus! {

/// What storage holds of a name adds up to: nothing, a branch without a lane, or a lane
/// with all its parts. Anything else lacks a part, and the first that is lacking is named.
pub proof fn law_a_lane_has_all_its_parts(
    tip: Option<Option<Seq<char>>>,
    configuration: Option<LaneConfigurationView>,
    lane_state: Option<DurableLaneStateView>,
)
    ensures
        match classified(tip, configuration, lane_state) {
            Ok(ClassifiedLaneStorageView::Absent) => tip is None && configuration is None
                && lane_state is None,
            Ok(ClassifiedLaneStorageView::Branch { tip: found }) => tip == Some(found)
                && configuration is None && lane_state is None,
            Ok(ClassifiedLaneStorageView::Lane {
                tip: found,
                configuration: with,
                lane_state: about,
            }) => tip == Some(found) && configuration == Some(with) && lane_state == Some(about),
            Err(MissingPart::Tip) => tip is None && (configuration is Some || lane_state is Some),
            Err(MissingPart::Configuration) => tip is Some && configuration is None && lane_state
                is Some,
            Err(MissingPart::State) => tip is Some && configuration is Some && lane_state is None,
        },
{
}

/// A leaf belongs to an intent. A compaction has a structural task that ends with it. A
/// navigation with a summary has a task that goes to its target, under its label and
/// instructions; one without is about to go there. A run is anything but about to navigate,
/// and a structural task within it comes back to it.
pub proof fn law_a_leaf_belongs_to_its_intent(
    intent: OperationIntentView,
    leaf: OperationStateView,
)
    ensures
        ({
            let task = match leaf {
                OperationStateView::SummaryDeciding { task, .. } => Some(task),
                OperationStateView::SummaryReady { task, .. } => Some(task),
                OperationStateView::SummaryEffectPending { task, .. } => Some(task),
                OperationStateView::SummaryRetryWait { task, .. } => Some(task),
                _ => None,
            };
            matches_intent(intent, leaf) <==> match intent {
                OperationIntentView::Compaction { .. } => task is Some && task->Some_0.boundary
                    is Finish,
                OperationIntentView::Navigation {
                    target_id,
                    summarize,
                    label,
                    custom_instructions,
                } => if summarize {
                    task is Some && target_id is Some && task->Some_0.boundary == (
                    ResultBoundaryView::CommitNavigation { target_id: target_id->Some_0, label })
                        && task->Some_0.custom_instructions == custom_instructions
                } else {
                    leaf matches OperationStateView::NavigationReadyToCommit {
                        target_id: to,
                        label: tag,
                        ..
                    } && to == target_id && tag == label
                },
                OperationIntentView::Run { .. } => !(leaf is NavigationReadyToCommit) && (task
                    is Some ==> task->Some_0.boundary is ResumeCheckpoint),
            }
        }),
{
}

/// A lane is restored to what storage holds of it: tip, configuration, inbox and last
/// operation, and the operation that owns it, if one does, with the metadata and the leaf
/// that are stored. It cannot be restored just if it is no configured lane, or the operation
/// lacks a part, is another one, is of another lane, or its leaf does not belong to its
/// intent.
pub proof fn law_a_lane_is_restored_to_what_is_stored(
    lane: Seq<char>,
    stored: ClassifiedLaneStorageView,
    meta: Option<OperationMetaView>,
    leaf: Option<OperationStateView>,
)
    ensures
        match (stored, restored(lane, stored, meta, leaf)) {
            (
                ClassifiedLaneStorageView::Lane { tip, configuration, lane_state },
                Ok(state),
            ) => state.tip_id == tip && state.configuration == configuration && state.inbox
                == lane_state.inbox && state.last_operation_id == lane_state.last_operation_id
                && match lane_state.current_operation_id {
                None => state.operation is None,
                Some(id) => meta is Some && leaf is Some && state.operation == Some(
                    OperationView { meta: meta->Some_0, state: leaf->Some_0 },
                ) && meta->Some_0.operation_id == id && meta->Some_0.lane == lane && matches_intent(
                    meta->Some_0.intent,
                    leaf->Some_0,
                ),
            },
            (ClassifiedLaneStorageView::Lane { lane_state, .. }, Err(error)) => {
                &&& lane_state.current_operation_id matches Some(id)
                &&& match error {
                    RestoreErrorView::MissingMeta { operation_id } => operation_id == id && meta
                        is None,
                    RestoreErrorView::MissingState { operation_id } => operation_id == id && meta
                        is Some && leaf is None,
                    RestoreErrorView::ForeignOperation { operation_id, named } => operation_id == id
                        && meta is Some && named == meta->Some_0.operation_id && named != id,
                    RestoreErrorView::ForeignLane { operation_id, owner } => operation_id == id
                        && meta is Some && owner == meta->Some_0.lane && owner != lane,
                    RestoreErrorView::IntentMismatch { operation_id, .. } => operation_id == id
                        && meta is Some && leaf is Some && !matches_intent(
                        meta->Some_0.intent,
                        leaf->Some_0,
                    ),
                    RestoreErrorView::NotConfigured => false,
                }
            },
            (_, decided) => decided == Err::<LaneRuntimeStateView, RestoreErrorView>(
                RestoreErrorView::NotConfigured,
            ),
        },
{
}

proof fn lemma_last_of<T>(rows: Seq<KeyedView<T>>, key: Seq<char>)
    ensures
        match last_of(rows, key) {
            Some(value) => latest(rows, key, value),
            None => forall|i: int| 0 <= i < rows.len() ==> (#[trigger] rows[i]).key != key,
        },
    decreases rows.len(),
{
    if rows.len() > 0 {
        let rest = rows.drop_last();
        let last = rows.len() - 1;
        lemma_last_of(rest, key);
        if rows[last].key == key {
            assert(rows[last].value == rows.last().value);
        } else {
            match last_of(rest, key) {
                Some(value) => {
                    let i = choose|i: int|
                        0 <= i < rest.len() && (#[trigger] rest[i]).key == key && rest[i].value
                            == value && forall|j: int|
                            i < j < rest.len() ==> (#[trigger] rest[j]).key != key;
                    assert(rows[i] == rest[i]);
                    assert forall|j: int| i < j < rows.len() implies (#[trigger] rows[j]).key
                        != key by {
                        if j < last {
                            assert(rest[j] == rows[j]);
                        }
                    }
                },
                None => {
                    assert forall|j: int| 0 <= j < rows.len() implies (#[trigger] rows[j]).key
                        != key by {
                        if j < last {
                            assert(rest[j] == rows[j]);
                        }
                    }
                },
            }
        }
    }
}

/// Whether a value is the last that rows hold under a key.
pub open spec fn latest<T>(rows: Seq<KeyedView<T>>, key: Seq<char>, value: T) -> bool {
    exists|i: int|
        0 <= i < rows.len() && (#[trigger] rows[i]).key == key && rows[i].value == value && forall|
            j: int,
        |
            i < j < rows.len() ==> (#[trigger] rows[j]).key != key
}

/// Whether rows hold a key.
pub open spec fn has_key<T>(rows: Seq<KeyedView<T>>, key: Seq<char>) -> bool {
    exists|i: int| 0 <= i < rows.len() && (#[trigger] rows[i]).key == key
}

/// A session restores the lanes whose parts are stored, in the order of their names and
/// each once; every part is the last that is stored under the name. A branch without a lane
/// is no lane. No name that storage knows is passed over.
pub proof fn law_a_session_restores_what_it_stored(rows: SessionRowsView, lane: Seq<char>)
    ensures
        restored_lanes(rows, inventory(rows.tips, rows.configurations, rows.states)) matches Ok(
            lanes,
        ) ==> {
            &&& in_order(names_of(lanes))
            &&& has_key(lanes, lane) <==> has_key(rows.tips, lane) && has_key(
                rows.configurations,
                lane,
            ) && has_key(rows.states, lane)
            &&& has_key(rows.configurations, lane) || has_key(rows.states, lane) ==> has_key(
                lanes,
                lane,
            )
            &&& forall|i: int|
                0 <= i < lanes.len() && (#[trigger] lanes[i]).key == lane ==> latest(
                    rows.tips,
                    lane,
                    lanes[i].value.tip_id,
                ) && latest(rows.configurations, lane, lanes[i].value.configuration) && exists|
                    about: DurableLaneStateView,
                |
                    #[trigger] latest(rows.states, lane, about) && lanes[i].value.inbox
                        == about.inbox && lanes[i].value.last_operation_id
                        == about.last_operation_id && (match lanes[i].value.operation {
                        Some(operation) => about.current_operation_id == Some(
                            operation.meta.operation_id,
                        ) && operation.meta.lane == lane && latest(
                            rows.metas,
                            operation.meta.operation_id,
                            operation.meta,
                        ) && latest(
                            rows.operation_states,
                            operation.meta.operation_id,
                            operation.state,
                        ),
                        None => about.current_operation_id is None,
                    })
        },
{
    let names = inventory(rows.tips, rows.configurations, rows.states);
    lemma_inventory(rows, lane);
    if let Ok(lanes) = restored_lanes(rows, names) {
        law_a_session_restores_its_lanes(rows, names);
        lemma_last_of(rows.tips, lane);
        lemma_last_of(rows.configurations, lane);
        lemma_last_of(rows.states, lane);
        assert(has_key(rows.tips, lane) == last_of(rows.tips, lane) is Some);
        assert(has_key(rows.configurations, lane) == last_of(rows.configurations, lane) is Some);
        assert(has_key(rows.states, lane) == last_of(rows.states, lane) is Some);
        if names.contains(lane) {
            lemma_no_fault(rows, names, names.index_of(lane));
            assert(session_lane(rows, lane) is Ok);
        }
        if has_key(lanes, lane) {
            let i = choose|i: int| 0 <= i < lanes.len() && (#[trigger] lanes[i]).key == lane;
            assert(lanes.contains(KeyedView { key: lane, value: lanes[i].value }));
        }
        if let Ok(Some(state)) = session_lane(rows, lane) {
            if names.contains(lane) {
                let row = KeyedView { key: lane, value: state };
                assert(lanes.contains(row));
                let i = lanes.index_of(row);
                assert(lanes[i].key == lane);
            }
        }
        assert forall|i: int| 0 <= i < lanes.len() && (#[trigger] lanes[i]).key == lane implies
            latest(rows.tips, lane, lanes[i].value.tip_id) && latest(
            rows.configurations,
            lane,
            lanes[i].value.configuration,
        ) && exists|about: DurableLaneStateView| #[trigger]
            latest(rows.states, lane, about) && lanes[i].value.inbox == about.inbox
                && lanes[i].value.last_operation_id == about.last_operation_id && (
            match lanes[i].value.operation {
                Some(operation) => about.current_operation_id == Some(
                    operation.meta.operation_id,
                ) && operation.meta.lane == lane && latest(
                    rows.metas,
                    operation.meta.operation_id,
                    operation.meta,
                ) && latest(
                    rows.operation_states,
                    operation.meta.operation_id,
                    operation.state,
                ),
                None => about.current_operation_id is None,
            }) by {
            assert(lanes.contains(KeyedView { key: lane, value: lanes[i].value }));
            let about = last_of(rows.states, lane)->Some_0;
            assert(latest(rows.states, lane, about));
            if let Some(id) = about.current_operation_id {
                lemma_last_of(rows.metas, id);
                lemma_last_of(rows.operation_states, id);
            }
        }
    }
}

proof fn lemma_no_fault(rows: SessionRowsView, names: Seq<Seq<char>>, k: int)
    requires
        restored_lanes(rows, names) is Ok,
        0 <= k < names.len(),
    ensures
        session_lane(rows, names[k]) is Ok,
    decreases names.len(),
{
    if k < names.len() - 1 {
        lemma_no_fault(rows, names.drop_last(), k);
    }
}

proof fn lemma_inventory(rows: SessionRowsView, lane: Seq<char>)
    ensures
        in_order(inventory(rows.tips, rows.configurations, rows.states)),
        inventory(rows.tips, rows.configurations, rows.states).contains(lane) <==> has_key(
            rows.tips,
            lane,
        ) || has_key(rows.configurations, lane) || has_key(rows.states, lane),
{
    let none: Seq<Seq<char>> = Seq::empty();
    let first = crate::names::with_keys(none, rows.tips);
    let second = crate::names::with_keys(first, rows.configurations);
    lemma_with_keys(none, rows.tips);
    lemma_with_keys(first, rows.configurations);
    lemma_with_keys(second, rows.states);
    lemma_keys(none, rows.tips, lane);
    lemma_keys(first, rows.configurations, lane);
    lemma_keys(second, rows.states, lane);
}

proof fn lemma_keys<T>(names: Seq<Seq<char>>, rows: Seq<KeyedView<T>>, lane: Seq<char>)
    requires
        in_order(names),
    ensures
        crate::names::with_keys(names, rows).contains(lane) <==> names.contains(lane) || has_key(
            rows,
            lane,
        ),
    decreases rows.len(),
{
    if rows.len() > 0 {
        let rest = rows.drop_last();
        lemma_keys(names, rest, lane);
        lemma_with_keys(names, rest);
        crate::names::lemma_inserted(crate::names::with_keys(names, rest), rows.last().key);
        let last = rows.len() - 1;
        assert(rows[last] == rows.last());
        if has_key(rest, lane) {
            let i = choose|i: int| 0 <= i < rest.len() && (#[trigger] rest[i]).key == lane;
            assert(rows[i].key == lane);
        }
        if has_key(rows, lane) && rows.last().key != lane {
            let i = choose|i: int| 0 <= i < rows.len() && (#[trigger] rows[i]).key == lane;
            assert(rest[i].key == lane);
        }
    }
}

/// Names are ordered as texts are: of two names one comes first, by the first character in
/// which they differ, or by being the start of the other.
pub proof fn law_names_are_ordered_by_their_characters(
    a: Seq<char>,
    b: Seq<char>,
    c: Seq<char>,
    x: char,
    y: char,
)
    ensures
        !precedes(a, a),
        precedes(a, b) && precedes(b, c) ==> precedes(a, c),
        a != b ==> precedes(a, b) || precedes(b, a),
        precedes(a, a.push(x)),
        x < y ==> precedes(a.push(x) + b, a.push(y) + c),
    decreases a.len(),
{
    lemma_not_before_itself(a);
    if precedes(a, b) && precedes(b, c) {
        lemma_before_through(a, b, c);
    }
    if a != b {
        lemma_one_is_before(a, b);
    }
    let p = a.push(x) + b;
    let q = a.push(y) + c;
    if a.len() > 0 {
        law_names_are_ordered_by_their_characters(a.skip(1), b, c, x, y);
        assert(a.push(x).skip(1) =~= a.skip(1).push(x));
        assert(p.skip(1) =~= a.skip(1).push(x) + b);
        assert(q.skip(1) =~= a.skip(1).push(y) + c);
        assert(p[0] == a[0] && q[0] == a[0]);
    } else {
        assert(p[0] == x && q[0] == y);
    }
}

/// How a name becomes a lane of the process. A stored lane is restored and nothing is
/// written. A branch gets an idle lane at its tip, and a name that storage does not know an
/// idle lane at the root or at a known entry; either is configured as the harness is, and
/// that is stored, with an empty inbox and no operation. An entry that is not known is
/// refused.
pub proof fn law_a_name_becomes_a_lane(
    seed: LaneConfigurationView,
    name: Seq<char>,
    stored: ClassifiedLaneStorageView,
    meta: Option<OperationMetaView>,
    leaf: Option<OperationStateView>,
    create_at: Option<Seq<char>>,
    target_known: bool,
)
    ensures
        ({
            let fresh = |tip_id: Option<Seq<char>>|
                LaneRuntimeStateView {
                    tip_id,
                    configuration: seed,
                    inbox: Seq::empty(),
                    last_operation_id: None,
                    operation: None,
                };
            let configured = WriteView::SetValue {
                address: AddressView::LaneConfig { lane: name },
                value: DurableValueView::Configuration(seed),
            };
            let about = WriteView::SetValue {
                address: AddressView::LaneState { lane: name },
                value: DurableValueView::Lane(
                    DurableLaneStateView {
                        current_operation_id: None,
                        last_operation_id: None,
                        inbox: Seq::empty(),
                    },
                ),
            };
            let decided = attached(seed, name, stored, meta, leaf, create_at, target_known);
            match stored {
                ClassifiedLaneStorageView::Lane { .. } => match restored(name, stored, meta, leaf) {
                    Ok(state) => decided matches Ok(lane) && lane.state == state
                        && lane.writes.len() == 0,
                    Err(error) => decided matches Err(AttachErrorView::Broken(why)) && why == error,
                },
                ClassifiedLaneStorageView::Branch { tip } => decided matches Ok(lane) && lane.state
                    == fresh(tip) && lane.writes == seq![configured, about],
                ClassifiedLaneStorageView::Absent => if create_at is None {
                    decided matches Ok(lane) && lane.state == fresh(None) && lane.writes == seq![
                        WriteView::SetValue {
                            address: AddressView::BranchTip { lane: name },
                            value: DurableValueView::Tip(None),
                        },
                        configured,
                        about,
                    ]
                } else if target_known {
                    decided matches Ok(lane) && lane.state == fresh(create_at) && lane.writes
                        == seq![configured, about]
                } else {
                    decided matches Err(AttachErrorView::Refused(error)) && (error
                        matches HarnessErrorView::UnknownTarget { target_id, .. } && create_at
                        == Some(target_id))
                },
            }
        }),
{
    if let ClassifiedLaneStorageView::Absent = stored {
        if create_at is None {
            let lane = attached(seed, name, stored, meta, leaf, create_at, target_known)->Ok_0;
            assert(lane.writes =~= seq![lane.writes[0], lane.writes[1], lane.writes[2]]);
        }
    }
}

/// The name of a lane is refused just if it is empty or holds a null character.
pub proof fn law_a_lane_has_a_proper_name(name: Seq<char>)
    ensures
        invalid_name(name) is Some <==> name.len() == 0 || exists|i: int|
            0 <= i < name.len() && #[trigger] name[i] == '\0',
{
    if name.contains('\0') {
        let i = name.index_of('\0');
        assert(name[i] == '\0');
    }
}

/// What is reported as open: of each lane with an operation just that, with its id, kind and
/// start, and whether it is to stop; in the order of the lanes.
pub proof fn law_open_operations_are_those_of_the_lanes(
    lanes: Seq<LaneImplView>,
    lane: LaneImplView,
)
    ensures
        open_operations(Seq::empty()).len() == 0,
        match lane.state.operation {
            None => open_operations(lanes.push(lane)) == open_operations(lanes),
            Some(operation) => open_operations(lanes.push(lane)) == open_operations(lanes).push(
                OpenOperationView {
                    lane: lane.name,
                    operation_id: operation.meta.operation_id,
                    kind: match operation.meta.intent {
                        OperationIntentView::Run { .. } => "run"@,
                        OperationIntentView::Compaction { .. } => "compaction"@,
                        OperationIntentView::Navigation { .. } => "navigation"@,
                    },
                    started_at: operation.meta.started_at,
                    aborting: if operation.state.control() is CancelRequested {
                        Some(true)
                    } else {
                        None
                    },
                },
            ),
        },
{
    assert(lanes.push(lane).drop_last() =~= lanes);
}

} // verus!
