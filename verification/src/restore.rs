//! Restoring lanes from durable storage.

use crate::model::session::{
    DurableLaneState, DurableLaneStateView, LaneConfiguration, LaneConfigurationView, Operation,
    OperationIntent, OperationIntentView, OperationMeta, OperationMetaView, OperationState,
    OperationStateView, OperationView, ResultBoundary, ResultBoundaryView,
};
use crate::names::{
    find_last, in_order, insert_keys, last_of, lemma_with_keys, precedes, with_keys, Keyed,
    KeyedView,
};
use crate::state::state_task;
use crate::text::{debug_text, join, quoted, same_text};
use crate::types::{LaneRuntimeState, LaneRuntimeStateView};
use vstd::prelude::*;

verus! {

/// Whether a leaf can belong to an operation accepted for the given intent.
pub open spec fn matches_intent(intent: OperationIntentView, state: OperationStateView) -> bool {
    match intent {
        OperationIntentView::Compaction { .. } => state.task() matches Some(task)
            && task.boundary is Finish,
        OperationIntentView::Navigation { target_id, summarize, label, custom_instructions } => {
            if summarize {
                &&& state.task() matches Some(task)
                &&& task.boundary matches ResultBoundaryView::CommitNavigation {
                    target_id: to,
                    label: tag,
                }
                &&& target_id == Some(to)
                &&& tag == label
                &&& task.custom_instructions == custom_instructions
            } else {
                &&& state matches OperationStateView::NavigationReadyToCommit {
                    target_id: to,
                    label: tag,
                    ..
                }
                &&& to == target_id
                &&& tag == label
            }
        },
        OperationIntentView::Run { .. } => {
            &&& !(state is NavigationReadyToCommit)
            &&& state.task() matches Some(task) ==> task.boundary is ResumeCheckpoint
        },
    }
}

/// Whether a leaf can belong to an operation accepted for the given intent.
pub fn state_matches_intent(intent: &OperationIntent, state: &OperationState) -> (r: bool)
    ensures
        r == matches_intent(intent.deep_view(), state.deep_view()),
{
    match intent {
        OperationIntent::Compaction { .. } => match state_task(state) {
            Some(task) => matches!(task.boundary, ResultBoundary::Finish),
            None => false,
        },
        OperationIntent::Navigation { target_id, summarize, label, custom_instructions } => {
            if let OperationState::NavigationReadyToCommit {
                target_id: state_target,
                label: state_label,
                ..
            } = state {
                return !*summarize && same_text(state_target, target_id) && same_text(
                    state_label,
                    label,
                );
            }
            match state_task(state) {
                Some(task) => match &task.boundary {
                    ResultBoundary::CommitNavigation { target_id: to, label: tag } => {
                        let target_matches = match target_id {
                            Some(target) => *target == *to,
                            None => false,
                        };
                        *summarize && target_matches && same_text(tag, label) && same_text(
                            &task.custom_instructions,
                            custom_instructions,
                        )
                    },
                    _ => false,
                },
                None => false,
            }
        },
        OperationIntent::Run { .. } => {
            if let OperationState::NavigationReadyToCommit { .. } = state {
                return false;
            }
            match state_task(state) {
                Some(task) => matches!(task.boundary, ResultBoundary::ResumeCheckpoint { .. }),
                None => true,
            }
        },
    }
}

/// What durable storage holds of a lane.
#[derive(Debug, PartialEq, Eq)]
pub enum ClassifiedLaneStorage {
    Absent,
    /// A branch that no lane is attached to.
    Branch {
        tip: Option<String>,
    },
    Lane {
        tip: Option<String>,
        configuration: LaneConfiguration,
        lane_state: DurableLaneState,
    },
}

/// Contents of [`ClassifiedLaneStorage`].
pub enum ClassifiedLaneStorageView {
    Absent,
    Branch {
        tip: Option<Seq<char>>,
    },
    Lane {
        tip: Option<Seq<char>>,
        configuration: LaneConfigurationView,
        lane_state: DurableLaneStateView,
    },
}

impl DeepView for ClassifiedLaneStorage {
    type V = ClassifiedLaneStorageView;

    open spec fn deep_view(&self) -> ClassifiedLaneStorageView {
        match self {
            ClassifiedLaneStorage::Absent => ClassifiedLaneStorageView::Absent,
            ClassifiedLaneStorage::Branch { tip } => ClassifiedLaneStorageView::Branch {
                tip: tip.deep_view(),
            },
            ClassifiedLaneStorage::Lane { tip, configuration, lane_state } => {
                ClassifiedLaneStorageView::Lane {
                    tip: tip.deep_view(),
                    configuration: configuration.deep_view(),
                    lane_state: lane_state.deep_view(),
                }
            },
        }
    }
}

/// The part of a lane that durable storage lacks.
#[derive(Clone, Copy, Debug, PartialEq, Eq, Structural)]
pub enum MissingPart {
    Tip,
    Configuration,
    State,
}

/// What the parts that durable storage holds of a name add up to. A configuration
/// or a state needs a tip, and either of the two needs the other; the first part
/// that is missing is reported.
pub open spec fn classified(
    tip: Option<Option<Seq<char>>>,
    configuration: Option<LaneConfigurationView>,
    lane_state: Option<DurableLaneStateView>,
) -> Result<ClassifiedLaneStorageView, MissingPart> {
    match (tip, configuration, lane_state) {
        (None, None, None) => Ok(ClassifiedLaneStorageView::Absent),
        (Some(tip), None, None) => Ok(ClassifiedLaneStorageView::Branch { tip }),
        (None, _, _) => Err(MissingPart::Tip),
        (Some(_), None, _) => Err(MissingPart::Configuration),
        (Some(_), Some(_), None) => Err(MissingPart::State),
        (Some(tip), Some(configuration), Some(lane_state)) => Ok(
            ClassifiedLaneStorageView::Lane { tip, configuration, lane_state },
        ),
    }
}

/// Tells lanes, bare branches and absent names apart.
pub fn classify_lane_storage(
    tip: Option<Option<String>>,
    configuration: Option<LaneConfiguration>,
    lane_state: Option<DurableLaneState>,
) -> (r: Result<ClassifiedLaneStorage, MissingPart>)
    ensures
        match classified(tip.deep_view(), configuration.deep_view(), lane_state.deep_view()) {
            Ok(stored) => r is Ok && r->Ok_0.deep_view() == stored,
            Err(part) => r == Err::<ClassifiedLaneStorage, MissingPart>(part),
        },
{
    match (tip, configuration, lane_state) {
        (None, None, None) => Ok(ClassifiedLaneStorage::Absent),
        (Some(tip), None, None) => Ok(ClassifiedLaneStorage::Branch { tip }),
        (None, _, _) => Err(MissingPart::Tip),
        (Some(_), None, _) => Err(MissingPart::Configuration),
        (Some(_), Some(_), None) => Err(MissingPart::State),
        (Some(tip), Some(configuration), Some(lane_state)) => Ok(
            ClassifiedLaneStorage::Lane { tip, configuration, lane_state },
        ),
    }
}

/// Why a lane cannot be restored.
#[derive(Debug, PartialEq, Eq)]
pub enum RestoreError {
    /// No lane is attached to the name.
    NotConfigured,
    /// The current operation has no metadata.
    MissingMeta {
        operation_id: String,
    },
    /// The current operation has no state.
    MissingState {
        operation_id: String,
    },
    /// The metadata names another operation.
    ForeignOperation {
        operation_id: String,
        named: String,
    },
    /// The metadata names another lane.
    ForeignLane {
        operation_id: String,
        owner: String,
    },
    /// The state cannot belong to the intent.
    IntentMismatch {
        operation_id: String,
        intent: OperationIntent,
        at: String,
    },
}

/// Contents of a [`RestoreError`].
pub enum RestoreErrorView {
    NotConfigured,
    MissingMeta {
        operation_id: Seq<char>,
    },
    MissingState {
        operation_id: Seq<char>,
    },
    ForeignOperation {
        operation_id: Seq<char>,
        named: Seq<char>,
    },
    ForeignLane {
        operation_id: Seq<char>,
        owner: Seq<char>,
    },
    IntentMismatch {
        operation_id: Seq<char>,
        intent: OperationIntentView,
        at: Seq<char>,
    },
}

impl DeepView for RestoreError {
    type V = RestoreErrorView;

    open spec fn deep_view(&self) -> RestoreErrorView {
        match self {
            RestoreError::NotConfigured => RestoreErrorView::NotConfigured,
            RestoreError::MissingMeta { operation_id } => RestoreErrorView::MissingMeta {
                operation_id: operation_id.deep_view(),
            },
            RestoreError::MissingState { operation_id } => RestoreErrorView::MissingState {
                operation_id: operation_id.deep_view(),
            },
            RestoreError::ForeignOperation { operation_id, named } => {
                RestoreErrorView::ForeignOperation {
                    operation_id: operation_id.deep_view(),
                    named: named.deep_view(),
                }
            },
            RestoreError::ForeignLane { operation_id, owner } => RestoreErrorView::ForeignLane {
                operation_id: operation_id.deep_view(),
                owner: owner.deep_view(),
            },
            RestoreError::IntentMismatch { operation_id, intent, at } => {
                RestoreErrorView::IntentMismatch {
                    operation_id: operation_id.deep_view(),
                    intent: intent.deep_view(),
                    at: at.deep_view(),
                }
            },
        }
    }
}

impl RestoreErrorView {
    /// What is said of the error. `intent` is how the intent is shown.
    pub open spec fn text(self, lane: Seq<char>, intent: Seq<char>) -> Seq<char> {
        match self {
            RestoreErrorView::NotConfigured => "Lane "@ + debug_text(lane)
                + " is not configured"@,
            RestoreErrorView::MissingMeta { operation_id } => "Operation "@ + operation_id
                + " is missing op.meta"@,
            RestoreErrorView::MissingState { operation_id } => "Operation "@ + operation_id
                + " is missing op.state"@,
            RestoreErrorView::ForeignOperation { operation_id, named } => "Operation "@
                + operation_id + " metadata names operation "@ + debug_text(named),
            RestoreErrorView::ForeignLane { operation_id, owner } => "Operation "@ + operation_id
                + " belongs to lane "@ + debug_text(owner) + ", not "@ + debug_text(lane),
            RestoreErrorView::IntentMismatch { operation_id, at, .. } => "Operation "@
                + operation_id + " intent "@ + intent + " does not match state "@ + at,
        }
    }
}

impl RestoreError {
    /// Says what the error is. `intent` is how the intent is shown.
    pub fn message(&self, lane: &String, intent: &String) -> (r: String)
        ensures
            r@ == self.deep_view().text(lane@, intent@),
    {
        match self {
            RestoreError::NotConfigured => {
                let named = join("Lane ".to_string(), quoted(lane.as_str()).as_str());
                join(named, " is not configured")
            },
            RestoreError::MissingMeta { operation_id } => join(
                join("Operation ".to_string(), operation_id.as_str()),
                " is missing op.meta",
            ),
            RestoreError::MissingState { operation_id } => join(
                join("Operation ".to_string(), operation_id.as_str()),
                " is missing op.state",
            ),
            RestoreError::ForeignOperation { operation_id, named } => {
                let head = join("Operation ".to_string(), operation_id.as_str());
                let head = join(head, " metadata names operation ");
                join(head, quoted(named.as_str()).as_str())
            },
            RestoreError::ForeignLane { operation_id, owner } => {
                let head = join("Operation ".to_string(), operation_id.as_str());
                let head = join(join(head, " belongs to lane "), quoted(owner.as_str()).as_str());
                join(join(head, ", not "), quoted(lane.as_str()).as_str())
            },
            RestoreError::IntentMismatch { operation_id, at, .. } => {
                let head = join("Operation ".to_string(), operation_id.as_str());
                let head = join(join(head, " intent "), intent.as_str());
                join(join(head, " does not match state "), at.as_str())
            },
        }
    }
}

/// Restoring a lane: the lane as it was last committed, or the first reason
/// why it cannot be.
pub open spec fn restored(
    lane: Seq<char>,
    stored: ClassifiedLaneStorageView,
    meta: Option<OperationMetaView>,
    state: Option<OperationStateView>,
) -> Result<LaneRuntimeStateView, RestoreErrorView> {
    match stored {
        ClassifiedLaneStorageView::Lane { tip, configuration, lane_state } => {
            let idle = LaneRuntimeStateView {
                tip_id: tip,
                configuration,
                inbox: lane_state.inbox,
                last_operation_id: lane_state.last_operation_id,
                operation: None,
            };
            match lane_state.current_operation_id {
                None => Ok(idle),
                Some(operation_id) => match (meta, state) {
                    (None, _) => Err(RestoreErrorView::MissingMeta { operation_id }),
                    (Some(_), None) => Err(RestoreErrorView::MissingState { operation_id }),
                    (Some(meta), Some(state)) => if meta.operation_id != operation_id {
                        Err(
                            RestoreErrorView::ForeignOperation {
                                operation_id,
                                named: meta.operation_id,
                            },
                        )
                    } else if meta.lane != lane {
                        Err(RestoreErrorView::ForeignLane { operation_id, owner: meta.lane })
                    } else if !matches_intent(meta.intent, state) {
                        Err(
                            RestoreErrorView::IntentMismatch {
                                operation_id,
                                intent: meta.intent,
                                at: state.at(),
                            },
                        )
                    } else {
                        Ok(
                            LaneRuntimeStateView {
                                operation: Some(OperationView { meta, state }),
                                ..idle
                            },
                        )
                    },
                },
            }
        },
        _ => Err(RestoreErrorView::NotConfigured),
    }
}

/// Restores a lane from what durable storage holds of it and of its current
/// operation.
pub fn restore_lane_state(
    lane: &String,
    stored: ClassifiedLaneStorage,
    meta: Option<OperationMeta>,
    state: Option<OperationState>,
) -> (r: Result<LaneRuntimeState, RestoreError>)
    ensures
        match restored(lane@, stored.deep_view(), meta.deep_view(), state.deep_view()) {
            Ok(lane_state) => r is Ok && r->Ok_0.deep_view() == lane_state,
            Err(error) => r is Err && r->Err_0.deep_view() == error,
        },
{
    match stored {
        ClassifiedLaneStorage::Lane { tip, configuration, lane_state } => {
            let operation = match &lane_state.current_operation_id {
                None => None,
                Some(operation_id) => match (meta, state) {
                    (None, _) => {
                        return Err(
                            RestoreError::MissingMeta { operation_id: operation_id.clone() },
                        );
                    },
                    (Some(_), None) => {
                        return Err(
                            RestoreError::MissingState { operation_id: operation_id.clone() },
                        );
                    },
                    (Some(meta), Some(state)) => {
                        if meta.operation_id != *operation_id {
                            return Err(
                                RestoreError::ForeignOperation {
                                    operation_id: operation_id.clone(),
                                    named: meta.operation_id,
                                },
                            );
                        }
                        if meta.lane != *lane {
                            return Err(
                                RestoreError::ForeignLane {
                                    operation_id: operation_id.clone(),
                                    owner: meta.lane,
                                },
                            );
                        }
                        if !state_matches_intent(&meta.intent, &state) {
                            return Err(
                                RestoreError::IntentMismatch {
                                    operation_id: operation_id.clone(),
                                    intent: meta.intent,
                                    at: state.at().to_string(),
                                },
                            );
                        }
                        Some(Operation { meta, state })
                    },
                },
            };
            Ok(
                LaneRuntimeState {
                    tip_id: tip,
                    configuration,
                    inbox: lane_state.inbox,
                    last_operation_id: lane_state.last_operation_id,
                    operation,
                },
            )
        },
        _ => Err(RestoreError::NotConfigured),
    }
}

/// The part whose absence keeps a name from being restored as a lane.
pub open spec fn lacking(stored: ClassifiedLaneStorageView) -> Option<Seq<char>> {
    match stored {
        ClassifiedLaneStorageView::Absent => Some("branch.tip"@),
        ClassifiedLaneStorageView::Branch { .. } => Some("lane.config"@),
        ClassifiedLaneStorageView::Lane { .. } => None,
    }
}

/// Refuses a name that no lane is attached to.
pub fn restore_lane(lane: &String, stored: ClassifiedLaneStorage) -> (r: Result<
    ClassifiedLaneStorage,
    String,
>)
    ensures
        match lacking(stored.deep_view()) {
            None => r == Ok::<ClassifiedLaneStorage, String>(stored),
            Some(part) => r is Err && r->Err_0@ == "Lane "@ + debug_text(lane@) + " is missing "@
                + part,
        },
{
    let part: &str = match &stored {
        ClassifiedLaneStorage::Absent => "branch.tip",
        ClassifiedLaneStorage::Branch { .. } => "lane.config",
        ClassifiedLaneStorage::Lane { .. } => {
            return Ok(stored);
        },
    };
    let message = join("Lane ".to_string(), quoted(lane.as_str()).as_str());
    Err(join(join(message, " is missing "), part))
}

/// The names that durable storage holds a part for, in order.
pub open spec fn inventory(
    tips: Seq<KeyedView<Option<Seq<char>>>>,
    configurations: Seq<KeyedView<LaneConfigurationView>>,
    states: Seq<KeyedView<DurableLaneStateView>>,
) -> Seq<Seq<char>> {
    with_keys(with_keys(with_keys(Seq::empty(), tips), configurations), states)
}

/// Lists every name that durable storage holds a tip, a configuration or a state
/// for, in order, each once.
pub fn lane_inventory(
    tips: &Vec<Keyed<Option<String>>>,
    configurations: &Vec<Keyed<LaneConfiguration>>,
    states: &Vec<Keyed<DurableLaneState>>,
) -> (r: Vec<String>)
    ensures
        r.deep_view() == inventory(
            tips.deep_view(),
            configurations.deep_view(),
            states.deep_view(),
        ),
        in_order(r.deep_view()),
        forall|name: Seq<char>| #[trigger]
            r.deep_view().contains(name) <==> last_of(tips.deep_view(), name) is Some || last_of(
                configurations.deep_view(),
                name,
            ) is Some || last_of(states.deep_view(), name) is Some,
{
    let mut names: Vec<String> = Vec::new();
    let ghost none: Seq<Seq<char>> = Seq::empty();
    assert(names.deep_view() =~= none);
    insert_keys(&mut names, tips);
    proof {
        lemma_with_keys(none, tips.deep_view());
        lemma_with_keys(names.deep_view(), configurations.deep_view());
    }
    insert_keys(&mut names, configurations);
    proof {
        lemma_with_keys(names.deep_view(), states.deep_view());
    }
    insert_keys(&mut names, states);
    names
}

/// Durable storage as a session finds it: a row for each value, by lane or by
/// operation.
#[derive(Debug, PartialEq, Eq)]
pub struct SessionRows {
    pub tips: Vec<Keyed<Option<String>>>,
    pub configurations: Vec<Keyed<LaneConfiguration>>,
    pub states: Vec<Keyed<DurableLaneState>>,
    pub metas: Vec<Keyed<OperationMeta>>,
    pub operation_states: Vec<Keyed<OperationState>>,
}

/// Contents of [`SessionRows`].
pub struct SessionRowsView {
    pub tips: Seq<KeyedView<Option<Seq<char>>>>,
    pub configurations: Seq<KeyedView<LaneConfigurationView>>,
    pub states: Seq<KeyedView<DurableLaneStateView>>,
    pub metas: Seq<KeyedView<OperationMetaView>>,
    pub operation_states: Seq<KeyedView<OperationStateView>>,
}

impl DeepView for SessionRows {
    type V = SessionRowsView;

    open spec fn deep_view(&self) -> SessionRowsView {
        SessionRowsView {
            tips: self.tips.deep_view(),
            configurations: self.configurations.deep_view(),
            states: self.states.deep_view(),
            metas: self.metas.deep_view(),
            operation_states: self.operation_states.deep_view(),
        }
    }
}

/// Why the lanes of a session cannot be restored: of one, a part is missing or
/// the operation is broken.
#[derive(Debug, PartialEq, Eq)]
pub enum SessionFault {
    Missing { lane: String, part: MissingPart },
    Broken { lane: String, error: RestoreError },
}

/// Contents of a [`SessionFault`].
pub enum SessionFaultView {
    Missing { lane: Seq<char>, part: MissingPart },
    Broken { lane: Seq<char>, error: RestoreErrorView },
}

impl DeepView for SessionFault {
    type V = SessionFaultView;

    open spec fn deep_view(&self) -> SessionFaultView {
        match self {
            SessionFault::Missing { lane, part } => SessionFaultView::Missing {
                lane: lane.deep_view(),
                part: *part,
            },
            SessionFault::Broken { lane, error } => SessionFaultView::Broken {
                lane: lane.deep_view(),
                error: error.deep_view(),
            },
        }
    }
}

/// The value of the last row under a key that need not be there.
pub open spec fn last_under<T>(rows: Seq<KeyedView<T>>, key: Option<Seq<char>>) -> Option<T> {
    match key {
        Some(key) => last_of(rows, key),
        None => None,
    }
}

/// The lane of a name, if a lane is attached to it.
pub open spec fn session_lane(rows: SessionRowsView, lane: Seq<char>) -> Result<
    Option<LaneRuntimeStateView>,
    SessionFaultView,
> {
    let lane_state = last_of(rows.states, lane);
    match classified(last_of(rows.tips, lane), last_of(rows.configurations, lane), lane_state) {
        Err(part) => Err(SessionFaultView::Missing { lane, part }),
        Ok(stored) => match stored {
            ClassifiedLaneStorageView::Lane { lane_state, .. } => match restored(
                lane,
                stored,
                last_under(rows.metas, lane_state.current_operation_id),
                last_under(rows.operation_states, lane_state.current_operation_id),
            ) {
                Ok(state) => Ok(Some(state)),
                Err(error) => Err(SessionFaultView::Broken { lane, error }),
            },
            _ => Ok(None),
        },
    }
}

/// The lanes among some names, or the first reason why one cannot be restored.
pub open spec fn restored_lanes(rows: SessionRowsView, names: Seq<Seq<char>>) -> Result<
    Seq<KeyedView<LaneRuntimeStateView>>,
    SessionFaultView,
>
    decreases names.len(),
{
    if names.len() == 0 {
        Ok(Seq::empty())
    } else {
        match restored_lanes(rows, names.drop_last()) {
            Err(fault) => Err(fault),
            Ok(lanes) => match session_lane(rows, names.last()) {
                Err(fault) => Err(fault),
                Ok(None) => Ok(lanes),
                Ok(Some(state)) => Ok(lanes.push(KeyedView { key: names.last(), value: state })),
            },
        }
    }
}

proof fn lemma_fault_stays(rows: SessionRowsView, names: Seq<Seq<char>>, n: int)
    requires
        0 <= n <= names.len(),
        restored_lanes(rows, names.take(n)) is Err,
    ensures
        restored_lanes(rows, names) == restored_lanes(rows, names.take(n)),
    decreases names.len(),
{
    if n < names.len() {
        assert(names.drop_last().take(n) =~= names.take(n));
        lemma_fault_stays(rows, names.drop_last(), n);
    } else {
        assert(names.take(n) =~= names);
    }
}

fn restore_one(rows: &SessionRows, lane: &String) -> (r: Result<
    Option<LaneRuntimeState>,
    SessionFault,
>)
    ensures
        match session_lane(rows.deep_view(), lane@) {
            Ok(state) => r is Ok && r->Ok_0.deep_view() == state,
            Err(fault) => r is Err && r->Err_0.deep_view() == fault,
        },
{
    let tip = match find_last(&rows.tips, lane) {
        Some(tip) => Some(tip.clone()),
        None => None,
    };
    let configuration = match find_last(&rows.configurations, lane) {
        Some(configuration) => Some(configuration.clone()),
        None => None,
    };
    let lane_state = match find_last(&rows.states, lane) {
        Some(lane_state) => Some(lane_state.clone()),
        None => None,
    };
    let stored = match classify_lane_storage(tip, configuration, lane_state) {
        Ok(stored) => stored,
        Err(part) => {
            return Err(SessionFault::Missing { lane: lane.clone(), part });
        },
    };
    let current = match &stored {
        ClassifiedLaneStorage::Lane { lane_state, .. } => lane_state.current_operation_id.clone(),
        _ => {
            return Ok(None);
        },
    };
    let (meta, state) = match &current {
        None => (None, None),
        Some(operation_id) => {
            let meta = match find_last(&rows.metas, operation_id) {
                Some(meta) => Some(meta.clone()),
                None => None,
            };
            let state = match find_last(&rows.operation_states, operation_id) {
                Some(state) => Some(state.clone()),
                None => None,
            };
            (meta, state)
        },
    };
    match restore_lane_state(lane, stored, meta, state) {
        Ok(state) => Ok(Some(state)),
        Err(error) => Err(SessionFault::Broken { lane: lane.clone(), error }),
    }
}

/// Restores the lanes of a session, in the order of their names. Branches that no
/// lane is attached to are passed over.
pub fn restore_session(rows: &SessionRows) -> (r: Result<
    Vec<Keyed<LaneRuntimeState>>,
    SessionFault,
>)
    ensures
        match restored_lanes(
            rows.deep_view(),
            inventory(
                rows.deep_view().tips,
                rows.deep_view().configurations,
                rows.deep_view().states,
            ),
        ) {
            Ok(lanes) => r is Ok && r->Ok_0.deep_view() == lanes,
            Err(fault) => r is Err && r->Err_0.deep_view() == fault,
        },
{
    let names = lane_inventory(&rows.tips, &rows.configurations, &rows.states);
    let mut lanes: Vec<Keyed<LaneRuntimeState>> = Vec::new();
    let mut i: usize = 0;
    assert(lanes.deep_view() =~= Seq::empty());
    while i < names.len()
        invariant
            i <= names.len(),
            names.deep_view() == inventory(
                rows.deep_view().tips,
                rows.deep_view().configurations,
                rows.deep_view().states,
            ),
            restored_lanes(rows.deep_view(), names.deep_view().take(i as int)) == Ok::<
                Seq<KeyedView<LaneRuntimeStateView>>,
                SessionFaultView,
            >(lanes.deep_view()),
        decreases names.len() - i,
    {
        let ghost before = lanes.deep_view();
        proof {
            crate::transcript::lemma_prefix_push(names, i as int);
            let head = names.deep_view().take(i as int);
            assert(head.push(names[i as int]@).drop_last() =~= head);
        }
        match restore_one(rows, &names[i]) {
            Ok(Some(state)) => {
                lanes.push(Keyed { key: names[i].clone(), value: state });
                assert(lanes.deep_view() =~= before.push(
                    KeyedView { key: names[i as int]@, value: state.deep_view() },
                ));
            },
            Ok(None) => {},
            Err(fault) => {
                proof {
                    lemma_fault_stays(rows.deep_view(), names.deep_view(), i + 1);
                }
                return Err(fault);
            },
        }
        i += 1;
    }
    assert(names.deep_view().take(i as int) =~= names.deep_view());
    Ok(lanes)
}

/// The names of some rows.
pub open spec fn names_of<T>(rows: Seq<KeyedView<T>>) -> Seq<Seq<char>> {
    rows.map_values(|row: KeyedView<T>| row.key)
}

/// The lanes of a session come in the order of their names, each once: exactly
/// the names that storage holds all parts of, with the state that each restores to.
pub proof fn law_a_session_restores_its_lanes(rows: SessionRowsView, names: Seq<Seq<char>>)
    requires
        in_order(names),
        restored_lanes(rows, names) is Ok,
    ensures
        in_order(names_of(restored_lanes(rows, names)->Ok_0)),
        forall|lane: Seq<char>, state: LaneRuntimeStateView|
            #![trigger restored_lanes(rows, names)->Ok_0.contains(
                KeyedView { key: lane, value: state },
            )]
            restored_lanes(rows, names)->Ok_0.contains(KeyedView { key: lane, value: state })
                <==> names.contains(lane) && session_lane(rows, lane) == Ok::<
                Option<LaneRuntimeStateView>,
                SessionFaultView,
            >(Some(state)),
    decreases names.len(),
{
    let lanes = restored_lanes(rows, names)->Ok_0;
    if names.len() > 0 {
        let rest = names.drop_last();
        law_a_session_restores_its_lanes(rows, rest);
        let fewer = restored_lanes(rows, rest)->Ok_0;
        assert forall|i: int, j: int| 0 <= i < j < lanes.len() implies precedes(
            #[trigger] names_of(lanes)[i],
            #[trigger] names_of(lanes)[j],
        ) by {
            if j < fewer.len() {
                assert(names_of(fewer)[i] == lanes[i].key);
                assert(names_of(fewer)[j] == lanes[j].key);
            } else {
                assert(fewer.contains(KeyedView { key: fewer[i].key, value: fewer[i].value }));
                let k = rest.index_of(fewer[i].key);
                assert(precedes(names[k], names[names.len() - 1]));
            }
        }
        assert forall|lane: Seq<char>, state: LaneRuntimeStateView|
            #![trigger lanes.contains(KeyedView { key: lane, value: state })]
            lanes.contains(KeyedView { key: lane, value: state }) <==> names.contains(lane)
                && session_lane(rows, lane) == Ok::<
                Option<LaneRuntimeStateView>,
                SessionFaultView,
            >(Some(state)) by {
            let row = KeyedView { key: lane, value: state };
            if names.contains(lane) && lane != names.last() {
                let k = names.index_of(lane);
                assert(rest[k] == lane);
            }
            if rest.contains(lane) {
                let k = rest.index_of(lane);
                assert(names[k] == lane);
            }
            assert(names[names.len() - 1] == names.last());
            if fewer.contains(row) {
                let k = fewer.index_of(row);
                assert(lanes[k] == row);
            }
            if lanes.len() > fewer.len() {
                assert(lanes[fewer.len() as int] == lanes.last());
            }
        }
    }
}

} // verus!
