//! The configuration of a lane, and what a lane tells of itself.

use crate::command::{LaneCommand, LaneCommandView};
use crate::drive::dispatch::{intent_kind, kind_of_intent};
use crate::drive::tool_placement::{configuration_write, write_configuration};
use crate::durable::{in_step, lemma_committed_push};
use crate::lane::settle::keeps_step;
use crate::model::event::{
    ConfigUpdatePayload, ConfigUpdatePayloadView, HarnessEvent, HarnessEventView, PlannedEvent,
    PlannedEventView,
};
use crate::model::session::{
    LaneConfiguration, LaneConfigurationView, ModelIdentity, ModelIdentityView, OperationState,
    OperationStateView, ThinkingLevel,
};
use crate::model::storage::{AddressView, DurableValueView, WriteView};
use crate::state::is_cancelled;
use crate::types::{LaneRuntimeState, LaneRuntimeStateView};
use vstd::prelude::*;

verus! {

/// The commit that gives a lane another configuration.
pub open spec fn configuration_command(
    lane: Seq<char>,
    state: LaneRuntimeStateView,
    configuration: LaneConfigurationView,
    payload: ConfigUpdatePayloadView,
) -> LaneCommandView<()> {
    LaneCommandView::Commit {
        writes: seq![configuration_write(lane, configuration)],
        next: LaneRuntimeStateView { configuration, ..state },
        result: (),
        events: seq![
            PlannedEventView::Ready(
                HarnessEventView::ConfigUpdate { lane: Some(lane), payload, recovery: None },
            ),
        ],
    }
}

fn configure(
    lane_name: &String,
    state: LaneRuntimeState,
    configuration: LaneConfiguration,
    payload: ConfigUpdatePayload,
) -> (r: LaneCommand<()>)
    ensures
        r.deep_view() == configuration_command(
            lane_name@,
            state.deep_view(),
            configuration.deep_view(),
            payload.deep_view(),
        ),
{
    let ghost configured = configuration.deep_view();
    let ghost changed = payload.deep_view();
    let writes = vec![write_configuration(lane_name, configuration.clone())];
    assert(writes.deep_view() =~= seq![configuration_write(lane_name@, configured)]);
    let events = vec![
        PlannedEvent::Ready(
            HarnessEvent::ConfigUpdate { lane: Some(lane_name.clone()), payload, recovery: None },
        ),
    ];
    assert(events.deep_view() =~= seq![
        PlannedEventView::Ready(
            HarnessEventView::ConfigUpdate {
                lane: Some(lane_name@),
                payload: changed,
                recovery: None,
            },
        ),
    ]);
    LaneCommand::Commit {
        writes,
        next: LaneRuntimeState {
            tip_id: state.tip_id,
            configuration,
            inbox: state.inbox,
            last_operation_id: state.last_operation_id,
            operation: state.operation,
        },
        result: (),
        events,
    }
}

/// Gives a lane another model.
pub fn set_configuration_identity(
    lane_name: &String,
    state: LaneRuntimeState,
    identity: ModelIdentity,
) -> (r: LaneCommand<()>)
    ensures
        r.deep_view() == configuration_command(
            lane_name@,
            state.deep_view(),
            LaneConfigurationView {
                model: identity.deep_view(),
                ..state.deep_view().configuration
            },
            ConfigUpdatePayloadView::Model {
                value: identity.deep_view(),
                previous: state.deep_view().configuration.model,
            },
        ),
{
    let mut configuration = state.configuration.clone();
    configuration.model = identity.clone();
    let payload = ConfigUpdatePayload::Model {
        value: identity,
        previous: state.configuration.model.clone(),
    };
    configure(lane_name, state, configuration, payload)
}

/// Gives a lane another thinking level.
pub fn set_thinking_level(lane_name: &String, state: LaneRuntimeState, level: ThinkingLevel) -> (r:
    LaneCommand<()>)
    ensures
        r.deep_view() == configuration_command(
            lane_name@,
            state.deep_view(),
            LaneConfigurationView {
                thinking_level: level,
                ..state.deep_view().configuration
            },
            ConfigUpdatePayloadView::ThinkingLevel {
                value: level,
                previous: state.deep_view().configuration.thinking_level,
            },
        ),
{
    let mut configuration = state.configuration.clone();
    configuration.thinking_level = level;
    let payload = ConfigUpdatePayload::ThinkingLevel {
        value: level,
        previous: state.configuration.thinking_level,
    };
    configure(lane_name, state, configuration, payload)
}

/// Gives a lane other active tools.
pub fn set_active_tools(lane_name: &String, state: LaneRuntimeState, names: Vec<String>) -> (r:
    LaneCommand<()>)
    ensures
        r.deep_view() == configuration_command(
            lane_name@,
            state.deep_view(),
            LaneConfigurationView {
                active_tool_names: names.deep_view(),
                ..state.deep_view().configuration
            },
            ConfigUpdatePayloadView::ActiveTools {
                value: names.deep_view(),
                previous: state.deep_view().configuration.active_tool_names,
            },
        ),
{
    let mut configuration = state.configuration.clone();
    configuration.active_tool_names = names.clone();
    let payload = ConfigUpdatePayload::ActiveTools {
        value: names,
        previous: state.configuration.active_tool_names.clone(),
    };
    configure(lane_name, state, configuration, payload)
}

/// A change of configuration keeps the lane in step with storage, and leaves its
/// operation as it is.
pub proof fn law_configuring_keeps_step(
    store: Map<AddressView, DurableValueView>,
    lane: Seq<char>,
    state: LaneRuntimeStateView,
    configuration: LaneConfigurationView,
    payload: ConfigUpdatePayloadView,
)
    requires
        in_step(store, lane, state),
    ensures
        keeps_step(store, lane, configuration_command(lane, state, configuration, payload)),
{
    let write = configuration_write(lane, configuration);
    assert(seq![write] =~= Seq::<WriteView>::empty().push(write));
    lemma_committed_push(store, Seq::empty(), write);
}

/// The model that an operation is using or about to use.
pub fn captured_model(state: &OperationState) -> (r: Option<ModelIdentity>)
    ensures
        r.deep_view() == state.deep_view().captured_model(),
{
    match state {
        OperationState::AssistantReady { generation_context, .. }
        | OperationState::AssistantEffectPending { generation_context, .. }
        | OperationState::AssistantRetryWait { generation_context, .. } => Some(
            generation_context.configuration.model.clone(),
        ),
        OperationState::Tools { batch, .. } => Some(batch.configuration.model.clone()),
        OperationState::DeferredSuspended { scope }
        | OperationState::DeferredEffectPending { scope, .. } => Some(
            scope.configuration.model.clone(),
        ),
        OperationState::SummaryReady { summary_context, .. }
        | OperationState::SummaryEffectPending { summary_context, .. }
        | OperationState::SummaryRetryWait { summary_context, .. } => Some(
            summary_context.configuration.model.clone(),
        ),
        _ => None,
    }
}

/// What a lane tells of its operation.
#[derive(Debug, PartialEq, Eq)]
pub struct CurrentExecution {
    pub id: String,
    pub kind: String,
    pub status: String,
    pub started_at: u64,
    pub captured_model: Option<ModelIdentity>,
}

/// Contents of a [`CurrentExecution`].
pub struct CurrentExecutionView {
    pub id: Seq<char>,
    pub kind: Seq<char>,
    pub status: Seq<char>,
    pub started_at: u64,
    pub captured_model: Option<ModelIdentityView>,
}

impl DeepView for CurrentExecution {
    type V = CurrentExecutionView;

    open spec fn deep_view(&self) -> CurrentExecutionView {
        CurrentExecutionView {
            id: self.id.deep_view(),
            kind: self.kind.deep_view(),
            status: self.status.deep_view(),
            started_at: self.started_at,
            captured_model: self.captured_model.deep_view(),
        }
    }
}

/// What a lane tells of itself.
#[derive(Debug, PartialEq, Eq)]
pub struct Execution {
    pub lane: String,
    pub tip_id: Option<String>,
    pub configured_model: ModelIdentity,
    pub current: Option<CurrentExecution>,
    pub last_operation_id: Option<String>,
}

/// Contents of an [`Execution`].
pub struct ExecutionView {
    pub lane: Seq<char>,
    pub tip_id: Option<Seq<char>>,
    pub configured_model: ModelIdentityView,
    pub current: Option<CurrentExecutionView>,
    pub last_operation_id: Option<Seq<char>>,
}

impl DeepView for Execution {
    type V = ExecutionView;

    open spec fn deep_view(&self) -> ExecutionView {
        ExecutionView {
            lane: self.lane.deep_view(),
            tip_id: self.tip_id.deep_view(),
            configured_model: self.configured_model.deep_view(),
            current: self.current.deep_view(),
            last_operation_id: self.last_operation_id.deep_view(),
        }
    }
}

/// Whether an operation is open or being aborted.
pub open spec fn status_of(state: OperationStateView) -> Seq<char> {
    if state.cancelled() {
        "aborting"@
    } else {
        "open"@
    }
}

/// Tells whether an operation is open or being aborted.
pub fn status_text(state: &OperationState) -> (r: &'static str)
    ensures
        r@ == status_of(state.deep_view()),
{
    if is_cancelled(state) {
        "aborting"
    } else {
        "open"
    }
}

/// What a lane tells of itself.
pub open spec fn execution_of(lane: Seq<char>, state: LaneRuntimeStateView) -> ExecutionView {
    ExecutionView {
        lane,
        tip_id: state.tip_id,
        configured_model: state.configuration.model,
        current: match state.operation {
            Some(operation) => Some(
                CurrentExecutionView {
                    id: operation.meta.operation_id,
                    kind: kind_of_intent(operation.meta.intent),
                    status: status_of(operation.state),
                    started_at: operation.meta.started_at,
                    captured_model: operation.state.captured_model(),
                },
            ),
            None => None,
        },
        last_operation_id: state.last_operation_id,
    }
}

/// Tells of a lane.
pub fn inspect_execution(lane_name: &String, state: &LaneRuntimeState) -> (r: Execution)
    ensures
        r.deep_view() == execution_of(lane_name@, state.deep_view()),
{
    Execution {
        lane: lane_name.clone(),
        tip_id: state.tip_id.clone(),
        configured_model: state.configuration.model.clone(),
        current: match &state.operation {
            Some(operation) => Some(
                CurrentExecution {
                    id: operation.meta.operation_id.clone(),
                    kind: intent_kind(&operation.meta.intent).to_string(),
                    status: status_text(&operation.state).to_string(),
                    started_at: operation.meta.started_at,
                    captured_model: captured_model(&operation.state),
                },
            ),
            None => None,
        },
        last_operation_id: state.last_operation_id.clone(),
    }
}

/// The order in which a branch is walked.
#[derive(Clone, Copy, Debug, PartialEq, Eq, Structural)]
pub enum ScanOrder {
    NewestFirst,
    OldestFirst,
}

/// A search on a branch.
#[derive(Debug, PartialEq, Eq)]
pub struct BranchScan {
    pub start: Option<String>,
    pub order: Option<ScanOrder>,
    pub limit: Option<u64>,
}

/// Where a search starts: where it says, or at the tip. Without either there is
/// nothing to find.
pub fn scan_start(query: &BranchScan, state: &LaneRuntimeState) -> (r: Option<String>)
    ensures
        r.deep_view() == if query.start is Some {
            query.start.deep_view()
        } else {
            state.deep_view().tip_id
        },
{
    match &query.start {
        Some(start) => Some(start.clone()),
        None => state.tip_id.clone(),
    }
}

/// In which order a search walks: the newest entry comes first unless it says
/// otherwise.
pub fn scan_order(query: &BranchScan) -> (r: ScanOrder)
    ensures
        r == (match query.order {
            Some(order) => order,
            None => ScanOrder::NewestFirst,
        }),
{
    match query.order {
        Some(order) => order,
        None => ScanOrder::NewestFirst,
    }
}

/// How many entries a search for one entry may give: one, or none if it says so.
pub fn single_limit(limit: Option<u64>) -> (r: u64)
    ensures
        r == (match limit {
            Some(limit) => if limit < 1 {
                limit
            } else {
                1
            },
            None => 1,
        }),
{
    match limit {
        Some(limit) => if limit < 1 {
            limit
        } else {
            1
        },
        None => 1,
    }
}

} // verus!
