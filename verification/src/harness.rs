//! The harness: the lanes of a session and the settings that they share.

use crate::drive::dispatch::{intent_kind, kind_of_intent};
use crate::durable::{committed, holds, in_step};
use crate::lane::claim::{fresh_lane, sealed, LaneImpl, LaneImplView};
use crate::model::event::{
    ConfigUpdatePayload, ConfigUpdatePayloadView, HarnessEvent, HarnessEventView, RetryPolicy,
    ValueUpdatePayload, ValueUpdatePayloadView,
};
use crate::model::session::{
    CompactionSettings, DurableLaneState, DurableLaneStateView, LaneConfiguration,
    LaneConfigurationView, ModelIdentity, OperationMeta, OperationMetaView, OperationState,
    OperationStateView, QueueMode, StreamOptions, ThinkingLevel,
};
use crate::model::storage::{Address, AddressView, DurableValue, DurableValueView, Write, WriteView};
use crate::names::{in_order, inserted, lemma_inserted, precedes, text_precedes, Keyed, KeyedView};
use crate::restore::{
    names_of, restore_lane_state, restored, ClassifiedLaneStorage, ClassifiedLaneStorageView,
    RestoreError, RestoreErrorView,
};
use crate::state::is_cancelled;
use crate::text::{debug_text, join, quoted};
use crate::transcript::lemma_prefix_push;
use crate::types::{
    Config, ConfigView, HarnessError, HarnessErrorView, LaneRuntimeState, LaneRuntimeStateView,
    OpenOperation, OpenOperationView, Resources, SliceNotImplemented, SliceNotImplementedView,
    ToolDescriptor,
};
use vstd::prelude::*;
use vstd::string::*;

verus! {

impl SliceNotImplemented {
    /// What is said of a request that is not served.
    pub fn message(&self) -> (r: String)
        ensures
            r@ == self.deep_view().operation
                + " is not implemented until its later AgentHarness slice"@,
    {
        join(self.operation.clone(), " is not implemented until its later AgentHarness slice")
    }
}

/// Refuses to watch a session.
pub fn watch_session() -> (r: SliceNotImplemented)
    ensures
        r.deep_view() == (SliceNotImplementedView { operation: "watchSession"@ }),
{
    SliceNotImplemented { operation: "watchSession".to_string() }
}

/// The names of some lanes.
pub open spec fn lane_names(lanes: Seq<LaneImplView>) -> Seq<Seq<char>> {
    lanes.map_values(|lane: LaneImplView| lane.name)
}

/// Lanes with one more in its place. It replaces one of the same name.
pub open spec fn placed(lanes: Seq<LaneImplView>, lane: LaneImplView) -> Seq<LaneImplView>
    decreases lanes.len(),
{
    if lanes.len() == 0 {
        seq![lane]
    } else if lanes.last().name == lane.name {
        lanes.drop_last().push(lane)
    } else if precedes(lanes.last().name, lane.name) {
        lanes.push(lane)
    } else {
        placed(lanes.drop_last(), lane).push(lanes.last())
    }
}

/// Placing a lane places its name.
pub proof fn lemma_placed_names(lanes: Seq<LaneImplView>, lane: LaneImplView)
    ensures
        lane_names(placed(lanes, lane)) == inserted(lane_names(lanes), lane.name),
    decreases lanes.len(),
{
    let names = lane_names(lanes);
    if lanes.len() > 0 {
        assert(names.drop_last() =~= lane_names(lanes.drop_last()));
        assert(names.last() == lanes.last().name);
        lemma_placed_names(lanes.drop_last(), lane);
    }
    assert(lane_names(placed(lanes, lane)) =~= inserted(names, lane.name));
}

/// The lane of a name.
pub open spec fn lane_of(lanes: Seq<LaneImplView>, name: Seq<char>) -> Option<LaneImplView>
    decreases lanes.len(),
{
    if lanes.len() == 0 {
        None
    } else if lanes.last().name == name {
        Some(lanes.last())
    } else {
        lane_of(lanes.drop_last(), name)
    }
}

fn place_lane(lanes: &mut Vec<LaneImpl>, lane: LaneImpl)
    ensures
        final(lanes).deep_view() == placed(old(lanes).deep_view(), lane.deep_view()),
{
    let ghost before = lanes.deep_view();
    let ghost new = lane.deep_view();
    let mut i: usize = lanes.len();
    assert(before.take(i as int) =~= before);
    assert(placed(before, new) =~= placed(before.take(i as int), new) + before.skip(i as int));
    while i > 0
        invariant
            i <= lanes.len(),
            new == lane.deep_view(),
            lanes.deep_view() == before,
            before == old(lanes).deep_view(),
            placed(before, new) == placed(before.take(i as int), new) + before.skip(i as int),
        decreases i,
    {
        let ghost head = before.take(i as int);
        assert(head.last() == lanes[i - 1].deep_view());
        if lanes[i - 1].name == lane.name {
            assert(before.update(i - 1, new) =~= head.drop_last().push(new) + before.skip(
                i as int,
            ));
            lanes.set(i - 1, lane);
            assert(lanes.deep_view() =~= before.update(i - 1, new));
            return ;
        }
        if text_precedes(&lanes[i - 1].name, &lane.name) {
            assert(before.insert(i as int, new) =~= head.push(new) + before.skip(i as int));
            lanes.insert(i, lane);
            assert(lanes.deep_view() =~= before.insert(i as int, new));
            return ;
        }
        assert(head.drop_last() =~= before.take(i - 1));
        assert(placed(head.drop_last(), new).push(head.last()) + before.skip(i as int) =~= placed(
            before.take(i - 1),
            new,
        ) + before.skip(i - 1));
        i -= 1;
    }
    assert(before.insert(0, new) =~= seq![new] + before.skip(0));
    lanes.insert(0, lane);
    assert(lanes.deep_view() =~= before.insert(0, new));
}

/// What is reported of a lane that has an operation.
pub open spec fn open_operation(name: Seq<char>, state: LaneRuntimeStateView) -> Option<
    OpenOperationView,
> {
    match state.operation {
        Some(operation) => Some(
            OpenOperationView {
                lane: name,
                operation_id: operation.meta.operation_id,
                kind: kind_of_intent(operation.meta.intent),
                started_at: operation.meta.started_at,
                aborting: if operation.state.cancelled() {
                    Some(true)
                } else {
                    None
                },
            },
        ),
        None => None,
    }
}

/// What is reported of some lanes, in their order.
pub open spec fn open_operations(lanes: Seq<LaneImplView>) -> Seq<OpenOperationView>
    decreases lanes.len(),
{
    if lanes.len() == 0 {
        Seq::empty()
    } else {
        match open_operation(lanes.last().name, lanes.last().state) {
            Some(open) => open_operations(lanes.drop_last()).push(open),
            None => open_operations(lanes.drop_last()),
        }
    }
}

fn show_open(name: &String, state: &LaneRuntimeState) -> (r: Option<OpenOperation>)
    ensures
        r.deep_view() == open_operation(name@, state.deep_view()),
{
    match &state.operation {
        Some(operation) => Some(
            OpenOperation {
                lane: name.clone(),
                operation_id: operation.meta.operation_id.clone(),
                kind: intent_kind(&operation.meta.intent).to_string(),
                started_at: operation.meta.started_at,
                aborting: if is_cancelled(&operation.state) {
                    Some(true)
                } else {
                    None
                },
            },
        ),
        None => None,
    }
}

/// Why a name cannot be that of a lane.
pub open spec fn invalid_name(name: Seq<char>) -> Option<Seq<char>> {
    if name.len() == 0 {
        Some("lane name must not be empty"@)
    } else if name.contains('\0') {
        Some("lane name must not contain \\u0000"@)
    } else {
        None
    }
}

fn has_nul(name: &String) -> (r: bool)
    ensures
        r == name@.contains('\0'),
{
    let text = name.as_str();
    let len: usize = text.unicode_len();
    let mut i: usize = 0;
    while i < len
        invariant
            i <= len == name@.len(),
            text@ == name@,
            forall|k: int| 0 <= k < i ==> name@[k] != '\0',
        decreases len - i,
    {
        if text.get_char(i) == '\0' {
            assert(name@[i as int] == '\0');
            return true;
        }
        i += 1;
    }
    false
}

/// Refuses a name that cannot be that of a lane.
pub fn check_lane_name(name: &String) -> (r: Result<(), HarnessError>)
    ensures
        match invalid_name(name@) {
            Some(reason) => r is Err && r->Err_0.deep_view() == (HarnessErrorView::InvalidLane {
                lane: name@,
                reason,
                message: "Invalid lane "@ + debug_text(name@),
            }),
            None => r is Ok,
        },
{
    let empty = name.as_str().unicode_len() == 0;
    if !empty && !has_nul(name) {
        return Ok(());
    }
    let reason: &str = if empty {
        "lane name must not be empty"
    } else {
        "lane name must not contain \\u0000"
    };
    Err(
        HarnessError::InvalidLane {
            lane: name.clone(),
            reason: reason.to_string(),
            message: join("Invalid lane ".to_string(), quoted(name.as_str()).as_str()),
        },
    )
}

/// A lane that can be put in this process, once its writes are stored.
#[derive(Debug, PartialEq, Eq)]
pub struct AttachedLane {
    pub state: LaneRuntimeState,
    pub writes: Vec<Write>,
}

/// Contents of an [`AttachedLane`].
pub struct AttachedLaneView {
    pub state: LaneRuntimeStateView,
    pub writes: Seq<WriteView>,
}

impl DeepView for AttachedLane {
    type V = AttachedLaneView;

    open spec fn deep_view(&self) -> AttachedLaneView {
        AttachedLaneView { state: self.state.deep_view(), writes: self.writes.deep_view() }
    }
}

/// Why a lane cannot be attached.
#[derive(Debug, PartialEq, Eq)]
pub enum AttachError {
    /// The lane is to begin at an entry that there is not.
    Refused(HarnessError),
    /// What storage holds of the lane is broken.
    Broken(RestoreError),
}

/// Contents of an [`AttachError`].
#[allow(inconsistent_fields)]
pub enum AttachErrorView {
    Refused(HarnessErrorView),
    Broken(RestoreErrorView),
}

impl DeepView for AttachError {
    type V = AttachErrorView;

    open spec fn deep_view(&self) -> AttachErrorView {
        match self {
            AttachError::Refused(error) => AttachErrorView::Refused(error.deep_view()),
            AttachError::Broken(error) => AttachErrorView::Broken(error.deep_view()),
        }
    }
}

/// A lane that has done nothing yet.
pub open spec fn idle_lane(
    tip_id: Option<Seq<char>>,
    configuration: LaneConfigurationView,
) -> LaneRuntimeStateView {
    LaneRuntimeStateView {
        tip_id,
        configuration,
        inbox: Seq::empty(),
        last_operation_id: None,
        operation: None,
    }
}

/// The writes that attach a lane to a branch.
pub open spec fn attach_writes(name: Seq<char>, seed: LaneConfigurationView) -> Seq<WriteView> {
    seq![
        WriteView::SetValue {
            address: AddressView::LaneConfig { lane: name },
            value: DurableValueView::Configuration(seed),
        },
        WriteView::SetValue {
            address: AddressView::LaneState { lane: name },
            value: DurableValueView::Lane(
                DurableLaneStateView {
                    current_operation_id: None,
                    last_operation_id: None,
                    inbox: Seq::empty(),
                },
            ),
        },
    ]
}

/// How a name becomes a lane of this process: a stored lane is restored, a branch
/// gets a lane with the settings of the harness, and where there is nothing a lane
/// begins at `create_at`. `target_known` says whether that entry exists.
pub open spec fn attached(
    seed: LaneConfigurationView,
    name: Seq<char>,
    stored: ClassifiedLaneStorageView,
    meta: Option<OperationMetaView>,
    state: Option<OperationStateView>,
    create_at: Option<Seq<char>>,
    target_known: bool,
) -> Result<AttachedLaneView, AttachErrorView> {
    match stored {
        ClassifiedLaneStorageView::Lane { .. } => match restored(name, stored, meta, state) {
            Ok(state) => Ok(AttachedLaneView { state, writes: Seq::empty() }),
            Err(error) => Err(AttachErrorView::Broken(error)),
        },
        ClassifiedLaneStorageView::Branch { tip } => Ok(
            AttachedLaneView { state: idle_lane(tip, seed), writes: attach_writes(name, seed) },
        ),
        ClassifiedLaneStorageView::Absent => match create_at {
            Some(target_id) => if target_known {
                Ok(
                    AttachedLaneView {
                        state: idle_lane(create_at, seed),
                        writes: attach_writes(name, seed),
                    },
                )
            } else {
                Err(
                    AttachErrorView::Refused(
                        HarnessErrorView::UnknownTarget {
                            target_id,
                            message: "Unknown target: "@ + target_id,
                        },
                    ),
                )
            },
            None => Ok(
                AttachedLaneView {
                    state: idle_lane(None, seed),
                    writes: seq![
                        WriteView::SetValue {
                            address: AddressView::BranchTip { lane: name },
                            value: DurableValueView::Tip(None),
                        },
                    ] + attach_writes(name, seed),
                },
            ),
        },
    }
}

fn begin_lane(seed: &LaneConfiguration, tip_id: Option<String>) -> (r: LaneRuntimeState)
    ensures
        r.deep_view() == idle_lane(tip_id.deep_view(), seed.deep_view()),
{
    let r = LaneRuntimeState {
        tip_id,
        configuration: seed.clone(),
        inbox: Vec::new(),
        last_operation_id: None,
        operation: None,
    };
    assert(r.inbox.deep_view() =~= Seq::empty());
    r
}

fn push_attach_writes(writes: &mut Vec<Write>, name: &String, seed: &LaneConfiguration)
    ensures
        final(writes).deep_view() == old(writes).deep_view() + attach_writes(
            name@,
            seed.deep_view(),
        ),
{
    let ghost before = writes.deep_view();
    let lane_state = DurableLaneState {
        current_operation_id: None,
        last_operation_id: None,
        inbox: Vec::new(),
    };
    assert(lane_state.inbox.deep_view() =~= Seq::empty());
    writes.push(
        Write::SetValue {
            address: Address::LaneConfig { lane: name.clone() },
            value: DurableValue::Configuration(seed.clone()),
        },
    );
    writes.push(
        Write::SetValue {
            address: Address::LaneState { lane: name.clone() },
            value: DurableValue::Lane(lane_state),
        },
    );
    assert(writes.deep_view() =~= before + attach_writes(name@, seed.deep_view()));
}

/// Attaches a lane.
pub fn attach_lane(
    seed: &LaneConfiguration,
    name: &String,
    stored: ClassifiedLaneStorage,
    meta: Option<OperationMeta>,
    state: Option<OperationState>,
    create_at: Option<String>,
    target_known: bool,
) -> (r: Result<AttachedLane, AttachError>)
    ensures
        match attached(
            seed.deep_view(),
            name@,
            stored.deep_view(),
            meta.deep_view(),
            state.deep_view(),
            create_at.deep_view(),
            target_known,
        ) {
            Ok(lane) => r is Ok && r->Ok_0.deep_view() == lane,
            Err(error) => r is Err && r->Err_0.deep_view() == error,
        },
{
    let mut writes: Vec<Write> = Vec::new();
    assert(writes.deep_view() =~= Seq::empty());
    match stored {
        ClassifiedLaneStorage::Lane { .. } => match restore_lane_state(name, stored, meta, state) {
            Ok(state) => Ok(AttachedLane { state, writes }),
            Err(error) => Err(AttachError::Broken(error)),
        },
        ClassifiedLaneStorage::Branch { tip } => {
            push_attach_writes(&mut writes, name, seed);
            assert(writes.deep_view() =~= attach_writes(name@, seed.deep_view()));
            Ok(AttachedLane { state: begin_lane(seed, tip), writes })
        },
        ClassifiedLaneStorage::Absent => {
            if let Some(target_id) = &create_at {
                if !target_known {
                    return Err(
                        AttachError::Refused(
                            HarnessError::UnknownTarget {
                                target_id: target_id.clone(),
                                message: join(
                                    "Unknown target: ".to_string(),
                                    target_id.as_str(),
                                ),
                            },
                        ),
                    );
                }
            } else {
                writes.push(
                    Write::SetValue {
                        address: Address::BranchTip { lane: name.clone() },
                        value: DurableValue::Tip(None),
                    },
                );
                assert(writes.deep_view() =~= seq![
                    WriteView::SetValue {
                        address: AddressView::BranchTip { lane: name@ },
                        value: DurableValueView::Tip(None),
                    },
                ]);
            }
            let ghost before = writes.deep_view();
            push_attach_writes(&mut writes, name, seed);
            assert(create_at is Some ==> writes.deep_view() =~= attach_writes(
                name@,
                seed.deep_view(),
            ));
            Ok(AttachedLane { state: begin_lane(seed, create_at), writes })
        },
    }
}

/// The lanes of a session and the settings that they share.
#[derive(Debug, PartialEq, Eq)]
pub struct Harness {
    pub lanes: Vec<LaneImpl>,
    /// What a new lane is configured with.
    pub seed: LaneConfiguration,
    pub config: Config,
    pub closed_error: Option<String>,
    pub fault_error: Option<String>,
}

/// Contents of a [`Harness`].
pub struct HarnessView {
    pub lanes: Seq<LaneImplView>,
    pub seed: LaneConfigurationView,
    pub config: ConfigView,
    pub closed_error: Option<Seq<char>>,
    pub fault_error: Option<Seq<char>>,
}

impl DeepView for Harness {
    type V = HarnessView;

    open spec fn deep_view(&self) -> HarnessView {
        HarnessView {
            lanes: self.lanes.deep_view(),
            seed: self.seed.deep_view(),
            config: self.config.deep_view(),
            closed_error: self.closed_error.deep_view(),
            fault_error: self.fault_error.deep_view(),
        }
    }
}

impl HarnessView {
    /// The lanes stand in the order of their names, each once.
    pub open spec fn wf(self) -> bool {
        in_order(lane_names(self.lanes))
    }

    /// Why the harness takes no requests any more. A fault comes first.
    pub open spec fn refusal(self) -> Option<Seq<char>> {
        if self.fault_error is Some {
            self.fault_error
        } else {
            self.closed_error
        }
    }
}

/// Some lanes after each was closed.
pub open spec fn all_sealed(lanes: Seq<LaneImplView>, error: Seq<char>) -> Seq<LaneImplView> {
    lanes.map_values(|lane: LaneImplView| sealed(lane, error))
}

/// Lanes with those of some rows in their places.
pub open spec fn all_placed(
    lanes: Seq<LaneImplView>,
    rows: Seq<KeyedView<LaneRuntimeStateView>>,
) -> Seq<LaneImplView>
    decreases rows.len(),
{
    if rows.len() == 0 {
        lanes
    } else {
        placed(
            all_placed(lanes, rows.drop_last()),
            fresh_lane(rows.last().key, rows.last().value),
        )
    }
}

/// What is reported of restored lanes, in their order.
pub open spec fn restored_operations(rows: Seq<KeyedView<LaneRuntimeStateView>>) -> Seq<
    OpenOperationView,
>
    decreases rows.len(),
{
    if rows.len() == 0 {
        Seq::empty()
    } else {
        match open_operation(rows.last().key, rows.last().value) {
            Some(open) => restored_operations(rows.drop_last()).push(open),
            None => restored_operations(rows.drop_last()),
        }
    }
}

fn seal_all(lanes: &mut Vec<LaneImpl>, error: &String)
    requires
        forall|i: int| 0 <= i < old(lanes).len() ==> old(lanes)[i].generation < u64::MAX,
    ensures
        final(lanes).deep_view() == all_sealed(old(lanes).deep_view(), error@),
{
    let ghost before = lanes.deep_view();
    let mut i: usize = 0;
    while i < lanes.len()
        invariant
            i <= lanes.len() == before.len(),
            before == old(lanes).deep_view(),
            forall|k: int| i <= k < lanes.len() ==> lanes[k].generation < u64::MAX,
            forall|k: int|
                0 <= k < lanes.len() ==> #[trigger] lanes.deep_view()[k] == if k < i {
                    sealed(before[k], error@)
                } else {
                    before[k]
                },
        decreases lanes.len() - i,
    {
        let ghost start = lanes.deep_view();
        assert(lanes.deep_view()[i as int] == before[i as int]);
        lanes[i].seal(error.clone());
        assert(lanes.deep_view() =~= start.update(i as int, sealed(before[i as int], error@)));
        i += 1;
    }
    assert(lanes.deep_view() =~= all_sealed(before, error@));
}

/// What a fault says.
pub open spec fn fault_message(cause: Seq<char>) -> Seq<char> {
    "AgentHarness storage or invariant fault: "@ + cause
}

/// What a harness that was closed says.
pub open spec fn closing_message() -> Seq<char> {
    "AgentHarness was closed while the operation was active"@
}

/// An update of a shared setting.
pub open spec fn config_update(payload: ConfigUpdatePayloadView) -> HarnessEventView {
    HarnessEventView::ConfigUpdate { lane: None, payload, recovery: None }
}

fn updated(payload: ConfigUpdatePayload) -> (r: HarnessEvent)
    ensures
        r.deep_view() == config_update(payload.deep_view()),
{
    HarnessEvent::ConfigUpdate { lane: None, payload, recovery: None }
}

/// Starts a harness on the lanes that a session restored, and reports the
/// operations that were open.
pub fn create_agent_harness(
    model: ModelIdentity,
    thinking_level: ThinkingLevel,
    active_tool_names: Vec<String>,
    config: Config,
    restored: Vec<Keyed<LaneRuntimeState>>,
) -> (r: (Harness, Vec<OpenOperation>))
    ensures
        r.0.deep_view() == (HarnessView {
            lanes: all_placed(Seq::empty(), restored.deep_view()),
            seed: LaneConfigurationView {
                model: model.deep_view(),
                thinking_level,
                active_tool_names: active_tool_names.deep_view(),
            },
            config: config.deep_view(),
            closed_error: None,
            fault_error: None,
        }),
        r.0.deep_view().wf(),
        r.1.deep_view() == restored_operations(restored.deep_view()),
{
    let seed = LaneConfiguration { model, thinking_level, active_tool_names };
    let mut lanes: Vec<LaneImpl> = Vec::new();
    let mut open: Vec<OpenOperation> = Vec::new();
    let mut i: usize = 0;
    let ghost none: Seq<LaneImplView> = Seq::empty();
    assert(lanes.deep_view() =~= none);
    assert(open.deep_view() =~= Seq::empty());
    while i < restored.len()
        invariant
            i <= restored.len(),
            lanes.deep_view() == all_placed(none, restored.deep_view().take(i as int)),
            in_order(lane_names(lanes.deep_view())),
            open.deep_view() == restored_operations(restored.deep_view().take(i as int)),
        decreases restored.len() - i,
    {
        let ghost before = open.deep_view();
        proof {
            lemma_prefix_push(restored, i as int);
            let head = restored.deep_view().take(i as int);
            assert(head.push(restored[i as int].deep_view()).drop_last() =~= head);
            let lane = fresh_lane(restored[i as int].key@, restored[i as int].value.deep_view());
            lemma_placed_names(lanes.deep_view(), lane);
            lemma_inserted(lane_names(lanes.deep_view()), lane.name);
        }
        let row = &restored[i];
        if let Some(report) = show_open(&row.key, &row.value) {
            open.push(report);
            assert(open.deep_view() =~= before.push(report.deep_view()));
        }
        place_lane(&mut lanes, LaneImpl::new(row.key.clone(), row.value.clone()));
        i += 1;
    }
    assert(restored.deep_view().take(i as int) =~= restored.deep_view());
    (Harness { lanes, seed, config, closed_error: None, fault_error: None }, open)
}

impl Harness {
    /// Refuses a request to a harness that is closed or has failed.
    pub fn assert_open(&self) -> (r: Result<(), HarnessError>)
        ensures
            match self.deep_view().refusal() {
                Some(message) => r is Err && r->Err_0.deep_view() == (HarnessErrorView::Closed {
                    message,
                }),
                None => r is Ok,
            },
    {
        if let Some(error) = &self.fault_error {
            return Err(HarnessError::Closed { message: error.clone() });
        }
        if let Some(error) = &self.closed_error {
            return Err(HarnessError::Closed { message: error.clone() });
        }
        Ok(())
    }

    /// Gives up on the harness: every lane is closed. Only the first fault counts.
    pub fn fault(&mut self, cause: &String) -> (r: HarnessError)
        requires
            forall|i: int| 0 <= i < old(self).lanes.len() ==> old(self).lanes[i].generation
                < u64::MAX,
        ensures
            match old(self).deep_view().refusal() {
                Some(message) => r.deep_view() == (HarnessErrorView::Closed { message })
                    && *final(self) == *old(self),
                None => {
                    let message = fault_message(cause@);
                    &&& r.deep_view() == (HarnessErrorView::Closed { message })
                    &&& final(self).deep_view() == (HarnessView {
                        lanes: all_sealed(old(self).deep_view().lanes, message),
                        fault_error: Some(message),
                        ..old(self).deep_view()
                    })
                },
            },
    {
        if let Err(error) = self.assert_open() {
            return error;
        }
        let message = join(
            "AgentHarness storage or invariant fault: ".to_string(),
            cause.as_str(),
        );
        self.fault_error = Some(message.clone());
        seal_all(&mut self.lanes, &message);
        HarnessError::Closed { message }
    }

    /// What a lane is told of a fault: the one that the harness already has, or
    /// its own.
    pub fn lane_fault(&self, cause: &String) -> (r: String)
        ensures
            r@ == (match self.deep_view().fault_error {
                Some(error) => error,
                None => fault_message(cause@),
            }),
    {
        match &self.fault_error {
            Some(error) => error.clone(),
            None => join("AgentHarness storage or invariant fault: ".to_string(), cause.as_str()),
        }
    }

    /// Closes the harness with all its lanes. It can be closed once.
    pub fn close(&mut self) -> (r: Result<(), HarnessError>)
        requires
            forall|i: int| 0 <= i < old(self).lanes.len() ==> old(self).lanes[i].generation
                < u64::MAX,
        ensures
            match old(self).deep_view().closed_error {
                Some(message) => r is Err && r->Err_0.deep_view() == (HarnessErrorView::Closed {
                    message,
                }) && *final(self) == *old(self),
                None => r is Ok && final(self).deep_view() == (HarnessView {
                    lanes: all_sealed(old(self).deep_view().lanes, closing_message()),
                    closed_error: Some(closing_message()),
                    ..old(self).deep_view()
                }),
            },
    {
        if let Some(error) = &self.closed_error {
            return Err(HarnessError::Closed { message: error.clone() });
        }
        let message = "AgentHarness was closed while the operation was active".to_string();
        self.closed_error = Some(message.clone());
        seal_all(&mut self.lanes, &message);
        Ok(())
    }

    /// Where the lane of a name stands among the lanes.
    pub fn find_lane(&self, name: &String) -> (r: Option<usize>)
        ensures
            match lane_of(self.deep_view().lanes, name@) {
                Some(lane) => r is Some && r->Some_0 < self.lanes.len()
                    && self.lanes[r->Some_0 as int].deep_view() == lane,
                None => r is None,
            },
    {
        let mut i: usize = self.lanes.len();
        assert(self.lanes.deep_view().take(i as int) =~= self.lanes.deep_view());
        while i > 0
            invariant
                i <= self.lanes.len(),
                lane_of(self.lanes.deep_view(), name@) == lane_of(
                    self.lanes.deep_view().take(i as int),
                    name@,
                ),
            decreases i,
        {
            let ghost head = self.lanes.deep_view().take(i as int);
            assert(head.last() == self.lanes[i - 1].deep_view());
            if self.lanes[i - 1].name == *name {
                return Some(i - 1);
            }
            assert(head.drop_last() =~= self.lanes.deep_view().take(i - 1));
            i -= 1;
        }
        None
    }

    /// Takes in a lane that was attached, and tells observers.
    pub fn install_lane(&mut self, name: &String, state: LaneRuntimeState) -> (r: HarnessEvent)
        requires
            old(self).deep_view().wf(),
        ensures
            final(self).deep_view() == (HarnessView {
                lanes: placed(
                    old(self).deep_view().lanes,
                    fresh_lane(name@, state.deep_view()),
                ),
                ..old(self).deep_view()
            }),
            final(self).deep_view().wf(),
            r.deep_view() == (HarnessEventView::LaneCreated {
                lane: name@,
                at: state.deep_view().tip_id,
                recovery: None,
            }),
    {
        proof {
            let lane = fresh_lane(name@, state.deep_view());
            lemma_placed_names(self.lanes.deep_view(), lane);
            lemma_inserted(lane_names(self.lanes.deep_view()), lane.name);
        }
        let at = state.tip_id.clone();
        place_lane(&mut self.lanes, LaneImpl::new(name.clone(), state));
        HarnessEvent::LaneCreated { lane: name.clone(), at, recovery: None }
    }

    /// Lists the operations that are open, in the order of their lanes.
    pub fn lanes(&self) -> (r: Result<Vec<OpenOperation>, HarnessError>)
        ensures
            match self.deep_view().refusal() {
                Some(message) => r is Err && r->Err_0.deep_view() == (HarnessErrorView::Closed {
                    message,
                }),
                None => r is Ok && r->Ok_0.deep_view() == open_operations(self.deep_view().lanes),
            },
    {
        if let Err(error) = self.assert_open() {
            return Err(error);
        }
        let mut open: Vec<OpenOperation> = Vec::new();
        let mut i: usize = 0;
        assert(open.deep_view() =~= Seq::empty());
        while i < self.lanes.len()
            invariant
                i <= self.lanes.len(),
                open.deep_view() == open_operations(self.lanes.deep_view().take(i as int)),
            decreases self.lanes.len() - i,
        {
            let ghost before = open.deep_view();
            proof {
                lemma_prefix_push(self.lanes, i as int);
                let head = self.lanes.deep_view().take(i as int);
                assert(head.push(self.lanes[i as int].deep_view()).drop_last() =~= head);
            }
            if let Some(report) = show_open(&self.lanes[i].name, &self.lanes[i].state) {
                open.push(report);
                assert(open.deep_view() =~= before.push(report.deep_view()));
            }
            i += 1;
        }
        assert(self.lanes.deep_view().take(i as int) =~= self.lanes.deep_view());
        Ok(open)
    }

    /// Tells observers of a new session name.
    pub fn set_name(&self, name: Option<String>) -> (r: Result<HarnessEvent, HarnessError>)
        ensures
            match self.deep_view().refusal() {
                Some(message) => r is Err && r->Err_0.deep_view() == (HarnessErrorView::Closed {
                    message,
                }),
                None => r is Ok && r->Ok_0.deep_view() == (HarnessEventView::ValueUpdate {
                    payload: ValueUpdatePayloadView::SessionName { name: name.deep_view() },
                }),
            },
    {
        if let Err(error) = self.assert_open() {
            return Err(error);
        }
        Ok(HarnessEvent::ValueUpdate { payload: ValueUpdatePayload::SessionName { name } })
    }

    /// Tells observers of a new label of an entry.
    pub fn set_label(&self, target_id: &String, label: Option<String>) -> (r: Result<
        HarnessEvent,
        HarnessError,
    >)
        ensures
            match self.deep_view().refusal() {
                Some(message) => r is Err && r->Err_0.deep_view() == (HarnessErrorView::Closed {
                    message,
                }),
                None => r is Ok && r->Ok_0.deep_view() == (HarnessEventView::ValueUpdate {
                    payload: ValueUpdatePayloadView::EntryLabel {
                        target_id: target_id@,
                        label: label.deep_view(),
                    },
                }),
            },
    {
        if let Err(error) = self.assert_open() {
            return Err(error);
        }
        Ok(
            HarnessEvent::ValueUpdate {
                payload: ValueUpdatePayload::EntryLabel { target_id: target_id.clone(), label },
            },
        )
    }

    /// The tools that lanes can use.
    pub fn get_tools(&self) -> (r: Result<Vec<ToolDescriptor>, HarnessError>)
        ensures
            match self.deep_view().refusal() {
                Some(message) => r is Err && r->Err_0.deep_view() == (HarnessErrorView::Closed {
                    message,
                }),
                None => r is Ok && r->Ok_0.deep_view() == self.deep_view().config.tools,
            },
    {
        if let Err(error) = self.assert_open() {
            return Err(error);
        }
        Ok(self.config.tools.clone())
    }

    /// Replaces the tools that lanes can use.
    pub fn set_tools(&mut self, value: Vec<ToolDescriptor>) -> (r: Result<HarnessEvent, HarnessError>)
        ensures
            match old(self).deep_view().refusal() {
                Some(message) => r is Err && r->Err_0.deep_view() == (HarnessErrorView::Closed {
                    message,
                }) && *final(self) == *old(self),
                None => {
                    &&& final(self).deep_view() == (HarnessView {
                        config: ConfigView {
                            tools: value.deep_view(),
                            ..old(self).deep_view().config
                        },
                        ..old(self).deep_view()
                    })
                    &&& r is Ok && r->Ok_0.deep_view() == config_update(
                        ConfigUpdatePayloadView::Tools,
                    )
                },
            },
    {
        if let Err(error) = self.assert_open() {
            return Err(error);
        }
        self.config.tools = value;
        Ok(updated(ConfigUpdatePayload::Tools))
    }

    /// The skills and templates that lanes can use.
    pub fn get_resources(&self) -> (r: Result<Resources, HarnessError>)
        ensures
            match self.deep_view().refusal() {
                Some(message) => r is Err && r->Err_0.deep_view() == (HarnessErrorView::Closed {
                    message,
                }),
                None => r is Ok && r->Ok_0.deep_view() == self.deep_view().config.resources,
            },
    {
        if let Err(error) = self.assert_open() {
            return Err(error);
        }
        Ok(self.config.resources.clone())
    }

    /// Replaces the skills and templates that lanes can use.
    pub fn set_resources(&mut self, value: Resources) -> (r: Result<HarnessEvent, HarnessError>)
        ensures
            match old(self).deep_view().refusal() {
                Some(message) => r is Err && r->Err_0.deep_view() == (HarnessErrorView::Closed {
                    message,
                }) && *final(self) == *old(self),
                None => {
                    &&& final(self).deep_view() == (HarnessView {
                        config: ConfigView {
                            resources: value.deep_view(),
                            ..old(self).deep_view().config
                        },
                        ..old(self).deep_view()
                    })
                    &&& r is Ok && r->Ok_0.deep_view() == config_update(
                        ConfigUpdatePayloadView::Resources,
                    )
                },
            },
    {
        if let Err(error) = self.assert_open() {
            return Err(error);
        }
        self.config.resources = value;
        Ok(updated(ConfigUpdatePayload::Resources))
    }

    /// What requests to a model are sent with.
    pub fn get_stream_options(&self) -> (r: Result<StreamOptions, HarnessError>)
        ensures
            match self.deep_view().refusal() {
                Some(message) => r is Err && r->Err_0.deep_view() == (HarnessErrorView::Closed {
                    message,
                }),
                None => r is Ok && r->Ok_0.deep_view() == self.deep_view().config.stream_options,
            },
    {
        if let Err(error) = self.assert_open() {
            return Err(error);
        }
        Ok(self.config.stream_options.clone())
    }

    /// Replaces what requests to a model are sent with.
    pub fn set_stream_options(&mut self, value: StreamOptions) -> (r: Result<HarnessEvent, HarnessError>)
        ensures
            match old(self).deep_view().refusal() {
                Some(message) => r is Err && r->Err_0.deep_view() == (HarnessErrorView::Closed {
                    message,
                }) && *final(self) == *old(self),
                None => {
                    &&& final(self).deep_view() == (HarnessView {
                        config: ConfigView {
                            stream_options: value.deep_view(),
                            ..old(self).deep_view().config
                        },
                        ..old(self).deep_view()
                    })
                    &&& r is Ok && r->Ok_0.deep_view() == config_update(
                        ConfigUpdatePayloadView::StreamOptions {
                            value: value.deep_view(),
                            previous: old(self).deep_view().config.stream_options,
                        },
                    )
                },
            },
    {
        if let Err(error) = self.assert_open() {
            return Err(error);
        }
        let previous = self.config.stream_options.clone();
        self.config.stream_options = value.clone();
        Ok(updated(ConfigUpdatePayload::StreamOptions { value, previous }))
    }

    /// How failed requests are repeated.
    pub fn get_retry_policy(&self) -> (r: Result<RetryPolicy, HarnessError>)
        ensures
            match self.deep_view().refusal() {
                Some(message) => r is Err && r->Err_0.deep_view() == (HarnessErrorView::Closed {
                    message,
                }),
                None => r is Ok && r->Ok_0.deep_view() == self.deep_view().config.retry_policy,
            },
    {
        if let Err(error) = self.assert_open() {
            return Err(error);
        }
        Ok(self.config.retry_policy)
    }

    /// Changes how failed requests are repeated.
    pub fn set_retry_policy(&mut self, value: RetryPolicy) -> (r: Result<HarnessEvent, HarnessError>)
        ensures
            match old(self).deep_view().refusal() {
                Some(message) => r is Err && r->Err_0.deep_view() == (HarnessErrorView::Closed {
                    message,
                }) && *final(self) == *old(self),
                None => {
                    &&& final(self).deep_view() == (HarnessView {
                        config: ConfigView {
                            retry_policy: value.deep_view(),
                            ..old(self).deep_view().config
                        },
                        ..old(self).deep_view()
                    })
                    &&& r is Ok && r->Ok_0.deep_view() == config_update(
                        ConfigUpdatePayloadView::RetryPolicy {
                            value: value.deep_view(),
                            previous: old(self).deep_view().config.retry_policy,
                        },
                    )
                },
            },
    {
        if let Err(error) = self.assert_open() {
            return Err(error);
        }
        let previous = self.config.retry_policy;
        self.config.retry_policy = value;
        Ok(updated(ConfigUpdatePayload::RetryPolicy { value, previous }))
    }

    /// When transcripts are compacted.
    pub fn get_compaction_settings(&self) -> (r: Result<CompactionSettings, HarnessError>)
        ensures
            match self.deep_view().refusal() {
                Some(message) => r is Err && r->Err_0.deep_view() == (HarnessErrorView::Closed {
                    message,
                }),
                None => r is Ok && r->Ok_0.deep_view() == self.deep_view().config.compaction,
            },
    {
        if let Err(error) = self.assert_open() {
            return Err(error);
        }
        Ok(self.config.compaction)
    }

    /// Changes when transcripts are compacted.
    pub fn set_compaction_settings(&mut self, value: CompactionSettings) -> (r: Result<HarnessEvent, HarnessError>)
        ensures
            match old(self).deep_view().refusal() {
                Some(message) => r is Err && r->Err_0.deep_view() == (HarnessErrorView::Closed {
                    message,
                }) && *final(self) == *old(self),
                None => {
                    &&& final(self).deep_view() == (HarnessView {
                        config: ConfigView {
                            compaction: value.deep_view(),
                            ..old(self).deep_view().config
                        },
                        ..old(self).deep_view()
                    })
                    &&& r is Ok && r->Ok_0.deep_view() == config_update(
                        ConfigUpdatePayloadView::CompactionSettings {
                            value: value.deep_view(),
                            previous: old(self).deep_view().config.compaction,
                        },
                    )
                },
            },
    {
        if let Err(error) = self.assert_open() {
            return Err(error);
        }
        let previous = self.config.compaction;
        self.config.compaction = value;
        Ok(updated(ConfigUpdatePayload::CompactionSettings { value, previous }))
    }

    /// How many steers enter a turn.
    pub fn get_steering_mode(&self) -> (r: Result<QueueMode, HarnessError>)
        ensures
            match self.deep_view().refusal() {
                Some(message) => r is Err && r->Err_0.deep_view() == (HarnessErrorView::Closed {
                    message,
                }),
                None => r is Ok && r->Ok_0.deep_view() == self.deep_view().config.steering_mode,
            },
    {
        if let Err(error) = self.assert_open() {
            return Err(error);
        }
        Ok(self.config.steering_mode)
    }

    /// Changes how many steers enter a turn.
    pub fn set_steering_mode(&mut self, value: QueueMode) -> (r: Result<HarnessEvent, HarnessError>)
        ensures
            match old(self).deep_view().refusal() {
                Some(message) => r is Err && r->Err_0.deep_view() == (HarnessErrorView::Closed {
                    message,
                }) && *final(self) == *old(self),
                None => {
                    &&& final(self).deep_view() == (HarnessView {
                        config: ConfigView {
                            steering_mode: value.deep_view(),
                            ..old(self).deep_view().config
                        },
                        ..old(self).deep_view()
                    })
                    &&& r is Ok && r->Ok_0.deep_view() == config_update(
                        ConfigUpdatePayloadView::SteeringMode {
                            value: value.deep_view(),
                            previous: old(self).deep_view().config.steering_mode,
                        },
                    )
                },
            },
    {
        if let Err(error) = self.assert_open() {
            return Err(error);
        }
        let previous = self.config.steering_mode;
        self.config.steering_mode = value;
        Ok(updated(ConfigUpdatePayload::SteeringMode { value, previous }))
    }

    /// How many follow-ups enter a turn.
    pub fn get_follow_up_mode(&self) -> (r: Result<QueueMode, HarnessError>)
        ensures
            match self.deep_view().refusal() {
                Some(message) => r is Err && r->Err_0.deep_view() == (HarnessErrorView::Closed {
                    message,
                }),
                None => r is Ok && r->Ok_0.deep_view() == self.deep_view().config.follow_up_mode,
            },
    {
        if let Err(error) = self.assert_open() {
            return Err(error);
        }
        Ok(self.config.follow_up_mode)
    }

    /// Changes how many follow-ups enter a turn.
    pub fn set_follow_up_mode(&mut self, value: QueueMode) -> (r: Result<HarnessEvent, HarnessError>)
        ensures
            match old(self).deep_view().refusal() {
                Some(message) => r is Err && r->Err_0.deep_view() == (HarnessErrorView::Closed {
                    message,
                }) && *final(self) == *old(self),
                None => {
                    &&& final(self).deep_view() == (HarnessView {
                        config: ConfigView {
                            follow_up_mode: value.deep_view(),
                            ..old(self).deep_view().config
                        },
                        ..old(self).deep_view()
                    })
                    &&& r is Ok && r->Ok_0.deep_view() == config_update(
                        ConfigUpdatePayloadView::FollowUpMode {
                            value: value.deep_view(),
                            previous: old(self).deep_view().config.follow_up_mode,
                        },
                    )
                },
            },
    {
        if let Err(error) = self.assert_open() {
            return Err(error);
        }
        let previous = self.config.follow_up_mode;
        self.config.follow_up_mode = value;
        Ok(updated(ConfigUpdatePayload::FollowUpMode { value, previous }))
    }
}

/// A harness that is closed or fails closes each of its lanes and stops the drive
/// there. It leaves the name and the state of the lane alone.
pub proof fn law_closing_reaches_every_lane(lanes: Seq<LaneImplView>, error: Seq<char>, i: int)
    requires
        0 <= i < lanes.len(),
    ensures
        all_sealed(lanes, error)[i].closed_error is Some,
        all_sealed(lanes, error)[i].name == lanes[i].name,
        all_sealed(lanes, error)[i].state == lanes[i].state,
        all_sealed(lanes, error)[i].active_drive matches Some(drive) ==> drive.close_signal,
{
}

/// A lane that was placed is found by its name, and no other lane is lost or
/// changed by it.
pub proof fn law_a_placed_lane_is_found(
    lanes: Seq<LaneImplView>,
    lane: LaneImplView,
    other: Seq<char>,
)
    requires
        in_order(lane_names(lanes)),
    ensures
        lane_of(placed(lanes, lane), lane.name) == Some(lane),
        other != lane.name ==> lane_of(placed(lanes, lane), other) == lane_of(lanes, other),
        in_order(lane_names(placed(lanes, lane))),
    decreases lanes.len(),
{
    lemma_placed_names(lanes, lane);
    lemma_inserted(lane_names(lanes), lane.name);
    let after = placed(lanes, lane);
    if lanes.len() == 0 {
        assert(after.drop_last() =~= lanes);
    } else {
        let rest = lanes.drop_last();
        assert forall|i: int, j: int| 0 <= i < j < lane_names(rest).len() implies precedes(
            #[trigger] lane_names(rest)[i],
            #[trigger] lane_names(rest)[j],
        ) by {
            assert(lane_names(rest)[i] == lane_names(lanes)[i]);
            assert(lane_names(rest)[j] == lane_names(lanes)[j]);
        }
        law_a_placed_lane_is_found(rest, lane, other);
        if lanes.last().name == lane.name {
            assert(after.drop_last() =~= rest);
        } else if precedes(lanes.last().name, lane.name) {
            assert(after.drop_last() =~= lanes);
        } else {
            assert(after.drop_last() =~= placed(rest, lane));
        }
    }
}

/// A restart reports the same open operations as the harness that it makes.
pub proof fn law_a_restart_reports_what_is_open(rows: Seq<KeyedView<LaneRuntimeStateView>>)
    requires
        in_order(names_of(rows)),
    ensures
        restored_operations(rows) == open_operations(all_placed(Seq::empty(), rows)),
        lane_names(all_placed(Seq::empty(), rows)) == names_of(rows),
    decreases rows.len(),
{
    let none: Seq<LaneImplView> = Seq::empty();
    let lanes = all_placed(none, rows);
    if rows.len() > 0 {
        let rest = rows.drop_last();
        assert forall|i: int, j: int| 0 <= i < j < names_of(rest).len() implies precedes(
            #[trigger] names_of(rest)[i],
            #[trigger] names_of(rest)[j],
        ) by {
            assert(names_of(rest)[i] == names_of(rows)[i]);
            assert(names_of(rest)[j] == names_of(rows)[j]);
        }
        law_a_restart_reports_what_is_open(rest);
        let fewer = all_placed(none, rest);
        let lane = fresh_lane(rows.last().key, rows.last().value);
        if fewer.len() > 0 {
            let k: int = fewer.len() - 1;
            assert(lane_names(fewer)[k] == fewer.last().name);
            assert(names_of(rest)[k] == names_of(rows)[k]);
            assert(names_of(rows)[rows.len() - 1] == lane.name);
            assert(lane_names(fewer).len() == names_of(rest).len());
            assert(precedes(fewer.last().name, lane.name));
            crate::names::lemma_not_before_itself(lane.name);
        }
        assert(lanes =~= fewer.push(lane));
        assert(lanes.drop_last() =~= fewer);
        assert forall|i: int| 0 <= i < lanes.len() implies lane_names(lanes)[i] == names_of(
            rows,
        )[i] by {
            if i < fewer.len() {
                assert(lane_names(fewer)[i] == names_of(rest)[i]);
            }
        }
        assert(lane_names(fewer).len() == names_of(rest).len());
        assert(lane_names(lanes) =~= names_of(rows));
    } else {
        assert(lane_names(lanes) =~= names_of(rows));
    }
}

/// A lane that is attached is in step with storage once its writes are stored. A
/// lane that begins at an entry without a branch is left out: its tip is not
/// stored.
pub proof fn law_an_attached_lane_is_in_step(
    store: Map<AddressView, DurableValueView>,
    seed: LaneConfigurationView,
    name: Seq<char>,
    stored: ClassifiedLaneStorageView,
    meta: Option<OperationMetaView>,
    state: Option<OperationStateView>,
    create_at: Option<Seq<char>>,
    target_known: bool,
)
    requires
        stored matches ClassifiedLaneStorageView::Lane { tip, configuration, lane_state } ==> (
        holds(store, AddressView::BranchTip { lane: name }, DurableValueView::Tip(tip)) && holds(
            store,
            AddressView::LaneConfig { lane: name },
            DurableValueView::Configuration(configuration),
        ) && holds(
            store,
            AddressView::LaneState { lane: name },
            DurableValueView::Lane(lane_state),
        ) && meta == crate::durable::stored_meta(store, lane_state.current_operation_id) && state
            == crate::durable::stored_state(store, lane_state.current_operation_id)),
        stored matches ClassifiedLaneStorageView::Branch { tip } ==> holds(
            store,
            AddressView::BranchTip { lane: name },
            DurableValueView::Tip(tip),
        ),
        stored is Absent ==> create_at is None,
        attached(seed, name, stored, meta, state, create_at, target_known) is Ok,
    ensures
        in_step(
            committed(
                store,
                attached(seed, name, stored, meta, state, create_at, target_known)->Ok_0.writes,
            ),
            name,
            attached(seed, name, stored, meta, state, create_at, target_known)->Ok_0.state,
        ),
{
    let lane = attached(seed, name, stored, meta, state, create_at, target_known)->Ok_0;
    let writes = lane.writes;
    reveal_with_fuel(committed, 4);
    match stored {
        ClassifiedLaneStorageView::Lane { tip, configuration, lane_state } => {
            assert(committed(store, writes) == store);
        },
        ClassifiedLaneStorageView::Branch { tip } => {
            assert(writes.drop_last().drop_last() =~= Seq::empty());
            assert(writes.drop_last().last() == writes[0]);
        },
        ClassifiedLaneStorageView::Absent => {
            assert(writes.drop_last().drop_last().drop_last() =~= Seq::empty());
            assert(writes.drop_last().drop_last().last() == writes[0]);
            assert(writes.drop_last().last() == writes[1]);
        },
    }
}

} // verus!
