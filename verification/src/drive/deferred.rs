//! Polling a response that a provider delivers later.

use crate::command::{OperationCommand, OperationCommandView};
use crate::drive::generation::lemma_bare_move_keeps_step;
use crate::drive::response::{deferred_handle_is_valid, poll_turn, poll_turn_id, pollable};
use crate::drive::structural_run::{undeferred, without_deferral};
use crate::durable::{in_step, spares};
use crate::lane::settle::{keeps_step, settled};
use crate::model::event::{HarnessEvent, HarnessEventView, PlannedEvent, PlannedEventView};
use crate::model::message::{
    AgentMessage, AgentMessageView, DeferredHandle, DeferredHandleView, StopReason,
};
use crate::model::session::{
    DeferredScope, DeferredScopeView, ErrorDetailsView, LaneConfiguration, LaneConfigurationView,
    ModelIdentity, OperationError, OperationErrorView, OperationState, OperationStateView,
    StreamOptions,
};
use crate::model::storage::{
    Address, AddressView, DurableValueView, Entry, EntryView, Write, WriteView,
};
use crate::state::deferred_scope;
use crate::text::join;
use crate::types::{DriveOutcome, DriveOutcomeView, LaneRuntimeStateView};
use vstd::prelude::*;

verus! {

/// The handle of the response that a run waits for: it must be the one with
/// which the provider answered, and fit the configuration.
pub open spec fn source_handle(
    source: Option<EntryView>,
    source_entry_id: Seq<char>,
    configuration: LaneConfigurationView,
) -> Result<DeferredHandleView, Seq<char>> {
    let named = "Deferred source "@ + source_entry_id;
    match source {
        Some(EntryView::Message(entry)) => match entry.message {
            AgentMessageView::Assistant(assistant) => match assistant.deferred {
                Some(handle) if assistant.stop_reason == StopReason::Deferred => if pollable(
                    assistant,
                    configuration,
                ) {
                    Ok(handle)
                } else {
                    Err(named + " has an invalid handle"@)
                },
                _ => Err(named + " is missing its assistant handle"@),
            },
            _ => Err(named + " is missing its assistant handle"@),
        },
        _ => Err(named + " is missing its assistant handle"@),
    }
}

/// Reads the handle of the response that a run waits for from the entry fetched
/// for it.
pub fn read_deferred_source_handle(
    source: Option<&Entry>,
    source_entry_id: &String,
    configuration: &LaneConfiguration,
) -> (r: Result<DeferredHandle, String>)
    ensures
        match source_handle(source.deep_view(), source_entry_id@, configuration.deep_view()) {
            Ok(handle) => r is Ok && r->Ok_0.deep_view() == handle,
            Err(message) => r is Err && r->Err_0@ == message,
        },
{
    let named = join("Deferred source ".to_string(), source_entry_id.as_str());
    match source {
        Some(Entry::Message(entry)) => match &entry.message {
            AgentMessage::Assistant(assistant) => match &assistant.deferred {
                Some(handle) => {
                    if assistant.stop_reason != StopReason::Deferred {
                        return Err(join(named, " is missing its assistant handle"));
                    }
                    if deferred_handle_is_valid(assistant, configuration) {
                        Ok(handle.clone())
                    } else {
                        Err(join(named, " has an invalid handle"))
                    }
                },
                None => Err(join(named, " is missing its assistant handle")),
            },
            _ => Err(join(named, " is missing its assistant handle")),
        },
        _ => Err(join(named, " is missing its assistant handle")),
    }
}

/// Tells whether a drive takes up a poll that was interrupted, rather than making
/// the next one.
pub fn recovers_poll(deferred: &OperationState) -> (r: bool)
    ensures
        r == !(deferred.deep_view() is DeferredSuspended),
{
    match deferred {
        OperationState::DeferredSuspended { .. } => false,
        _ => true,
    }
}

/// What a drive does about a response that is delivered later.
#[derive(Clone, Copy, Debug, PartialEq, Eq, Structural)]
pub enum PollGate {
    /// The drive has no permit to poll, and rests.
    Wait,
    /// The model is not there.
    ConfigurationFailure,
    /// The drive polls, for the time of this number.
    Poll { poll: u64 },
}

/// The number of the next poll. A poll that was interrupted is made again.
pub open spec fn next_poll(expected: OperationStateView) -> int {
    match expected {
        OperationStateView::DeferredSuspended { scope } => scope.poll + 1,
        OperationStateView::DeferredEffectPending { scope, .. } => scope.poll as int,
        _ => 0,
    }
}

/// Decides what a drive does about a response that is delivered later.
pub fn prepare_deferred_poll(expected: &OperationState, permits: usize, model_available: bool) -> (r:
    PollGate)
    requires
        expected.deep_view().is_deferred(),
        permits > 0 && model_available ==> next_poll(expected.deep_view()) <= u64::MAX,
    ensures
        permits == 0 ==> r == PollGate::Wait,
        permits > 0 && !model_available ==> r == PollGate::ConfigurationFailure,
        permits > 0 && model_available ==> r == (PollGate::Poll {
            poll: next_poll(expected.deep_view()) as u64,
        }),
{
    if permits == 0 {
        return PollGate::Wait;
    }
    if !model_available {
        return PollGate::ConfigurationFailure;
    }
    match expected {
        OperationState::DeferredSuspended { scope } => PollGate::Poll { poll: scope.poll + 1 },
        OperationState::DeferredEffectPending { scope, .. } => PollGate::Poll { poll: scope.poll },
        _ => vstd::pervasive::unreached(),
    }
}

/// The options of a poll, which is itself answered at once.
pub fn poll_options(expected: &OperationState) -> (r: StreamOptions)
    requires
        expected.deep_view().is_deferred(),
    ensures
        expected.deep_view().deferred_scope() matches Some(scope) && r.deep_view() == undeferred(
            scope.stream_options,
        ),
{
    match deferred_scope(expected) {
        Some(scope) => without_deferral(&scope.stream_options),
        None => vstd::pervasive::unreached(),
    }
}

/// The rest of a drive that waits for a deferred response.
pub fn waiting_deferred(operation_id: &String, source: DeferredHandle) -> (r: DriveOutcome)
    ensures
        r.deep_view() == (DriveOutcomeView::WaitingDeferred {
            operation_id: operation_id@,
            deferred: source.deep_view(),
        }),
{
    DriveOutcome::WaitingDeferred { operation_id: operation_id.clone(), deferred: source }
}

/// The error of a poll whose model this process does not have.
pub fn configuration_error(identity: &ModelIdentity) -> (r: OperationError)
    ensures
        r.deep_view() == (OperationErrorView {
            code: "model_unavailable"@,
            message: "The configured model is unavailable in this process"@,
            details: Some(ErrorDetailsView::Model(identity.deep_view())),
        }),
{
    crate::drive::structural_run::model_unavailable(identity)
}

/// The leaf of a poll that is under way.
pub open spec fn poll_pending(
    scope: DeferredScopeView,
    now: DeferredScopeView,
    poll: u64,
    response_entry_id: Seq<char>,
    usage_id: Seq<char>,
) -> OperationStateView {
    OperationStateView::DeferredEffectPending {
        scope: DeferredScopeView {
            control: now.control,
            settings: now.settings,
            latest_assistant_entry_id: now.latest_assistant_entry_id,
            poll,
            ..scope
        },
        response_entry_id,
        usage_id,
    }
}

fn pending_poll(
    scope: &DeferredScope,
    now: &DeferredScope,
    poll: u64,
    response_entry_id: String,
    usage_id: String,
) -> (r: OperationState)
    ensures
        r.deep_view() == poll_pending(
            scope.deep_view(),
            now.deep_view(),
            poll,
            response_entry_id@,
            usage_id@,
        ),
{
    OperationState::DeferredEffectPending {
        scope: DeferredScope {
            control: now.control,
            settings: now.settings,
            latest_assistant_entry_id: now.latest_assistant_entry_id.clone(),
            step_id: scope.step_id.clone(),
            source_entry_id: scope.source_entry_id.clone(),
            poll,
            configuration: scope.configuration.clone(),
            stream_options: scope.stream_options.clone(),
        },
        response_entry_id,
        usage_id,
    }
}

/// The writes that drop the frames of a poll that was interrupted.
pub open spec fn frames_dropped(operation_id: Seq<char>, deferred: OperationStateView) -> Seq<
    WriteView,
> {
    match deferred {
        OperationStateView::DeferredEffectPending { response_entry_id, .. } => seq![
            WriteView::DeleteList {
                address: AddressView::PendingAssistantFrames { operation_id, response_entry_id },
            },
        ],
        _ => Seq::empty(),
    }
}

fn drop_frames(operation_id: &String, deferred: &OperationState) -> (r: Vec<Write>)
    ensures
        r.deep_view() == frames_dropped(operation_id@, deferred.deep_view()),
{
    let writes = match deferred {
        OperationState::DeferredEffectPending { response_entry_id, .. } => vec![
            Write::DeleteList {
                address: Address::PendingAssistantFrames {
                    operation_id: operation_id.clone(),
                    response_entry_id: response_entry_id.clone(),
                },
            },
        ],
        _ => Vec::new(),
    };
    assert(writes.deep_view() =~= frames_dropped(operation_id@, deferred.deep_view()));
    writes
}

/// The events of a poll that starts.
pub open spec fn poll_events(
    lane: Seq<char>,
    operation_id: Seq<char>,
    step_id: Seq<char>,
    poll: u64,
    recovery: bool,
) -> Seq<PlannedEventView> {
    seq![
        PlannedEventView::Ready(
            HarnessEventView::RunResume { lane, run_id: operation_id, recovery: Some(recovery) },
        ),
        PlannedEventView::Ready(
            HarnessEventView::TurnStart {
                lane,
                run_id: operation_id,
                turn_id: poll_turn(step_id, poll),
                recovery: Some(recovery),
            },
        ),
    ]
}

fn plan_poll_events(
    lane_name: &String,
    operation_id: &String,
    step_id: &String,
    poll: u64,
    recovery: bool,
) -> (r: Vec<PlannedEvent>)
    ensures
        r.deep_view() == poll_events(lane_name@, operation_id@, step_id@, poll, recovery),
{
    let events = vec![
        PlannedEvent::Ready(
            HarnessEvent::RunResume {
                lane: lane_name.clone(),
                run_id: operation_id.clone(),
                recovery: Some(recovery),
            },
        ),
        PlannedEvent::Ready(
            HarnessEvent::TurnStart {
                lane: lane_name.clone(),
                run_id: operation_id.clone(),
                turn_id: poll_turn_id(step_id, poll),
                recovery: Some(recovery),
            },
        ),
    ];
    assert(events.deep_view() =~= poll_events(
        lane_name@,
        operation_id@,
        step_id@,
        poll,
        recovery,
    ));
    events
}

/// The commit that records that a poll is under way.
pub open spec fn poll_intent(
    lane: Seq<char>,
    operation_id: Seq<char>,
    deferred: OperationStateView,
    current: OperationStateView,
    poll: u64,
    response_entry_id: Seq<char>,
    usage_id: Seq<char>,
    recovery: bool,
) -> OperationCommandView<OperationStateView> {
    let scope = deferred.deferred_scope()->Some_0;
    let next = poll_pending(
        scope,
        current.deferred_scope()->Some_0,
        poll,
        response_entry_id,
        usage_id,
    );
    OperationCommandView::Commit {
        writes: frames_dropped(operation_id, deferred),
        operation_state: next,
        lane: None,
        result: next,
        events: poll_events(lane, operation_id, scope.step_id, poll, recovery),
    }
}

/// Records that a poll is under way.
pub fn publish_poll_intent(
    lane_name: &String,
    operation_id: &String,
    deferred: &OperationState,
    current: &OperationState,
    poll: u64,
    response_entry_id: String,
    usage_id: String,
    recovery: bool,
) -> (r: OperationCommand<OperationState>)
    requires
        deferred.deep_view().is_deferred(),
        current.deep_view().is_deferred(),
    ensures
        r.deep_view() == poll_intent(
            lane_name@,
            operation_id@,
            deferred.deep_view(),
            current.deep_view(),
            poll,
            response_entry_id@,
            usage_id@,
            recovery,
        ),
{
    let scope = match deferred_scope(deferred) {
        Some(scope) => scope,
        None => vstd::pervasive::unreached(),
    };
    let now = match deferred_scope(current) {
        Some(scope) => scope,
        None => vstd::pervasive::unreached(),
    };
    let next = pending_poll(scope, now, poll, response_entry_id, usage_id);
    OperationCommand::Commit {
        writes: drop_frames(operation_id, deferred),
        operation_state: next.clone(),
        lane: None,
        result: next,
        events: plan_poll_events(lane_name, operation_id, &scope.step_id, poll, recovery),
    }
}

/// A poll keeps the lane in step with storage.
pub proof fn law_polling_keeps_step(
    store: Map<AddressView, DurableValueView>,
    lane: Seq<char>,
    state: LaneRuntimeStateView,
    deferred: OperationStateView,
    poll: u64,
    response_entry_id: Seq<char>,
    usage_id: Seq<char>,
    recovery: bool,
)
    requires
        in_step(store, lane, state),
        state.operation matches Some(operation) && operation.meta.intent is Run
            && operation.state.is_deferred(),
        deferred.is_deferred(),
    ensures
        keeps_step(
            store,
            lane,
            settled(
                lane,
                state,
                poll_intent(
                    lane,
                    state.operation->Some_0.meta.operation_id,
                    deferred,
                    state.operation->Some_0.state,
                    poll,
                    response_entry_id,
                    usage_id,
                    recovery,
                ),
            ),
        ),
{
    let operation = state.operation->Some_0;
    let command = poll_intent(
        lane,
        operation.meta.operation_id,
        deferred,
        operation.state,
        poll,
        response_entry_id,
        usage_id,
        recovery,
    );
    if let OperationCommandView::Commit { writes, .. } = command {
        assert(forall|address: AddressView| #[trigger] spares(writes, address));
    }
    lemma_bare_move_keeps_step(store, lane, state, command);
}

/// A poll asks for the response that the run was suspended for, whatever was
/// polled since: the source, the configuration and the options stay.
pub proof fn law_polls_keep_their_source(
    lane: Seq<char>,
    operation_id: Seq<char>,
    deferred: OperationStateView,
    current: OperationStateView,
    poll: u64,
    response_entry_id: Seq<char>,
    usage_id: Seq<char>,
    recovery: bool,
)
    requires
        deferred.is_deferred(),
        current.is_deferred(),
    ensures
        poll_intent(
            lane,
            operation_id,
            deferred,
            current,
            poll,
            response_entry_id,
            usage_id,
            recovery,
        ) matches OperationCommandView::Commit { operation_state, .. } && (
        operation_state.deferred_scope() matches Some(scope) && scope.source_entry_id
            == deferred.deferred_scope()->Some_0.source_entry_id && scope.configuration
            == deferred.deferred_scope()->Some_0.configuration && scope.stream_options
            == deferred.deferred_scope()->Some_0.stream_options && scope.poll == poll),
{
}

} // verus!
