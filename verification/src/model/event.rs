//! Events of a harness and the snapshots that follow them.

use crate::json::Json;
use crate::model::message::{
    AgentMessage, AgentMessageView, AgentToolResult, AgentToolResultView, AssistantMessage,
    AssistantMessageView, DeferredHandle, DeferredHandleView, ToolResultMessage,
    ToolResultMessageView, Usage, UsageView,
};
use crate::model::session::{
    CompactionSettings, InboxItemKind, LaneConfiguration, LaneConfigurationView, ModelIdentity,
    ModelIdentityView, OperationError, OperationErrorView, OperationResultRecord,
    OperationResultRecordView, QueueMode, StreamOptions, StreamOptionsView, TerminalStatus,
    ThinkingLevel,
};
use crate::model::storage::{
    Entry, EntryView, NewEntry, NewEntryView, SessionStats, SessionStatsView, UsageRow,
    UsageRowView,
};
use vstd::prelude::*;

verus! {

/// Retry settings of a harness.
#[derive(Clone, Copy, Debug, PartialEq, Eq, Structural)]
pub struct RetryPolicy {
    pub enabled: bool,
    pub max_retries: u64,
    pub base_delay_ms: u64,
    pub max_agent_delay_ms: Option<u64>,
}

impl DeepView for RetryPolicy {
    type V = RetryPolicy;

    open spec fn deep_view(&self) -> RetryPolicy {
        *self
    }
}

/// A queued entry with its payload.
#[derive(Debug, PartialEq, Eq)]
pub enum LaneQueuedItem {
    Message {
        entry_id: String,
        kind: InboxItemKind,
        message: AgentMessage,
    },
    Custom {
        entry_id: String,
        kind: InboxItemKind,
        custom_type: String,
        data: Option<Json>,
    },
}

/// Contents of [`LaneQueuedItem`].
pub enum LaneQueuedItemView {
    Message {
        entry_id: Seq<char>,
        kind: InboxItemKind,
        message: AgentMessageView,
    },
    Custom {
        entry_id: Seq<char>,
        kind: InboxItemKind,
        custom_type: Seq<char>,
        data: Option<serde_json::Value>,
    },
}

impl DeepView for LaneQueuedItem {
    type V = LaneQueuedItemView;

    open spec fn deep_view(&self) -> LaneQueuedItemView {
        match self {
            LaneQueuedItem::Message { entry_id, kind, message } => LaneQueuedItemView::Message {
                entry_id: entry_id.deep_view(),
                kind: kind.deep_view(),
                message: message.deep_view(),
            },
            LaneQueuedItem::Custom {
                entry_id,
                kind,
                custom_type,
                data,
            } => LaneQueuedItemView::Custom {
                entry_id: entry_id.deep_view(),
                kind: kind.deep_view(),
                custom_type: custom_type.deep_view(),
                data: data.deep_view(),
            },
        }
    }
}

impl Clone for LaneQueuedItem {
    fn clone(&self) -> (r: Self)
        ensures
            r.deep_view() == self.deep_view(),
    {
        match self {
            LaneQueuedItem::Message { entry_id, kind, message } => LaneQueuedItem::Message {
                entry_id: entry_id.clone(),
                kind: *kind,
                message: message.clone(),
            },
            LaneQueuedItem::Custom { entry_id, kind, custom_type, data } => LaneQueuedItem::Custom {
                entry_id: entry_id.clone(),
                kind: *kind,
                custom_type: custom_type.clone(),
                data: data.clone(),
            },
        }
    }
}

/// Which configuration changed.
#[allow(inconsistent_fields)]
#[derive(Debug, PartialEq, Eq)]
pub enum ConfigUpdatePayload {
    Model {
        value: ModelIdentity,
        previous: ModelIdentity,
    },
    ThinkingLevel {
        value: ThinkingLevel,
        previous: ThinkingLevel,
    },
    ActiveTools {
        value: Vec<String>,
        previous: Vec<String>,
    },
    Tools,
    Resources,
    StreamOptions {
        value: StreamOptions,
        previous: StreamOptions,
    },
    RetryPolicy {
        value: RetryPolicy,
        previous: RetryPolicy,
    },
    CompactionSettings {
        value: CompactionSettings,
        previous: CompactionSettings,
    },
    SteeringMode {
        value: QueueMode,
        previous: QueueMode,
    },
    FollowUpMode {
        value: QueueMode,
        previous: QueueMode,
    },
}

/// Contents of [`ConfigUpdatePayload`].
#[allow(inconsistent_fields)]
pub enum ConfigUpdatePayloadView {
    Model {
        value: ModelIdentityView,
        previous: ModelIdentityView,
    },
    ThinkingLevel {
        value: ThinkingLevel,
        previous: ThinkingLevel,
    },
    ActiveTools {
        value: Seq<Seq<char>>,
        previous: Seq<Seq<char>>,
    },
    Tools,
    Resources,
    StreamOptions {
        value: StreamOptionsView,
        previous: StreamOptionsView,
    },
    RetryPolicy {
        value: RetryPolicy,
        previous: RetryPolicy,
    },
    CompactionSettings {
        value: CompactionSettings,
        previous: CompactionSettings,
    },
    SteeringMode {
        value: QueueMode,
        previous: QueueMode,
    },
    FollowUpMode {
        value: QueueMode,
        previous: QueueMode,
    },
}

impl DeepView for ConfigUpdatePayload {
    type V = ConfigUpdatePayloadView;

    open spec fn deep_view(&self) -> ConfigUpdatePayloadView {
        match self {
            ConfigUpdatePayload::Model { value, previous } => ConfigUpdatePayloadView::Model {
                value: value.deep_view(),
                previous: previous.deep_view(),
            },
            ConfigUpdatePayload::ThinkingLevel {
                value,
                previous,
            } => ConfigUpdatePayloadView::ThinkingLevel {
                value: value.deep_view(),
                previous: previous.deep_view(),
            },
            ConfigUpdatePayload::ActiveTools {
                value,
                previous,
            } => ConfigUpdatePayloadView::ActiveTools {
                value: value.deep_view(),
                previous: previous.deep_view(),
            },
            ConfigUpdatePayload::Tools => ConfigUpdatePayloadView::Tools,
            ConfigUpdatePayload::Resources => ConfigUpdatePayloadView::Resources,
            ConfigUpdatePayload::StreamOptions {
                value,
                previous,
            } => ConfigUpdatePayloadView::StreamOptions {
                value: value.deep_view(),
                previous: previous.deep_view(),
            },
            ConfigUpdatePayload::RetryPolicy {
                value,
                previous,
            } => ConfigUpdatePayloadView::RetryPolicy {
                value: value.deep_view(),
                previous: previous.deep_view(),
            },
            ConfigUpdatePayload::CompactionSettings {
                value,
                previous,
            } => ConfigUpdatePayloadView::CompactionSettings {
                value: value.deep_view(),
                previous: previous.deep_view(),
            },
            ConfigUpdatePayload::SteeringMode {
                value,
                previous,
            } => ConfigUpdatePayloadView::SteeringMode {
                value: value.deep_view(),
                previous: previous.deep_view(),
            },
            ConfigUpdatePayload::FollowUpMode {
                value,
                previous,
            } => ConfigUpdatePayloadView::FollowUpMode {
                value: value.deep_view(),
                previous: previous.deep_view(),
            },
        }
    }
}

impl Clone for ConfigUpdatePayload {
    fn clone(&self) -> (r: Self)
        ensures
            r.deep_view() == self.deep_view(),
    {
        match self {
            ConfigUpdatePayload::Model { value, previous } => ConfigUpdatePayload::Model {
                value: value.clone(),
                previous: previous.clone(),
            },
            ConfigUpdatePayload::ThinkingLevel {
                value,
                previous,
            } => ConfigUpdatePayload::ThinkingLevel {
                value: *value,
                previous: *previous,
            },
            ConfigUpdatePayload::ActiveTools {
                value,
                previous,
            } => ConfigUpdatePayload::ActiveTools {
                value: value.clone(),
                previous: previous.clone(),
            },
            ConfigUpdatePayload::Tools => ConfigUpdatePayload::Tools,
            ConfigUpdatePayload::Resources => ConfigUpdatePayload::Resources,
            ConfigUpdatePayload::StreamOptions {
                value,
                previous,
            } => ConfigUpdatePayload::StreamOptions {
                value: value.clone(),
                previous: previous.clone(),
            },
            ConfigUpdatePayload::RetryPolicy {
                value,
                previous,
            } => ConfigUpdatePayload::RetryPolicy {
                value: *value,
                previous: *previous,
            },
            ConfigUpdatePayload::CompactionSettings {
                value,
                previous,
            } => ConfigUpdatePayload::CompactionSettings {
                value: *value,
                previous: *previous,
            },
            ConfigUpdatePayload::SteeringMode {
                value,
                previous,
            } => ConfigUpdatePayload::SteeringMode {
                value: *value,
                previous: *previous,
            },
            ConfigUpdatePayload::FollowUpMode {
                value,
                previous,
            } => ConfigUpdatePayload::FollowUpMode {
                value: *value,
                previous: *previous,
            },
        }
    }
}

/// Which session value changed.
#[derive(Debug, PartialEq, Eq)]
pub enum ValueUpdatePayload {
    SessionName {
        name: Option<String>,
    },
    EntryLabel {
        target_id: String,
        label: Option<String>,
    },
}

/// Contents of [`ValueUpdatePayload`].
pub enum ValueUpdatePayloadView {
    SessionName {
        name: Option<Seq<char>>,
    },
    EntryLabel {
        target_id: Seq<char>,
        label: Option<Seq<char>>,
    },
}

impl DeepView for ValueUpdatePayload {
    type V = ValueUpdatePayloadView;

    open spec fn deep_view(&self) -> ValueUpdatePayloadView {
        match self {
            ValueUpdatePayload::SessionName { name } => ValueUpdatePayloadView::SessionName {
                name: name.deep_view(),
            },
            ValueUpdatePayload::EntryLabel {
                target_id,
                label,
            } => ValueUpdatePayloadView::EntryLabel {
                target_id: target_id.deep_view(),
                label: label.deep_view(),
            },
        }
    }
}

impl Clone for ValueUpdatePayload {
    fn clone(&self) -> (r: Self)
        ensures
            r.deep_view() == self.deep_view(),
    {
        match self {
            ValueUpdatePayload::SessionName { name } => ValueUpdatePayload::SessionName {
                name: name.clone(),
            },
            ValueUpdatePayload::EntryLabel { target_id, label } => ValueUpdatePayload::EntryLabel {
                target_id: target_id.clone(),
                label: label.clone(),
            },
        }
    }
}

/// What a harness tells its observers.
#[allow(inconsistent_fields)]
#[derive(Debug, PartialEq, Eq)]
pub enum HarnessEvent {
    RunStart {
        lane: String,
        run_id: String,
        started_at: u64,
        recovery: Option<bool>,
    },
    CompactionStart {
        lane: String,
        run_id: String,
        reason: String,
        started_at: u64,
        recovery: Option<bool>,
    },
    NavigationStart {
        lane: String,
        run_id: String,
        target_id: Option<String>,
        started_at: u64,
        recovery: Option<bool>,
    },
    OperationAbort {
        lane: String,
        operation_id: String,
        steer: Vec<AgentMessage>,
        follow_up: Vec<AgentMessage>,
        recovery: Option<bool>,
    },
    RunResume {
        lane: String,
        run_id: String,
        recovery: Option<bool>,
    },
    RunSuspend {
        lane: String,
        run_id: String,
        deferred: DeferredHandle,
        poll: u64,
        recovery: Option<bool>,
    },
    RetryScheduled {
        lane: String,
        run_id: String,
        attempt: u32,
        max_attempts: u32,
        not_before: u64,
        recovery: Option<bool>,
    },
    RetryStart {
        lane: String,
        run_id: String,
        step: String,
        attempt: u32,
        recovery: Option<bool>,
    },
    RetryEnd {
        lane: String,
        run_id: String,
        recovery: Option<bool>,
    },
    MessageStart {
        lane: String,
        run_id: Option<String>,
        message: AgentMessage,
        recovery: Option<bool>,
    },
    MessageUpdate {
        lane: String,
        run_id: String,
        message: AgentMessage,
        event: Json,
        frame: Option<Json>,
        recovery: Option<bool>,
    },
    MessageEnd {
        lane: String,
        run_id: Option<String>,
        message: AgentMessage,
        entry_id: Option<String>,
        recovery: Option<bool>,
    },
    ToolStart {
        lane: String,
        run_id: String,
        turn_id: String,
        tool_call_id: String,
        tool_name: String,
        args: Json,
        recovery: Option<bool>,
    },
    ToolUpdate {
        lane: String,
        run_id: String,
        turn_id: String,
        tool_call_id: String,
        tool_name: String,
        partial_result: AgentToolResult,
        recovery: Option<bool>,
    },
    ToolEnd {
        lane: String,
        run_id: String,
        turn_id: String,
        tool_call_id: String,
        tool_name: String,
        result: AgentToolResult,
        is_error: bool,
        terminate: bool,
        recovery: Option<bool>,
    },
    EntryAdded {
        lane: String,
        entry: Entry,
        recovery: Option<bool>,
    },
    QueueUpdate {
        lane: String,
        queues: Vec<LaneQueuedItem>,
        recovery: Option<bool>,
    },
    Usage {
        lane: String,
        row: UsageRow,
        totals: Usage,
    },
    ConfigUpdate {
        lane: Option<String>,
        payload: ConfigUpdatePayload,
        recovery: Option<bool>,
    },
    RunEnd {
        lane: String,
        run_id: String,
        from_tip_id: Option<String>,
        tip_id: Option<String>,
        ended_at: u64,
        status: TerminalStatus,
        error: Option<OperationError>,
        recovery: Option<bool>,
    },
    CompactionEnd {
        lane: String,
        run_id: String,
        reason: String,
        ended_at: u64,
        status: TerminalStatus,
        entry_id: Option<String>,
        error: Option<OperationError>,
        recovery: Option<bool>,
    },
    NavigationEnd {
        lane: String,
        run_id: String,
        from_tip_id: Option<String>,
        tip_id: Option<String>,
        ended_at: u64,
        status: TerminalStatus,
        error: Option<OperationError>,
        recovery: Option<bool>,
    },
    Fault {
        lane: Option<String>,
        message: String,
    },
    HandlerError {
        lane: Option<String>,
        message: String,
    },
    TurnStart {
        lane: String,
        run_id: String,
        turn_id: String,
        recovery: Option<bool>,
    },
    TurnEnd {
        lane: String,
        run_id: String,
        turn_id: String,
        message: AssistantMessage,
        tool_results: Vec<ToolResultMessage>,
        recovery: Option<bool>,
    },
    ValueUpdate {
        payload: ValueUpdatePayload,
    },
    LaneCreated {
        lane: String,
        at: Option<String>,
        recovery: Option<bool>,
    },
}

/// Contents of [`HarnessEvent`].
#[allow(inconsistent_fields)]
pub enum HarnessEventView {
    RunStart {
        lane: Seq<char>,
        run_id: Seq<char>,
        started_at: u64,
        recovery: Option<bool>,
    },
    CompactionStart {
        lane: Seq<char>,
        run_id: Seq<char>,
        reason: Seq<char>,
        started_at: u64,
        recovery: Option<bool>,
    },
    NavigationStart {
        lane: Seq<char>,
        run_id: Seq<char>,
        target_id: Option<Seq<char>>,
        started_at: u64,
        recovery: Option<bool>,
    },
    OperationAbort {
        lane: Seq<char>,
        operation_id: Seq<char>,
        steer: Seq<AgentMessageView>,
        follow_up: Seq<AgentMessageView>,
        recovery: Option<bool>,
    },
    RunResume {
        lane: Seq<char>,
        run_id: Seq<char>,
        recovery: Option<bool>,
    },
    RunSuspend {
        lane: Seq<char>,
        run_id: Seq<char>,
        deferred: DeferredHandleView,
        poll: u64,
        recovery: Option<bool>,
    },
    RetryScheduled {
        lane: Seq<char>,
        run_id: Seq<char>,
        attempt: u32,
        max_attempts: u32,
        not_before: u64,
        recovery: Option<bool>,
    },
    RetryStart {
        lane: Seq<char>,
        run_id: Seq<char>,
        step: Seq<char>,
        attempt: u32,
        recovery: Option<bool>,
    },
    RetryEnd {
        lane: Seq<char>,
        run_id: Seq<char>,
        recovery: Option<bool>,
    },
    MessageStart {
        lane: Seq<char>,
        run_id: Option<Seq<char>>,
        message: AgentMessageView,
        recovery: Option<bool>,
    },
    MessageUpdate {
        lane: Seq<char>,
        run_id: Seq<char>,
        message: AgentMessageView,
        event: serde_json::Value,
        frame: Option<serde_json::Value>,
        recovery: Option<bool>,
    },
    MessageEnd {
        lane: Seq<char>,
        run_id: Option<Seq<char>>,
        message: AgentMessageView,
        entry_id: Option<Seq<char>>,
        recovery: Option<bool>,
    },
    ToolStart {
        lane: Seq<char>,
        run_id: Seq<char>,
        turn_id: Seq<char>,
        tool_call_id: Seq<char>,
        tool_name: Seq<char>,
        args: serde_json::Value,
        recovery: Option<bool>,
    },
    ToolUpdate {
        lane: Seq<char>,
        run_id: Seq<char>,
        turn_id: Seq<char>,
        tool_call_id: Seq<char>,
        tool_name: Seq<char>,
        partial_result: AgentToolResultView,
        recovery: Option<bool>,
    },
    ToolEnd {
        lane: Seq<char>,
        run_id: Seq<char>,
        turn_id: Seq<char>,
        tool_call_id: Seq<char>,
        tool_name: Seq<char>,
        result: AgentToolResultView,
        is_error: bool,
        terminate: bool,
        recovery: Option<bool>,
    },
    EntryAdded {
        lane: Seq<char>,
        entry: EntryView,
        recovery: Option<bool>,
    },
    QueueUpdate {
        lane: Seq<char>,
        queues: Seq<LaneQueuedItemView>,
        recovery: Option<bool>,
    },
    Usage {
        lane: Seq<char>,
        row: UsageRowView,
        totals: UsageView,
    },
    ConfigUpdate {
        lane: Option<Seq<char>>,
        payload: ConfigUpdatePayloadView,
        recovery: Option<bool>,
    },
    RunEnd {
        lane: Seq<char>,
        run_id: Seq<char>,
        from_tip_id: Option<Seq<char>>,
        tip_id: Option<Seq<char>>,
        ended_at: u64,
        status: TerminalStatus,
        error: Option<OperationErrorView>,
        recovery: Option<bool>,
    },
    CompactionEnd {
        lane: Seq<char>,
        run_id: Seq<char>,
        reason: Seq<char>,
        ended_at: u64,
        status: TerminalStatus,
        entry_id: Option<Seq<char>>,
        error: Option<OperationErrorView>,
        recovery: Option<bool>,
    },
    NavigationEnd {
        lane: Seq<char>,
        run_id: Seq<char>,
        from_tip_id: Option<Seq<char>>,
        tip_id: Option<Seq<char>>,
        ended_at: u64,
        status: TerminalStatus,
        error: Option<OperationErrorView>,
        recovery: Option<bool>,
    },
    Fault {
        lane: Option<Seq<char>>,
        message: Seq<char>,
    },
    HandlerError {
        lane: Option<Seq<char>>,
        message: Seq<char>,
    },
    TurnStart {
        lane: Seq<char>,
        run_id: Seq<char>,
        turn_id: Seq<char>,
        recovery: Option<bool>,
    },
    TurnEnd {
        lane: Seq<char>,
        run_id: Seq<char>,
        turn_id: Seq<char>,
        message: AssistantMessageView,
        tool_results: Seq<ToolResultMessageView>,
        recovery: Option<bool>,
    },
    ValueUpdate {
        payload: ValueUpdatePayloadView,
    },
    LaneCreated {
        lane: Seq<char>,
        at: Option<Seq<char>>,
        recovery: Option<bool>,
    },
}

impl DeepView for HarnessEvent {
    type V = HarnessEventView;

    open spec fn deep_view(&self) -> HarnessEventView {
        match self {
            HarnessEvent::RunStart {
                lane,
                run_id,
                started_at,
                recovery,
            } => HarnessEventView::RunStart {
                lane: lane.deep_view(),
                run_id: run_id.deep_view(),
                started_at: started_at.deep_view(),
                recovery: recovery.deep_view(),
            },
            HarnessEvent::CompactionStart {
                lane,
                run_id,
                reason,
                started_at,
                recovery,
            } => HarnessEventView::CompactionStart {
                lane: lane.deep_view(),
                run_id: run_id.deep_view(),
                reason: reason.deep_view(),
                started_at: started_at.deep_view(),
                recovery: recovery.deep_view(),
            },
            HarnessEvent::NavigationStart {
                lane,
                run_id,
                target_id,
                started_at,
                recovery,
            } => HarnessEventView::NavigationStart {
                lane: lane.deep_view(),
                run_id: run_id.deep_view(),
                target_id: target_id.deep_view(),
                started_at: started_at.deep_view(),
                recovery: recovery.deep_view(),
            },
            HarnessEvent::OperationAbort {
                lane,
                operation_id,
                steer,
                follow_up,
                recovery,
            } => HarnessEventView::OperationAbort {
                lane: lane.deep_view(),
                operation_id: operation_id.deep_view(),
                steer: steer.deep_view(),
                follow_up: follow_up.deep_view(),
                recovery: recovery.deep_view(),
            },
            HarnessEvent::RunResume { lane, run_id, recovery } => HarnessEventView::RunResume {
                lane: lane.deep_view(),
                run_id: run_id.deep_view(),
                recovery: recovery.deep_view(),
            },
            HarnessEvent::RunSuspend {
                lane,
                run_id,
                deferred,
                poll,
                recovery,
            } => HarnessEventView::RunSuspend {
                lane: lane.deep_view(),
                run_id: run_id.deep_view(),
                deferred: deferred.deep_view(),
                poll: poll.deep_view(),
                recovery: recovery.deep_view(),
            },
            HarnessEvent::RetryScheduled {
                lane,
                run_id,
                attempt,
                max_attempts,
                not_before,
                recovery,
            } => HarnessEventView::RetryScheduled {
                lane: lane.deep_view(),
                run_id: run_id.deep_view(),
                attempt: attempt.deep_view(),
                max_attempts: max_attempts.deep_view(),
                not_before: not_before.deep_view(),
                recovery: recovery.deep_view(),
            },
            HarnessEvent::RetryStart {
                lane,
                run_id,
                step,
                attempt,
                recovery,
            } => HarnessEventView::RetryStart {
                lane: lane.deep_view(),
                run_id: run_id.deep_view(),
                step: step.deep_view(),
                attempt: attempt.deep_view(),
                recovery: recovery.deep_view(),
            },
            HarnessEvent::RetryEnd { lane, run_id, recovery } => HarnessEventView::RetryEnd {
                lane: lane.deep_view(),
                run_id: run_id.deep_view(),
                recovery: recovery.deep_view(),
            },
            HarnessEvent::MessageStart {
                lane,
                run_id,
                message,
                recovery,
            } => HarnessEventView::MessageStart {
                lane: lane.deep_view(),
                run_id: run_id.deep_view(),
                message: message.deep_view(),
                recovery: recovery.deep_view(),
            },
            HarnessEvent::MessageUpdate {
                lane,
                run_id,
                message,
                event,
                frame,
                recovery,
            } => HarnessEventView::MessageUpdate {
                lane: lane.deep_view(),
                run_id: run_id.deep_view(),
                message: message.deep_view(),
                event: event.deep_view(),
                frame: frame.deep_view(),
                recovery: recovery.deep_view(),
            },
            HarnessEvent::MessageEnd {
                lane,
                run_id,
                message,
                entry_id,
                recovery,
            } => HarnessEventView::MessageEnd {
                lane: lane.deep_view(),
                run_id: run_id.deep_view(),
                message: message.deep_view(),
                entry_id: entry_id.deep_view(),
                recovery: recovery.deep_view(),
            },
            HarnessEvent::ToolStart {
                lane,
                run_id,
                turn_id,
                tool_call_id,
                tool_name,
                args,
                recovery,
            } => HarnessEventView::ToolStart {
                lane: lane.deep_view(),
                run_id: run_id.deep_view(),
                turn_id: turn_id.deep_view(),
                tool_call_id: tool_call_id.deep_view(),
                tool_name: tool_name.deep_view(),
                args: args.deep_view(),
                recovery: recovery.deep_view(),
            },
            HarnessEvent::ToolUpdate {
                lane,
                run_id,
                turn_id,
                tool_call_id,
                tool_name,
                partial_result,
                recovery,
            } => HarnessEventView::ToolUpdate {
                lane: lane.deep_view(),
                run_id: run_id.deep_view(),
                turn_id: turn_id.deep_view(),
                tool_call_id: tool_call_id.deep_view(),
                tool_name: tool_name.deep_view(),
                partial_result: partial_result.deep_view(),
                recovery: recovery.deep_view(),
            },
            HarnessEvent::ToolEnd {
                lane,
                run_id,
                turn_id,
                tool_call_id,
                tool_name,
                result,
                is_error,
                terminate,
                recovery,
            } => HarnessEventView::ToolEnd {
                lane: lane.deep_view(),
                run_id: run_id.deep_view(),
                turn_id: turn_id.deep_view(),
                tool_call_id: tool_call_id.deep_view(),
                tool_name: tool_name.deep_view(),
                result: result.deep_view(),
                is_error: is_error.deep_view(),
                terminate: terminate.deep_view(),
                recovery: recovery.deep_view(),
            },
            HarnessEvent::EntryAdded { lane, entry, recovery } => HarnessEventView::EntryAdded {
                lane: lane.deep_view(),
                entry: entry.deep_view(),
                recovery: recovery.deep_view(),
            },
            HarnessEvent::QueueUpdate { lane, queues, recovery } => HarnessEventView::QueueUpdate {
                lane: lane.deep_view(),
                queues: queues.deep_view(),
                recovery: recovery.deep_view(),
            },
            HarnessEvent::Usage { lane, row, totals } => HarnessEventView::Usage {
                lane: lane.deep_view(),
                row: row.deep_view(),
                totals: totals.deep_view(),
            },
            HarnessEvent::ConfigUpdate {
                lane,
                payload,
                recovery,
            } => HarnessEventView::ConfigUpdate {
                lane: lane.deep_view(),
                payload: payload.deep_view(),
                recovery: recovery.deep_view(),
            },
            HarnessEvent::RunEnd {
                lane,
                run_id,
                from_tip_id,
                tip_id,
                ended_at,
                status,
                error,
                recovery,
            } => HarnessEventView::RunEnd {
                lane: lane.deep_view(),
                run_id: run_id.deep_view(),
                from_tip_id: from_tip_id.deep_view(),
                tip_id: tip_id.deep_view(),
                ended_at: ended_at.deep_view(),
                status: status.deep_view(),
                error: error.deep_view(),
                recovery: recovery.deep_view(),
            },
            HarnessEvent::CompactionEnd {
                lane,
                run_id,
                reason,
                ended_at,
                status,
                entry_id,
                error,
                recovery,
            } => HarnessEventView::CompactionEnd {
                lane: lane.deep_view(),
                run_id: run_id.deep_view(),
                reason: reason.deep_view(),
                ended_at: ended_at.deep_view(),
                status: status.deep_view(),
                entry_id: entry_id.deep_view(),
                error: error.deep_view(),
                recovery: recovery.deep_view(),
            },
            HarnessEvent::NavigationEnd {
                lane,
                run_id,
                from_tip_id,
                tip_id,
                ended_at,
                status,
                error,
                recovery,
            } => HarnessEventView::NavigationEnd {
                lane: lane.deep_view(),
                run_id: run_id.deep_view(),
                from_tip_id: from_tip_id.deep_view(),
                tip_id: tip_id.deep_view(),
                ended_at: ended_at.deep_view(),
                status: status.deep_view(),
                error: error.deep_view(),
                recovery: recovery.deep_view(),
            },
            HarnessEvent::Fault { lane, message } => HarnessEventView::Fault {
                lane: lane.deep_view(),
                message: message.deep_view(),
            },
            HarnessEvent::HandlerError { lane, message } => HarnessEventView::HandlerError {
                lane: lane.deep_view(),
                message: message.deep_view(),
            },
            HarnessEvent::TurnStart {
                lane,
                run_id,
                turn_id,
                recovery,
            } => HarnessEventView::TurnStart {
                lane: lane.deep_view(),
                run_id: run_id.deep_view(),
                turn_id: turn_id.deep_view(),
                recovery: recovery.deep_view(),
            },
            HarnessEvent::TurnEnd {
                lane,
                run_id,
                turn_id,
                message,
                tool_results,
                recovery,
            } => HarnessEventView::TurnEnd {
                lane: lane.deep_view(),
                run_id: run_id.deep_view(),
                turn_id: turn_id.deep_view(),
                message: message.deep_view(),
                tool_results: tool_results.deep_view(),
                recovery: recovery.deep_view(),
            },
            HarnessEvent::ValueUpdate { payload } => HarnessEventView::ValueUpdate {
                payload: payload.deep_view(),
            },
            HarnessEvent::LaneCreated { lane, at, recovery } => HarnessEventView::LaneCreated {
                lane: lane.deep_view(),
                at: at.deep_view(),
                recovery: recovery.deep_view(),
            },
        }
    }
}

impl Clone for HarnessEvent {
    fn clone(&self) -> (r: Self)
        ensures
            r.deep_view() == self.deep_view(),
    {
        match self {
            HarnessEvent::RunStart {
                lane,
                run_id,
                started_at,
                recovery,
            } => HarnessEvent::RunStart {
                lane: lane.clone(),
                run_id: run_id.clone(),
                started_at: *started_at,
                recovery: *recovery,
            },
            HarnessEvent::CompactionStart {
                lane,
                run_id,
                reason,
                started_at,
                recovery,
            } => HarnessEvent::CompactionStart {
                lane: lane.clone(),
                run_id: run_id.clone(),
                reason: reason.clone(),
                started_at: *started_at,
                recovery: *recovery,
            },
            HarnessEvent::NavigationStart {
                lane,
                run_id,
                target_id,
                started_at,
                recovery,
            } => HarnessEvent::NavigationStart {
                lane: lane.clone(),
                run_id: run_id.clone(),
                target_id: target_id.clone(),
                started_at: *started_at,
                recovery: *recovery,
            },
            HarnessEvent::OperationAbort {
                lane,
                operation_id,
                steer,
                follow_up,
                recovery,
            } => HarnessEvent::OperationAbort {
                lane: lane.clone(),
                operation_id: operation_id.clone(),
                steer: steer.clone(),
                follow_up: follow_up.clone(),
                recovery: *recovery,
            },
            HarnessEvent::RunResume { lane, run_id, recovery } => HarnessEvent::RunResume {
                lane: lane.clone(),
                run_id: run_id.clone(),
                recovery: *recovery,
            },
            HarnessEvent::RunSuspend {
                lane,
                run_id,
                deferred,
                poll,
                recovery,
            } => HarnessEvent::RunSuspend {
                lane: lane.clone(),
                run_id: run_id.clone(),
                deferred: deferred.clone(),
                poll: *poll,
                recovery: *recovery,
            },
            HarnessEvent::RetryScheduled {
                lane,
                run_id,
                attempt,
                max_attempts,
                not_before,
                recovery,
            } => HarnessEvent::RetryScheduled {
                lane: lane.clone(),
                run_id: run_id.clone(),
                attempt: *attempt,
                max_attempts: *max_attempts,
                not_before: *not_before,
                recovery: *recovery,
            },
            HarnessEvent::RetryStart {
                lane,
                run_id,
                step,
                attempt,
                recovery,
            } => HarnessEvent::RetryStart {
                lane: lane.clone(),
                run_id: run_id.clone(),
                step: step.clone(),
                attempt: *attempt,
                recovery: *recovery,
            },
            HarnessEvent::RetryEnd { lane, run_id, recovery } => HarnessEvent::RetryEnd {
                lane: lane.clone(),
                run_id: run_id.clone(),
                recovery: *recovery,
            },
            HarnessEvent::MessageStart {
                lane,
                run_id,
                message,
                recovery,
            } => HarnessEvent::MessageStart {
                lane: lane.clone(),
                run_id: run_id.clone(),
                message: message.clone(),
                recovery: *recovery,
            },
            HarnessEvent::MessageUpdate {
                lane,
                run_id,
                message,
                event,
                frame,
                recovery,
            } => HarnessEvent::MessageUpdate {
                lane: lane.clone(),
                run_id: run_id.clone(),
                message: message.clone(),
                event: event.clone(),
                frame: frame.clone(),
                recovery: *recovery,
            },
            HarnessEvent::MessageEnd {
                lane,
                run_id,
                message,
                entry_id,
                recovery,
            } => HarnessEvent::MessageEnd {
                lane: lane.clone(),
                run_id: run_id.clone(),
                message: message.clone(),
                entry_id: entry_id.clone(),
                recovery: *recovery,
            },
            HarnessEvent::ToolStart {
                lane,
                run_id,
                turn_id,
                tool_call_id,
                tool_name,
                args,
                recovery,
            } => HarnessEvent::ToolStart {
                lane: lane.clone(),
                run_id: run_id.clone(),
                turn_id: turn_id.clone(),
                tool_call_id: tool_call_id.clone(),
                tool_name: tool_name.clone(),
                args: args.clone(),
                recovery: *recovery,
            },
            HarnessEvent::ToolUpdate {
                lane,
                run_id,
                turn_id,
                tool_call_id,
                tool_name,
                partial_result,
                recovery,
            } => HarnessEvent::ToolUpdate {
                lane: lane.clone(),
                run_id: run_id.clone(),
                turn_id: turn_id.clone(),
                tool_call_id: tool_call_id.clone(),
                tool_name: tool_name.clone(),
                partial_result: partial_result.clone(),
                recovery: *recovery,
            },
            HarnessEvent::ToolEnd {
                lane,
                run_id,
                turn_id,
                tool_call_id,
                tool_name,
                result,
                is_error,
                terminate,
                recovery,
            } => HarnessEvent::ToolEnd {
                lane: lane.clone(),
                run_id: run_id.clone(),
                turn_id: turn_id.clone(),
                tool_call_id: tool_call_id.clone(),
                tool_name: tool_name.clone(),
                result: result.clone(),
                is_error: *is_error,
                terminate: *terminate,
                recovery: *recovery,
            },
            HarnessEvent::EntryAdded { lane, entry, recovery } => HarnessEvent::EntryAdded {
                lane: lane.clone(),
                entry: entry.clone(),
                recovery: *recovery,
            },
            HarnessEvent::QueueUpdate { lane, queues, recovery } => HarnessEvent::QueueUpdate {
                lane: lane.clone(),
                queues: queues.clone(),
                recovery: *recovery,
            },
            HarnessEvent::Usage { lane, row, totals } => HarnessEvent::Usage {
                lane: lane.clone(),
                row: row.clone(),
                totals: totals.clone(),
            },
            HarnessEvent::ConfigUpdate { lane, payload, recovery } => HarnessEvent::ConfigUpdate {
                lane: lane.clone(),
                payload: payload.clone(),
                recovery: *recovery,
            },
            HarnessEvent::RunEnd {
                lane,
                run_id,
                from_tip_id,
                tip_id,
                ended_at,
                status,
                error,
                recovery,
            } => HarnessEvent::RunEnd {
                lane: lane.clone(),
                run_id: run_id.clone(),
                from_tip_id: from_tip_id.clone(),
                tip_id: tip_id.clone(),
                ended_at: *ended_at,
                status: *status,
                error: error.clone(),
                recovery: *recovery,
            },
            HarnessEvent::CompactionEnd {
                lane,
                run_id,
                reason,
                ended_at,
                status,
                entry_id,
                error,
                recovery,
            } => HarnessEvent::CompactionEnd {
                lane: lane.clone(),
                run_id: run_id.clone(),
                reason: reason.clone(),
                ended_at: *ended_at,
                status: *status,
                entry_id: entry_id.clone(),
                error: error.clone(),
                recovery: *recovery,
            },
            HarnessEvent::NavigationEnd {
                lane,
                run_id,
                from_tip_id,
                tip_id,
                ended_at,
                status,
                error,
                recovery,
            } => HarnessEvent::NavigationEnd {
                lane: lane.clone(),
                run_id: run_id.clone(),
                from_tip_id: from_tip_id.clone(),
                tip_id: tip_id.clone(),
                ended_at: *ended_at,
                status: *status,
                error: error.clone(),
                recovery: *recovery,
            },
            HarnessEvent::Fault { lane, message } => HarnessEvent::Fault {
                lane: lane.clone(),
                message: message.clone(),
            },
            HarnessEvent::HandlerError { lane, message } => HarnessEvent::HandlerError {
                lane: lane.clone(),
                message: message.clone(),
            },
            HarnessEvent::TurnStart { lane, run_id, turn_id, recovery } => HarnessEvent::TurnStart {
                lane: lane.clone(),
                run_id: run_id.clone(),
                turn_id: turn_id.clone(),
                recovery: *recovery,
            },
            HarnessEvent::TurnEnd {
                lane,
                run_id,
                turn_id,
                message,
                tool_results,
                recovery,
            } => HarnessEvent::TurnEnd {
                lane: lane.clone(),
                run_id: run_id.clone(),
                turn_id: turn_id.clone(),
                message: message.clone(),
                tool_results: tool_results.clone(),
                recovery: *recovery,
            },
            HarnessEvent::ValueUpdate { payload } => HarnessEvent::ValueUpdate {
                payload: payload.clone(),
            },
            HarnessEvent::LaneCreated { lane, at, recovery } => HarnessEvent::LaneCreated {
                lane: lane.clone(),
                at: at.clone(),
                recovery: *recovery,
            },
        }
    }
}

/// A retry that is waiting.
#[derive(Clone, Copy, Debug, PartialEq, Eq, Structural)]
pub struct RetrySnapshot {
    pub attempt: u32,
    pub max_attempts: u32,
    pub next_attempt_at: u64,
}

impl DeepView for RetrySnapshot {
    type V = RetrySnapshot;

    open spec fn deep_view(&self) -> RetrySnapshot {
        *self
    }
}

/// A deferred response that is waiting.
#[derive(Debug, PartialEq, Eq)]
pub struct DeferredSnapshot {
    pub handle: DeferredHandle,
    pub poll: u64,
}

/// Contents of a [`DeferredSnapshot`].
pub struct DeferredSnapshotView {
    pub handle: DeferredHandleView,
    pub poll: u64,
}

impl DeepView for DeferredSnapshot {
    type V = DeferredSnapshotView;

    open spec fn deep_view(&self) -> DeferredSnapshotView {
        DeferredSnapshotView {
            handle: self.handle.deep_view(),
            poll: self.poll.deep_view(),
        }
    }
}

impl Clone for DeferredSnapshot {
    fn clone(&self) -> (r: Self)
        ensures
            r.deep_view() == self.deep_view(),
    {
        DeferredSnapshot {
            handle: self.handle.clone(),
            poll: self.poll,
        }
    }
}

/// A tool call of the open batch.
#[allow(inconsistent_fields)]
#[derive(Debug, PartialEq, Eq)]
pub enum LaneSnapshotTool {
    Running {
        tool_call_id: String,
        tool_name: String,
        args: Json,
        result: Option<AgentToolResult>,
    },
    Settled {
        tool_call_id: String,
        tool_name: String,
        args: Json,
        result: AgentToolResult,
        is_error: bool,
    },
}

/// Contents of [`LaneSnapshotTool`].
#[allow(inconsistent_fields)]
pub enum LaneSnapshotToolView {
    Running {
        tool_call_id: Seq<char>,
        tool_name: Seq<char>,
        args: serde_json::Value,
        result: Option<AgentToolResultView>,
    },
    Settled {
        tool_call_id: Seq<char>,
        tool_name: Seq<char>,
        args: serde_json::Value,
        result: AgentToolResultView,
        is_error: bool,
    },
}

impl DeepView for LaneSnapshotTool {
    type V = LaneSnapshotToolView;

    open spec fn deep_view(&self) -> LaneSnapshotToolView {
        match self {
            LaneSnapshotTool::Running {
                tool_call_id,
                tool_name,
                args,
                result,
            } => LaneSnapshotToolView::Running {
                tool_call_id: tool_call_id.deep_view(),
                tool_name: tool_name.deep_view(),
                args: args.deep_view(),
                result: result.deep_view(),
            },
            LaneSnapshotTool::Settled {
                tool_call_id,
                tool_name,
                args,
                result,
                is_error,
            } => LaneSnapshotToolView::Settled {
                tool_call_id: tool_call_id.deep_view(),
                tool_name: tool_name.deep_view(),
                args: args.deep_view(),
                result: result.deep_view(),
                is_error: is_error.deep_view(),
            },
        }
    }
}

impl Clone for LaneSnapshotTool {
    fn clone(&self) -> (r: Self)
        ensures
            r.deep_view() == self.deep_view(),
    {
        match self {
            LaneSnapshotTool::Running {
                tool_call_id,
                tool_name,
                args,
                result,
            } => LaneSnapshotTool::Running {
                tool_call_id: tool_call_id.clone(),
                tool_name: tool_name.clone(),
                args: args.clone(),
                result: result.clone(),
            },
            LaneSnapshotTool::Settled {
                tool_call_id,
                tool_name,
                args,
                result,
                is_error,
            } => LaneSnapshotTool::Settled {
                tool_call_id: tool_call_id.clone(),
                tool_name: tool_name.clone(),
                args: args.clone(),
                result: result.clone(),
                is_error: *is_error,
            },
        }
    }
}

/// The open operation of a lane.
#[derive(Debug, PartialEq, Eq)]
pub struct LaneOperationSnapshot {
    pub id: String,
    pub kind: String,
    pub started_at: u64,
    pub from_tip_id: Option<String>,
    pub status: String,
    pub retry: Option<RetrySnapshot>,
    pub deferred: Option<DeferredSnapshot>,
    pub streaming_message: Option<AssistantMessage>,
    pub running_tools: Vec<LaneSnapshotTool>,
}

/// Contents of a [`LaneOperationSnapshot`].
pub struct LaneOperationSnapshotView {
    pub id: Seq<char>,
    pub kind: Seq<char>,
    pub started_at: u64,
    pub from_tip_id: Option<Seq<char>>,
    pub status: Seq<char>,
    pub retry: Option<RetrySnapshot>,
    pub deferred: Option<DeferredSnapshotView>,
    pub streaming_message: Option<AssistantMessageView>,
    pub running_tools: Seq<LaneSnapshotToolView>,
}

impl DeepView for LaneOperationSnapshot {
    type V = LaneOperationSnapshotView;

    open spec fn deep_view(&self) -> LaneOperationSnapshotView {
        LaneOperationSnapshotView {
            id: self.id.deep_view(),
            kind: self.kind.deep_view(),
            started_at: self.started_at.deep_view(),
            from_tip_id: self.from_tip_id.deep_view(),
            status: self.status.deep_view(),
            retry: self.retry.deep_view(),
            deferred: self.deferred.deep_view(),
            streaming_message: self.streaming_message.deep_view(),
            running_tools: self.running_tools.deep_view(),
        }
    }
}

impl Clone for LaneOperationSnapshot {
    fn clone(&self) -> (r: Self)
        ensures
            r.deep_view() == self.deep_view(),
    {
        LaneOperationSnapshot {
            id: self.id.clone(),
            kind: self.kind.clone(),
            started_at: self.started_at,
            from_tip_id: self.from_tip_id.clone(),
            status: self.status.clone(),
            retry: self.retry,
            deferred: self.deferred.clone(),
            streaming_message: self.streaming_message.clone(),
            running_tools: self.running_tools.clone(),
        }
    }
}

/// What an observer knows of a lane.
#[derive(Debug, PartialEq, Eq)]
pub struct LaneSnapshot {
    pub lane: String,
    pub transcript: Vec<Entry>,
    pub tip_id: Option<String>,
    pub last_result: Option<OperationResultRecord>,
    pub configuration: LaneConfiguration,
    pub stats: SessionStats,
    pub operation: Option<LaneOperationSnapshot>,
    pub queues: Vec<LaneQueuedItem>,
    pub faulted: bool,
}

/// Contents of a [`LaneSnapshot`].
pub struct LaneSnapshotView {
    pub lane: Seq<char>,
    pub transcript: Seq<EntryView>,
    pub tip_id: Option<Seq<char>>,
    pub last_result: Option<OperationResultRecordView>,
    pub configuration: LaneConfigurationView,
    pub stats: SessionStatsView,
    pub operation: Option<LaneOperationSnapshotView>,
    pub queues: Seq<LaneQueuedItemView>,
    pub faulted: bool,
}

impl DeepView for LaneSnapshot {
    type V = LaneSnapshotView;

    open spec fn deep_view(&self) -> LaneSnapshotView {
        LaneSnapshotView {
            lane: self.lane.deep_view(),
            transcript: self.transcript.deep_view(),
            tip_id: self.tip_id.deep_view(),
            last_result: self.last_result.deep_view(),
            configuration: self.configuration.deep_view(),
            stats: self.stats.deep_view(),
            operation: self.operation.deep_view(),
            queues: self.queues.deep_view(),
            faulted: self.faulted.deep_view(),
        }
    }
}

impl Clone for LaneSnapshot {
    fn clone(&self) -> (r: Self)
        ensures
            r.deep_view() == self.deep_view(),
    {
        LaneSnapshot {
            lane: self.lane.clone(),
            transcript: self.transcript.clone(),
            tip_id: self.tip_id.clone(),
            last_result: self.last_result.clone(),
            configuration: self.configuration.clone(),
            stats: self.stats.clone(),
            operation: self.operation.clone(),
            queues: self.queues.clone(),
            faulted: self.faulted,
        }
    }
}

/// An event that is completed once its commit is known.
#[allow(inconsistent_fields)]
#[derive(Debug, PartialEq, Eq)]
pub enum PlannedEvent {
    /// Needs nothing of the commit.
    Ready(HarnessEvent),
    /// The lifecycle events of an inserted entry.
    Lifecycle {
        entry: NewEntry,
        write_index: usize,
        lane: String,
        run_id: Option<String>,
    },
    /// Only the addition of an inserted entry.
    Added {
        entry: NewEntry,
        write_index: usize,
        lane: String,
        recovery: Option<bool>,
    },
    /// A usage row with the totals after the commit.
    Ledger {
        row: UsageRow,
        write_index: usize,
        lane: String,
    },
    /// A compaction that starts at the commit.
    CompactionStarted {
        lane: String,
        run_id: String,
        reason: String,
    },
}

/// Contents of [`PlannedEvent`].
#[allow(inconsistent_fields)]
pub enum PlannedEventView {
    Ready(HarnessEventView),
    Lifecycle {
        entry: NewEntryView,
        write_index: usize,
        lane: Seq<char>,
        run_id: Option<Seq<char>>,
    },
    Added {
        entry: NewEntryView,
        write_index: usize,
        lane: Seq<char>,
        recovery: Option<bool>,
    },
    Ledger {
        row: UsageRowView,
        write_index: usize,
        lane: Seq<char>,
    },
    CompactionStarted {
        lane: Seq<char>,
        run_id: Seq<char>,
        reason: Seq<char>,
    },
}

impl DeepView for PlannedEvent {
    type V = PlannedEventView;

    open spec fn deep_view(&self) -> PlannedEventView {
        match self {
            PlannedEvent::Ready(item) => PlannedEventView::Ready(item.deep_view()),
            PlannedEvent::Lifecycle {
                entry,
                write_index,
                lane,
                run_id,
            } => PlannedEventView::Lifecycle {
                entry: entry.deep_view(),
                write_index: write_index.deep_view(),
                lane: lane.deep_view(),
                run_id: run_id.deep_view(),
            },
            PlannedEvent::Added { entry, write_index, lane, recovery } => PlannedEventView::Added {
                entry: entry.deep_view(),
                write_index: write_index.deep_view(),
                lane: lane.deep_view(),
                recovery: recovery.deep_view(),
            },
            PlannedEvent::Ledger { row, write_index, lane } => PlannedEventView::Ledger {
                row: row.deep_view(),
                write_index: write_index.deep_view(),
                lane: lane.deep_view(),
            },
            PlannedEvent::CompactionStarted {
                lane,
                run_id,
                reason,
            } => PlannedEventView::CompactionStarted {
                lane: lane.deep_view(),
                run_id: run_id.deep_view(),
                reason: reason.deep_view(),
            },
        }
    }
}

impl Clone for PlannedEvent {
    fn clone(&self) -> (r: Self)
        ensures
            r.deep_view() == self.deep_view(),
    {
        match self {
            PlannedEvent::Ready(item) => PlannedEvent::Ready(item.clone()),
            PlannedEvent::Lifecycle {
                entry,
                write_index,
                lane,
                run_id,
            } => PlannedEvent::Lifecycle {
                entry: entry.clone(),
                write_index: *write_index,
                lane: lane.clone(),
                run_id: run_id.clone(),
            },
            PlannedEvent::Added { entry, write_index, lane, recovery } => PlannedEvent::Added {
                entry: entry.clone(),
                write_index: *write_index,
                lane: lane.clone(),
                recovery: *recovery,
            },
            PlannedEvent::Ledger { row, write_index, lane } => PlannedEvent::Ledger {
                row: row.clone(),
                write_index: *write_index,
                lane: lane.clone(),
            },
            PlannedEvent::CompactionStarted {
                lane,
                run_id,
                reason,
            } => PlannedEvent::CompactionStarted {
                lane: lane.clone(),
                run_id: run_id.clone(),
                reason: reason.clone(),
            },
        }
    }
}

} // verus!
